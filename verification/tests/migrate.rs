use pgutils::database::{first_row, only_row};
use pgutils::migrate::filename::{parse_file_name, split_file_name};
use pgutils::migrate::order::sort_by_version;
use pgutils::migrate::runner::{CREATE_TABLE, INSERT_APPLIED, SELECT_APPLIED};
use pgutils::migrate::statements::split_statements;
use pgutils::migrate::{
    Action, AppliedMigration, Command, Migration, MigrationError, MigrationState, Migrator,
};
use pgutils::DatabaseError;
use regex::Regex;
use sha2::{Digest, Sha256};

fn sha256(text: &str) -> String {
    format!("{:x}", Sha256::digest(text.as_bytes()))
}

fn row(migration: &Migration) -> AppliedMigration {
    AppliedMigration {
        checksum: migration.checksum.clone(),
        version: migration.version,
    }
}

fn sample() -> Migrator {
    Migrator::new(vec![
        Migration::new(1, String::from("init"), String::from("CREATE TABLE a (id INT);")),
        Migration::new(2, String::from("add_col"), String::from("ALTER TABLE a ADD b INT;")),
        Migration::new(5, String::from("index"), String::from("CREATE INDEX i ON a (b);")),
    ])
}

// What a database's bookkeeping table holds after the commands of a plan
// have been carried out on it.
fn run(migrator: &Migrator, database: &mut Vec<AppliedMigration>) -> Result<(), MigrationError> {
    let plan = migrator.migrate(database);
    for at in plan.apply {
        for command in migrator.apply_migration(&migrator.migrations[at]) {
            if let Command::Record { version, checksum, .. } = command {
                database.push(AppliedMigration { checksum, version });
            }
        }
    }
    plan.outcome
}

#[test]
fn checksum_is_the_sha256_of_the_text_in_hex() {
    let empty = Migration::new(1, String::from("a"), String::new());
    assert_eq!(
        empty.checksum,
        "e3b0c44298fc1c149afbf4c8996fb92427ae41e4649b934ca495991b7852b855"
    );
    let abc = Migration::new(2, String::from("b"), String::from("abc"));
    assert_eq!(
        abc.checksum,
        "ba7816bf8f01cfea414140de5dae2223b00361a396177a9cb410ff61f20015ad"
    );
    let hello = Migration::new(3, String::from("c"), String::from("hello world"));
    assert_eq!(
        hello.checksum,
        "b94d27b9934d3e08a52e52d7da7dabfac484efe37a5380ee9088f7ace2efcde9"
    );
    assert_eq!(hello.version, 3);
    assert_eq!(hello.name, "c");
    assert_eq!(hello.sql, "hello world");
}

#[test]
fn checksum_changes_with_the_text() {
    let one = Migration::new(1, String::from("a"), String::from("SELECT 1;"));
    let two = Migration::new(1, String::from("a"), String::from("SELECT 2;"));
    assert_ne!(one.checksum, two.checksum);
    assert_eq!(one.checksum.len(), 64);
    assert_eq!(one.checksum, sha256("SELECT 1;"));
}

#[test]
fn migration_from_a_file() {
    let loaded = Migration::try_from("0042_create_users.sql", String::from("CREATE TABLE u ();"));
    let migration = loaded.unwrap();
    assert_eq!(migration.version, 42);
    assert_eq!(migration.name, "create_users");
    assert_eq!(migration.sql, "CREATE TABLE u ();");
    assert_eq!(migration.checksum, sha256("CREATE TABLE u ();"));
}

#[test]
fn migration_from_a_file_with_a_bad_name() {
    for name in ["users.sql", "1_Users.sql", "1-users.sql", "1_users.txt", "", "1_users"] {
        let loaded = Migration::try_from(name, String::from("SELECT 1;"));
        assert!(matches!(loaded, Err(MigrationError::FilenameError)), "{}", name);
    }
}

#[test]
fn file_name_parts() {
    assert_eq!(
        split_file_name("1_init.sql"),
        Some((String::from("1"), String::from("init")))
    );
    assert_eq!(
        split_file_name("20240131_add_user_table.sql"),
        Some((String::from("20240131"), String::from("add_user_table")))
    );
    assert_eq!(
        split_file_name("007__x_.sql"),
        Some((String::from("007"), String::from("_x_")))
    );
    assert_eq!(split_file_name("1_.sql"), None);
    assert_eq!(split_file_name("_a.sql"), None);
    assert_eq!(split_file_name("1a.sql"), None);
    assert_eq!(split_file_name("1_a.sq"), None);
    assert_eq!(split_file_name("1_a.sqll"), None);
    assert_eq!(split_file_name("1_a.sql.sql"), None);
    assert_eq!(split_file_name("1_a1.sql"), None);
}

#[test]
fn file_names_are_judged_as_the_pattern_judges_them() {
    let pattern = Regex::new(r"^(?P<version>[0-9]+)_(?P<name>[a-z_]+)\.sql$").unwrap();
    let names = [
        "1_init.sql",
        "0_a.sql",
        "0001_create_table.sql",
        "12345678901234567890_big.sql",
        "1__.sql",
        "1___a__b__.sql",
        "1_a.sql\n",
        "\n1_a.sql",
        " 1_a.sql",
        "1_a.sql ",
        "1_a.SQL",
        "1_A.sql",
        "1_a.sqlx",
        "1_a.sq",
        "1_a_sql",
        "1_a.sql.sql",
        "1_a..sql",
        "_a.sql",
        "1_.sql",
        "1.sql",
        "1a_b.sql",
        "1_a1.sql",
        "1_a-b.sql",
        "1_a b.sql",
        "a_1.sql",
        "-1_a.sql",
        "+1_a.sql",
        "1_2.sql",
        "1_\u{e9}.sql",
        "\u{661}_a.sql",
        "\u{ff11}_a.sql",
        "1_a\u{2e}sql",
        "1_a\u{ff0e}sql",
        "",
        "_",
        ".sql",
        "_.sql",
        "1",
        "1_",
        "1_a",
        "1_a.",
        "11_aa.sqlsql",
        "1_a.sql1_a.sql",
    ];
    for name in names {
        let expected = pattern.captures(name).map(|found| {
            (
                found.name("version").unwrap().as_str().to_owned(),
                found.name("name").unwrap().as_str().to_owned(),
            )
        });
        assert_eq!(split_file_name(name), expected, "{:?}", name);
    }
}

#[test]
fn versions_are_read_in_decimal() {
    assert!(matches!(parse_file_name("0_zero.sql"), Ok((0, name)) if name == "zero"));
    assert!(matches!(parse_file_name("10_ten.sql"), Ok((10, name)) if name == "ten"));
    assert!(matches!(
        parse_file_name("000000000000000000000000000012_padded.sql"),
        Ok((12, name)) if name == "padded"
    ));
    assert!(matches!(
        parse_file_name("9223372036854775807_max.sql"),
        Ok((9223372036854775807, name)) if name == "max"
    ));
}

#[test]
fn version_too_large_is_a_parse_error() {
    assert!(matches!(
        parse_file_name("9223372036854775808_over.sql"),
        Err(MigrationError::ParseIntError(_))
    ));
    assert!(matches!(
        parse_file_name("99999999999999999999999999_over.sql"),
        Err(MigrationError::ParseIntError(_))
    ));
    assert!(matches!(
        Migration::try_from("18446744073709551616_over.sql", String::new()),
        Err(MigrationError::ParseIntError(_))
    ));
}

#[test]
fn bad_file_name_is_a_filename_error() {
    assert!(matches!(
        parse_file_name("init.sql"),
        Err(MigrationError::FilenameError)
    ));
    assert!(matches!(
        parse_file_name("99999999999999999999999999_Over.sql"),
        Err(MigrationError::FilenameError)
    ));
}

#[test]
fn statements_are_the_pieces_between_semicolons() {
    assert_eq!(split_statements("a;b"), vec!["a", "b"]);
    assert_eq!(split_statements("a;b;"), vec!["a", "b"]);
    assert_eq!(split_statements("SELECT 1"), vec!["SELECT 1"]);
    assert_eq!(
        split_statements("CREATE TABLE a (id INT);\nCREATE INDEX i ON a (id);\n"),
        vec!["CREATE TABLE a (id INT)", "\nCREATE INDEX i ON a (id)"]
    );
}

#[test]
fn blank_pieces_are_no_statements() {
    assert_eq!(split_statements(""), Vec::<String>::new());
    assert_eq!(split_statements("   \n\t "), Vec::<String>::new());
    assert_eq!(split_statements(";"), Vec::<String>::new());
    assert_eq!(split_statements(";;;"), Vec::<String>::new());
    assert_eq!(split_statements(" ; \n ;\t;"), Vec::<String>::new());
    assert_eq!(split_statements("a; \n ;b;  "), vec!["a", "b"]);
    assert_eq!(split_statements(";;a;;"), vec!["a"]);
    assert_eq!(split_statements("\u{a0};\u{2003}x\u{3000};\u{85}"), vec!["\u{2003}x\u{3000}"]);
    assert_eq!(split_statements("\u{200b};a"), vec!["\u{200b}", "a"]);
}

#[test]
fn statements_keep_their_white_space() {
    assert_eq!(split_statements("  a  ;\n b\n"), vec!["  a  ", "\n b\n"]);
}

#[test]
fn a_migration_is_unseen_matching_or_mismatched() {
    let migration = Migration::new(7, String::from("m"), String::from("SELECT 7;"));
    assert_eq!(migration.state(&vec![]), MigrationState::Unseen);
    let other = AppliedMigration { checksum: migration.checksum.clone(), version: 8 };
    assert_eq!(migration.state(&vec![other.clone()]), MigrationState::Unseen);
    let same = row(&migration);
    assert_eq!(
        migration.state(&vec![other.clone(), same.clone()]),
        MigrationState::SeenMatching
    );
    let changed = AppliedMigration { checksum: sha256("SELECT 8;"), version: 7 };
    assert_eq!(
        migration.state(&vec![other, changed.clone()]),
        MigrationState::SeenMismatched
    );
    assert_eq!(
        migration.state(&vec![same.clone(), changed.clone()]),
        MigrationState::SeenMatching
    );
    assert_eq!(
        migration.state(&vec![changed, same]),
        MigrationState::SeenMismatched
    );
}

#[test]
fn each_state_has_its_action() {
    assert_eq!(MigrationState::Unseen.action(), Action::Apply);
    assert_eq!(MigrationState::SeenMatching.action(), Action::Skip);
    assert_eq!(MigrationState::SeenMismatched.action(), Action::Fail);
}

#[test]
fn empty_database_gets_every_migration() {
    let migrator = sample();
    let plan = migrator.migrate(&vec![]);
    assert_eq!(plan.apply, vec![0, 1, 2]);
    assert!(plan.outcome.is_ok());
}

#[test]
fn no_migrations_no_work() {
    let migrator = Migrator::new(vec![]);
    let plan = migrator.migrate(&vec![AppliedMigration { checksum: sha256("x"), version: 1 }]);
    assert_eq!(plan.apply, Vec::<usize>::new());
    assert!(plan.outcome.is_ok());
}

#[test]
fn applied_migrations_are_passed_over() {
    let migrator = sample();
    let applied = vec![row(&migrator.migrations[0]), row(&migrator.migrations[2])];
    let plan = migrator.migrate(&applied);
    assert_eq!(plan.apply, vec![1]);
    assert!(plan.outcome.is_ok());
}

#[test]
fn changed_migration_fails_the_run() {
    let migrator = sample();
    let applied = vec![AppliedMigration { checksum: sha256("something else"), version: 2 }];
    let plan = migrator.migrate(&applied);
    assert_eq!(plan.apply, vec![0]);
    assert!(matches!(plan.outcome, Err(MigrationError::ChecksumError)));
}

#[test]
fn changed_first_migration_applies_nothing() {
    let migrator = sample();
    let applied = vec![AppliedMigration { checksum: sha256("something else"), version: 1 }];
    let plan = migrator.migrate(&applied);
    assert_eq!(plan.apply, Vec::<usize>::new());
    assert!(matches!(plan.outcome, Err(MigrationError::ChecksumError)));
}

#[test]
fn nothing_is_applied_behind_a_changed_migration() {
    let migrator = sample();
    let mut database = vec![
        row(&migrator.migrations[0]),
        AppliedMigration { checksum: sha256("drifted"), version: 2 },
    ];
    let outcome = run(&migrator, &mut database);
    assert!(matches!(outcome, Err(MigrationError::ChecksumError)));
    assert_eq!(database.len(), 2);
    assert!(database.iter().all(|applied| applied.version != 5));
}

#[test]
fn second_run_applies_nothing() {
    let migrator = sample();
    let mut database = Vec::new();
    assert!(run(&migrator, &mut database).is_ok());
    assert_eq!(database.len(), 3);
    let again = migrator.migrate(&database);
    assert_eq!(again.apply, Vec::<usize>::new());
    assert!(again.outcome.is_ok());
    assert!(run(&migrator, &mut database).is_ok());
    assert_eq!(database.len(), 3);
}

#[test]
fn second_run_after_a_failed_one_applies_nothing() {
    let migrator = sample();
    let mut database = vec![AppliedMigration { checksum: sha256("drifted"), version: 5 }];
    assert!(matches!(run(&migrator, &mut database), Err(MigrationError::ChecksumError)));
    assert_eq!(database.len(), 3);
    let again = migrator.migrate(&database);
    assert_eq!(again.apply, Vec::<usize>::new());
    assert!(matches!(again.outcome, Err(MigrationError::ChecksumError)));
}

#[test]
fn two_migrations_on_an_empty_database() {
    let sql1 = "CREATE TABLE t (id BIGINT PRIMARY KEY);";
    let sql2 = "ALTER TABLE t ADD COLUMN name TEXT;";
    let migrator = Migrator::new(vec![
        Migration::new(1, String::from("init"), String::from(sql1)),
        Migration::new(2, String::from("add_col"), String::from(sql2)),
    ]);
    let mut database = Vec::new();
    assert!(run(&migrator, &mut database).is_ok());
    assert_eq!(
        database,
        vec![
            AppliedMigration { checksum: sha256(sql1), version: 1 },
            AppliedMigration { checksum: sha256(sql2), version: 2 },
        ]
    );
}

#[test]
fn a_migration_is_applied_in_one_transaction() {
    let migrator = sample();
    let migration = Migration::new(
        3,
        String::from("two_tables"),
        String::from("CREATE TABLE a ();\n\nCREATE TABLE b ();\n"),
    );
    assert_eq!(
        migrator.apply_migration(&migration),
        vec![
            Command::Begin,
            Command::Execute(String::from("CREATE TABLE a ()")),
            Command::Execute(String::from("\n\nCREATE TABLE b ()")),
            Command::Record {
                version: 3,
                name: String::from("two_tables"),
                checksum: sha256("CREATE TABLE a ();\n\nCREATE TABLE b ();\n"),
            },
            Command::Commit,
        ]
    );
}

#[test]
fn a_migration_without_statements_is_still_recorded() {
    let migrator = sample();
    let migration = Migration::new(4, String::from("nothing"), String::from(" ; ;\n"));
    assert_eq!(
        migrator.apply_migration(&migration),
        vec![
            Command::Begin,
            Command::Record {
                version: 4,
                name: String::from("nothing"),
                checksum: sha256(" ; ;\n"),
            },
            Command::Commit,
        ]
    );
}

#[test]
fn bookkeeping_statements() {
    assert_eq!(
        CREATE_TABLE,
        "CREATE TABLE IF NOT EXISTS migrations (\n    version     BIGINT PRIMARY KEY,\n    name        TEXT NOT NULL,\n    checksum    VARCHAR(64),\n    created_at  TIMESTAMPTZ NOT NULL DEFAULT current_timestamp\n)"
    );
    assert!(SELECT_APPLIED.contains("ORDER BY version"));
    assert!(INSERT_APPLIED.contains("$1, $2, $3"));
}

#[test]
fn migrations_are_sorted_by_version() {
    let given = vec![
        Migration::new(3, String::from("c"), String::from("3")),
        Migration::new(1, String::from("a"), String::from("1")),
        Migration::new(2, String::from("b"), String::from("2")),
        Migration::new(-4, String::from("z"), String::from("0")),
    ];
    let sorted = sort_by_version(given);
    let versions: Vec<i64> = sorted.iter().map(|migration| migration.version).collect();
    assert_eq!(versions, vec![-4, 1, 2, 3]);
    let names: Vec<&str> = sorted.iter().map(|migration| migration.name.as_str()).collect();
    assert_eq!(names, vec!["z", "a", "b", "c"]);
    assert_eq!(sort_by_version(vec![]), vec![]);
}

#[test]
fn equal_versions_keep_their_order() {
    let given = vec![
        Migration::new(2, String::from("first"), String::from("a")),
        Migration::new(1, String::from("only"), String::from("b")),
        Migration::new(2, String::from("second"), String::from("c")),
        Migration::new(2, String::from("third"), String::from("d")),
    ];
    let sorted = sort_by_version(given);
    let names: Vec<&str> = sorted.iter().map(|migration| migration.name.as_str()).collect();
    assert_eq!(names, vec!["only", "first", "second", "third"]);
}

#[test]
fn one_row_is_wanted() {
    assert!(matches!(first_row(Some(1)), Ok(1)));
    assert!(matches!(first_row::<i32>(None), Err(DatabaseError::EmptyResult)));
    assert!(matches!(only_row(1, None), Ok(1)));
    assert!(matches!(only_row(1, Some(2)), Err(DatabaseError::EmptyResult)));
}

#[test]
fn database_errors_are_wrapped_as_they_are() {
    let refused = "port=not_a_number".parse::<tokio_postgres::Config>().unwrap_err();
    let text = refused.to_string();
    assert!(matches!(
        MigrationError::from(refused),
        MigrationError::PostgresError(inner) if inner.to_string() == text
    ));
    let refused = "port=not_a_number".parse::<tokio_postgres::Config>().unwrap_err();
    assert!(matches!(
        DatabaseError::from(refused),
        DatabaseError::PostgresError(inner) if inner.to_string() == text
    ));
}

#[test]
fn outside_errors_are_wrapped_as_they_are() {
    let parse = "x".parse::<i64>().unwrap_err();
    assert!(matches!(
        MigrationError::from(parse.clone()),
        MigrationError::ParseIntError(inner) if inner == parse
    ));
    let io = std::io::Error::new(std::io::ErrorKind::NotFound, "gone");
    assert!(matches!(
        MigrationError::from(io),
        MigrationError::IOError(inner) if inner.kind() == std::io::ErrorKind::NotFound
    ));
}
