use pgutils::query::template::count_placeholders;
use pgutils::query::{Group, Query, Value};

#[test]
fn simple_query() {
    let mut query = Query::new("SELECT");
    query.comma("a");
    query.comma("b");
    query.comma("c");
    query.push("FROM foobar WHERE");
    query.and("foo = 'bar'");
    query.and(("bar = ?", 1));

    query.and(Group::new().or(("d = ?", 10)).or(("e != ?", 20)));

    assert_eq!(
        query.to_string(),
        "SELECT a,b,c FROM foobar WHERE foo = 'bar' AND bar = $1 AND ( d = $2 OR e != $3)"
    );
}

#[test]
fn query_concatenation() {
    let mut query_a = Query::empty();

    query_a.push(Group::new().or(("c = ?", 3)).or("d = 4").or(("e = ?", 4)));

    let mut query_b = Query::new("SELECT * FROM test WHERE");
    query_b.and(("a = ?", 1));
    query_b.and(("b = ?", 2));
    query_b.and(query_a);

    assert_eq!(
        query_b.to_string(),
        "SELECT * FROM test WHERE a = $1 AND b = $2 AND (c = $3 OR d = 4 OR e = $4)"
    );

    let mut fields = Query::empty();
    fields.comma("foo");
    fields.comma("bar");
    fields.comma(("? as foobar", 1000));

    let mut query = Query::new("SELECT");
    query.push(fields);
    query.push("FROM my_table");

    assert_eq!(
        query.to_string(),
        "SELECT foo,bar,$1 as foobar FROM my_table"
    );
}

#[test]
fn chained_calls_render_text_and_args() {
    let mut query = Query::new("SELECT");
    query
        .comma("a")
        .comma("b")
        .push("FROM t WHERE")
        .and("x=1")
        .and(("y=?", 5));
    assert_eq!(query.to_string(), "SELECT a,b FROM t WHERE x=1 AND y=$1");
    let (text, args) = query.into_parts();
    assert_eq!(text, "SELECT a,b FROM t WHERE x=1 AND y=$1");
    assert_eq!(args, vec![Value::Int(5)]);
}

#[test]
fn empty_statement_renders_to_nothing() {
    let query = Query::empty();
    assert_eq!(query.to_string(), "");
    assert!(!query.has_text());
    assert!(!query.is_separated());
    assert_eq!(query.into_args(), Vec::<Value>::new());
}

#[test]
fn rendering_twice_gives_the_same_text() {
    let mut query = Query::new(("a = ? AND b = ?", 1, 2));
    query.and(("c = ?", 3));
    let first = query.to_string();
    let second = query.to_string();
    assert_eq!(first, "a = $1 AND b = $2 c = $3");
    assert_eq!(first, second);
}

#[test]
fn placeholder_at_the_start_gets_its_marker() {
    let query = Query::new(("? = x", 7));
    assert_eq!(query.to_string(), "$1 = x");
    assert_eq!(query.into_args(), vec![Value::Int(7)]);
}

#[test]
fn placeholders_side_by_side() {
    let query = Query::new(("??,?", 1, 2, 3));
    assert_eq!(query.to_string(), "$1$2,$3");
}

#[test]
fn statement_of_placeholders_only_has_no_text() {
    let mut query = Query::new(("?", 1));
    assert!(!query.has_text());
    query.push("x");
    assert_eq!(query.to_string(), "$1x");
}

#[test]
fn markers_go_beyond_one_digit() {
    let mut query = Query::new("SELECT");
    for n in 0..12 {
        query.comma(("?", n));
    }
    assert_eq!(
        query.to_string(),
        "SELECT $1,$2,$3,$4,$5,$6,$7,$8,$9,$10,$11,$12"
    );
    let args = query.into_args();
    assert_eq!(args.len(), 12);
    assert_eq!(args[9], Value::Int(9));
    assert_eq!(args[11], Value::Int(11));
}

#[test]
fn markers_reach_three_digits() {
    let mut query = Query::empty();
    for n in 0..105 {
        query.comma(("?", n));
    }
    let text = query.to_string();
    assert!(text.starts_with("$1,$2,"));
    assert!(text.ends_with(",$99,$100,$101,$102,$103,$104,$105"));
}

#[test]
fn text_with_two_and_three_values() {
    let mut query = Query::new("SELECT * FROM t WHERE");
    query.and(("a BETWEEN ? AND ?", 1i64, 9i64));
    query.and(("b IN (?, ?, ?)", String::from("x"), String::from("y"), String::from("z")));
    assert_eq!(
        query.to_string(),
        "SELECT * FROM t WHERE a BETWEEN $1 AND $2 AND b IN ($3, $4, $5)"
    );
    assert_eq!(
        query.into_args(),
        vec![
            Value::BigInt(1),
            Value::BigInt(9),
            Value::Text(String::from("x")),
            Value::Text(String::from("y")),
            Value::Text(String::from("z")),
        ]
    );
}

#[test]
fn values_of_every_kind() {
    assert_eq!(Value::from(true), Value::Bool(true));
    assert_eq!(Value::from(3i16), Value::SmallInt(3));
    assert_eq!(Value::from(-4i32), Value::Int(-4));
    assert_eq!(Value::from(5i64), Value::BigInt(5));
    assert_eq!(Value::from(String::from("s")), Value::Text(String::from("s")));
    assert_eq!(Value::from(vec![1u8, 2u8]), Value::Bytes(vec![1, 2]));
    assert_eq!(Value::text("abc"), Value::Text(String::from("abc")));
    let mut query = Query::new("UPDATE t SET");
    query.comma(("a = ?", Value::Null));
    query.comma(("b = ?", Value::text("v")));
    assert_eq!(query.to_string(), "UPDATE t SET a = $1,b = $2");
    assert_eq!(query.into_args(), vec![Value::Null, Value::text("v")]);
}

#[test]
fn push_after_push_writes_single_spaces() {
    let mut query = Query::empty();
    query.push("a").push("b").push("c");
    assert_eq!(query.to_string(), "a b c");
    assert!(!query.is_separated());
}

#[test]
fn first_item_of_an_empty_statement_has_no_separator() {
    let mut and = Query::empty();
    and.and("x");
    assert_eq!(and.to_string(), "x");
    assert!(and.is_separated());
    let mut or = Query::empty();
    or.or("x").or("y");
    assert_eq!(or.to_string(), "x OR y");
    let mut comma = Query::empty();
    comma.comma("x").comma("y");
    assert_eq!(comma.to_string(), "x,y");
}

#[test]
fn joining_calls_in_a_row_write_one_keyword_each() {
    let mut query = Query::new("SELECT * FROM t WHERE");
    query.and("x").and("y").and("z");
    assert_eq!(query.to_string(), "SELECT * FROM t WHERE x AND y AND z");
    let mut many = Query::new("W");
    for _ in 0..6 {
        many.or("p");
    }
    assert_eq!(many.to_string(), "W p OR p OR p OR p OR p OR p");
}

#[test]
fn mixed_joiners_use_the_keyword_of_the_current_call() {
    let mut query = Query::new("S");
    query.comma("a").and("b").or("c").comma("d");
    assert_eq!(query.to_string(), "S a AND b OR c,d");
}

#[test]
fn push_ends_a_list() {
    let mut query = Query::new("S");
    query.comma("a").comma("b").push("F").comma("c").comma("d");
    assert_eq!(query.to_string(), "S a,b F c,d");
}

#[test]
fn group_in_a_list_is_parenthesised() {
    let mut query = Query::new("W");
    query.and("a");
    query.and(Group::new().or("x").or("y"));
    query.and("b");
    assert_eq!(query.to_string(), "W a AND ( x OR y) AND b");
}

#[test]
fn group_outside_a_list_is_bare() {
    let mut empty = Query::empty();
    empty.and(Group::new().or("x").or("y"));
    assert_eq!(empty.to_string(), "x OR y");
    assert!(empty.is_separated());

    let mut after_push = Query::new("W");
    after_push.and(Group::new().or("x").or("y"));
    assert_eq!(after_push.to_string(), "W  x OR y");

    let mut pushed = Query::new("W");
    pushed.push(Group::new().or("x").or("y"));
    assert_eq!(pushed.to_string(), "W  x OR y");
    assert!(pushed.is_separated());
}

#[test]
fn empty_group_in_a_list_is_an_empty_pair_of_parentheses() {
    let mut query = Query::new("W");
    query.and("a").and(Group::new());
    assert_eq!(query.to_string(), "W a AND ()");
}

#[test]
fn groups_nest() {
    let mut query = Query::new("W");
    query.and("a");
    query.and(
        Group::new()
            .or(("b = ?", 1))
            .or(Group::new().and(("c = ?", 2)).and(("d = ?", 3))),
    );
    assert_eq!(
        query.to_string(),
        "W a AND ( b = $1 OR ( c = $2 AND d = $3))"
    );
    assert_eq!(
        query.into_args(),
        vec![Value::Int(1), Value::Int(2), Value::Int(3)]
    );
}

#[test]
fn group_with_push_and_comma_calls() {
    let mut query = Query::new("INSERT INTO t");
    query.and(Group::new().comma("a").comma("b"));
    query.push("VALUES");
    query.comma(Group::new().push(("?", 1)).comma(("?", 2)).comma(("?", 3)));
    assert_eq!(query.to_string(), "INSERT INTO t  a,b VALUES  $1 $2,$3");
}

#[test]
fn spliced_statement_is_numbered_on_from_the_target() {
    let mut b = Query::empty();
    b.or(("x = ?", 10));
    b.or(("y = ?", 20));
    let mut a = Query::new("SELECT * FROM t WHERE");
    a.and(("p = ?", 1));
    a.and(("q = ?", 2));
    a.and(b);
    assert_eq!(
        a.to_string(),
        "SELECT * FROM t WHERE p = $1 AND q = $2 AND (x = $3 OR y = $4)"
    );
    assert_eq!(
        a.into_args(),
        vec![Value::Int(1), Value::Int(2), Value::Int(10), Value::Int(20)]
    );
}

#[test]
fn placeholders_after_a_splice_fall_behind_it() {
    let mut inner = Query::empty();
    inner.and(("a = ?", 1));
    inner.and(("b = ?", 2));
    let mut outer = Query::new("SELECT");
    outer.push(inner);
    outer.push(("LIMIT ?", 3));
    outer.push(("OFFSET ?", 4));
    assert_eq!(outer.to_string(), "SELECT a = $1 AND b = $2 LIMIT $3 OFFSET $4");
    assert_eq!(
        outer.into_args(),
        vec![Value::Int(1), Value::Int(2), Value::Int(3), Value::Int(4)]
    );
}

#[test]
fn splice_of_a_splice() {
    let innermost = Query::new(("c = ?", 3));
    let mut inner = Query::empty();
    inner.or(("b = ?", 2));
    inner.or(innermost);
    let mut outer = Query::empty();
    outer.and(("a = ?", 1));
    outer.and(inner);
    outer.and(("d = ?", 4));
    assert_eq!(outer.to_string(), "a = $1 AND (b = $2 OR (c = $3)) AND d = $4");
    assert_eq!(
        outer.into_args(),
        vec![Value::Int(1), Value::Int(2), Value::Int(3), Value::Int(4)]
    );
}

#[test]
fn spliced_statement_outside_a_list_is_bare() {
    let fields = Query::new("a, b");
    let mut query = Query::new("SELECT");
    query.push(fields);
    assert_eq!(query.to_string(), "SELECT a, b");
    let mut from_empty = Query::empty();
    from_empty.and(Query::new(("x = ?", 1)));
    assert_eq!(from_empty.to_string(), "x = $1");
}

#[test]
fn first_joining_call_after_new_writes_a_space() {
    let mut query = Query::new(("x = ?", 10));
    query.or(("y = ?", 20));
    assert_eq!(query.to_string(), "x = $1 y = $2");
    query.or(("z = ?", 30));
    assert_eq!(query.to_string(), "x = $1 y = $2 OR z = $3");
}

#[test]
fn new_from_a_statement_and_from_a_group() {
    let inner = Query::new(("x = ?", 1));
    let copy = Query::new(inner);
    assert_eq!(copy.to_string(), "x = $1");
    let grouped = Query::new(Group::new().and("a").and("b"));
    assert_eq!(grouped.to_string(), "a AND b");
}

#[test]
fn text_other_than_ascii_is_kept() {
    let mut query = Query::new("SELECT 'h\u{e9}llo \u{4e16}\u{754c}'");
    query.and(("n\u{e4}me = ?", String::from("z\u{fc}rich")));
    assert_eq!(
        query.to_string(),
        "SELECT 'h\u{e9}llo \u{4e16}\u{754c}' n\u{e4}me = $1"
    );
}

#[test]
fn counting_placeholders() {
    assert_eq!(count_placeholders(""), 0);
    assert_eq!(count_placeholders("SELECT 1"), 0);
    assert_eq!(count_placeholders("a = ?"), 1);
    assert_eq!(count_placeholders("? ?? ?"), 4);
}

#[test]
fn default_statement_is_empty() {
    let query = Query::default();
    assert!(query.is_well_formed());
    assert_eq!(query.to_string(), "");
}

#[test]
fn statements_built_by_the_rules_are_well_formed() {
    let mut inner = Query::empty();
    inner.or(("a = ?", 1)).or(("b IN (?, ?)", 2, 3));
    assert!(inner.is_well_formed());
    let mut query = Query::new("SELECT * FROM t WHERE");
    query.and(("c = ?", 4)).and(inner).and(Group::new().or("d").or(("e = ?", 5)));
    assert!(query.is_well_formed());
    assert_eq!(
        query.to_string(),
        "SELECT * FROM t WHERE c = $1 AND (a = $2 OR b IN ($3, $4)) AND ( d OR e = $5)"
    );
}

#[test]
fn statement_with_a_value_too_few_is_not_well_formed() {
    let mut query = Query::new("SELECT");
    query.push("a = ?");
    assert!(!query.is_well_formed());
}
