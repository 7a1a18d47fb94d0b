//! How a migration's file is named: the version in decimal digits, an
//! underscore, a name of lower-case letters and underscores, and `.sql`.

use vstd::prelude::*;
use std::num::ParseIntError;
use crate::text::{chars_of, string_of_range};
use super::error::MigrationError;

verus! {

/// A decimal digit.
pub open spec fn is_digit(c: char) -> bool {
    '0' <= c && c <= '9'
}

/// A character of a migration's name: a lower-case letter or an underscore.
pub open spec fn is_name_char(c: char) -> bool {
    ('a' <= c && c <= 'z') || c == '_'
}

/// A non-empty run of decimal digits.
pub open spec fn is_version_text(s: Seq<char>) -> bool {
    &&& s.len() > 0
    &&& forall|i: int| 0 <= i < s.len() ==> is_digit(#[trigger] s[i])
}

/// A non-empty run of lower-case letters and underscores.
pub open spec fn is_name_text(s: Seq<char>) -> bool {
    &&& s.len() > 0
    &&& forall|i: int| 0 <= i < s.len() ==> is_name_char(#[trigger] s[i])
}

/// The extension of a migration's file.
pub open spec fn extension() -> Seq<char> {
    seq!['.', 's', 'q', 'l']
}

/// Whether `file_name` is the name of the migration file with the given
/// version digits and name.
pub open spec fn names(file_name: Seq<char>, version: Seq<char>, name: Seq<char>) -> bool {
    &&& is_version_text(version)
    &&& is_name_text(name)
    &&& file_name == version + seq!['_'] + name + extension()
}

/// The number that a digit stands for.
pub open spec fn digit_value(c: char) -> nat
    recommends
        is_digit(c),
{
    (c as int - '0' as int) as nat
}

/// The number that a run of decimal digits stands for.
pub open spec fn decimal_value(digits: Seq<char>) -> nat
    decreases digits.len(),
{
    if digits.len() == 0 {
        0
    } else {
        decimal_value(digits.drop_last()) * 10 + digit_value(digits.last())
    }
}

/// Where the parts of a file name lie, if it names a migration.
proof fn lemma_names_layout(file_name: Seq<char>, version: Seq<char>, name: Seq<char>)
    requires
        names(file_name, version, name),
    ensures
        file_name.len() == version.len() + 1 + name.len() + 4,
        forall|k: int| 0 <= k < version.len() ==> file_name[k] == version[k],
        file_name[version.len() as int] == '_',
        forall|k: int| 0 <= k < name.len() ==> file_name[version.len() + 1 + k] == name[k],
        file_name[(version.len() + 1 + name.len() + 0) as int] == '.',
        file_name[(version.len() + 1 + name.len() + 1) as int] == 's',
        file_name[(version.len() + 1 + name.len() + 2) as int] == 'q',
        file_name[(version.len() + 1 + name.len() + 3) as int] == 'l',
{
}

/// A file name names a migration in one way at most.
pub proof fn lemma_names_unique(
    file_name: Seq<char>,
    version: Seq<char>,
    name: Seq<char>,
    version2: Seq<char>,
    name2: Seq<char>,
)
    requires
        names(file_name, version, name),
        names(file_name, version2, name2),
    ensures
        version == version2,
        name == name2,
{
    lemma_names_layout(file_name, version, name);
    lemma_names_layout(file_name, version2, name2);
    if version.len() < version2.len() {
        assert(is_digit(version2[version.len() as int]));
    }
    if version2.len() < version.len() {
        assert(is_digit(version[version2.len() as int]));
    }
    assert(version =~= version2);
    assert(name =~= name2);
}

/// Whether the character is a decimal digit.
pub fn check_digit(c: char) -> (yes: bool)
    ensures
        yes == is_digit(c),
{
    '0' <= c && c <= '9'
}

/// Whether the character may stand in a migration's name.
pub fn check_name_char(c: char) -> (yes: bool)
    ensures
        yes == is_name_char(c),
{
    ('a' <= c && c <= 'z') || c == '_'
}

/// Takes a migration's file name apart: the version digits and the name,
/// or nothing if the file name is not of the form
/// `<digits>_<lower-case letters and underscores>.sql`.
pub fn split_file_name(file_name: &str) -> (parts: Option<(String, String)>)
    ensures
        match parts {
            Some((version, name)) => names(file_name@, version@, name@),
            None => forall|version: Seq<char>, name: Seq<char>|
                !names(file_name@, version, name),
        },
{
    let chars = chars_of(file_name);
    let n = chars.len();
    let mut i: usize = 0;
    while i < n && check_digit(chars[i])
        invariant
            i <= n == chars.len(),
            forall|k: int| 0 <= k < i ==> is_digit(chars[k]),
        decreases n - i,
    {
        i = i + 1;
    }
    // The digits end at `i`: whatever names this file has its version there.
    assert forall|version: Seq<char>, name: Seq<char>|
        names(chars@, version, name) implies version.len() == i by {
        lemma_names_layout(chars@, version, name);
        if version.len() < i {
            assert(is_digit(chars[version.len() as int]));
        }
        if i < version.len() {
            assert(is_digit(version[i as int]));
        }
    }
    if i == 0 || i >= n || chars[i] != '_' {
        proof {
            assert forall|version: Seq<char>, name: Seq<char>|
                !names(chars@, version, name) by {
                if names(chars@, version, name) {
                    lemma_names_layout(chars@, version, name);
                }
            }
        }
        return None;
    }
    let start = i + 1;
    let mut j: usize = start;
    while j < n && check_name_char(chars[j])
        invariant
            start <= j <= n == chars.len(),
            forall|k: int| start <= k < j ==> is_name_char(chars[k]),
        decreases n - j,
    {
        j = j + 1;
    }
    // The name ends at `j`.
    assert forall|version: Seq<char>, name: Seq<char>|
        names(chars@, version, name) implies start + name.len() == j by {
        lemma_names_layout(chars@, version, name);
        if start + name.len() < j {
            assert(is_name_char(chars[start + name.len()]));
        }
        if j < start + name.len() {
            assert(is_name_char(name[j - start]));
        }
    }
    if j == start || n - j != 4 || chars[j] != '.' || chars[j + 1] != 's' || chars[j + 2] != 'q'
        || chars[j + 3] != 'l' {
        proof {
            assert forall|version: Seq<char>, name: Seq<char>|
                !names(chars@, version, name) by {
                if names(chars@, version, name) {
                    lemma_names_layout(chars@, version, name);
                }
            }
        }
        return None;
    }
    let version = string_of_range(&chars, 0, i);
    let name = string_of_range(&chars, start, j);
    proof {
        assert(chars@ =~= version@ + seq!['_'] + name@ + extension());
    }
    Some((version, name))
}

/// Parses a run of decimal digits with the standard library's
/// `str::parse::<i64>`. Of its result the library takes on trust what the
/// standard library documents for digits without a sign: the number that
/// the digits stand for if it fits an `i64`, and an error if it does not.
#[verifier::external_body]
pub(crate) fn parse_version(digits: &str) -> (parsed: Result<i64, ParseIntError>)
    requires
        is_version_text(digits@),
    ensures
        parsed is Ok <==> decimal_value(digits@) <= i64::MAX,
        parsed matches Ok(version) ==> version == decimal_value(digits@),
{
    digits.parse::<i64>()
}

/// Reads the version and the name off a migration's file name.
///
/// Fails with `FilenameError` exactly if the file name is not of the form
/// `<digits>_<lower-case letters and underscores>.sql`, and with
/// `ParseIntError` exactly if it is and the version does not fit an `i64`.
pub fn parse_file_name(file_name: &str) -> (parsed: Result<(i64, String), MigrationError>)
    ensures
        match parsed {
            Ok((version, name)) => exists|digits: Seq<char>|
                names(file_name@, digits, name@) && version == decimal_value(digits),
            Err(MigrationError::FilenameError) => forall|digits: Seq<char>, name: Seq<char>|
                !names(file_name@, digits, name),
            Err(MigrationError::ParseIntError(_)) => exists|digits: Seq<char>, name: Seq<char>|
                names(file_name@, digits, name) && decimal_value(digits) > i64::MAX,
            Err(_) => false,
        },
{
    match split_file_name(file_name) {
        None => Err(MigrationError::FilenameError),
        Some((digits, name)) => match parse_version(digits.as_str()) {
            Ok(version) => Ok((version, name)),
            Err(error) => Err(MigrationError::ParseIntError(error)),
        },
    }
}

} // verus!
