//! The checksum by which a change to an applied migration is noticed.

use vstd::prelude::*;
use sha2::{Digest, Sha256};

verus! {

/// The SHA-256 digest of a text's UTF-8 encoding, written as 64 lower-case
/// hexadecimal digits.
pub uninterp spec fn sha256_hex(text: Seq<char>) -> Seq<char>;

/// Computes the checksum of a migration's SQL with `sha2`'s
/// `Sha256::digest`, printed in lower-case hexadecimal. The digest is not
/// modelled: the library takes on trust only that it is a function of the
/// text.
#[verifier::external_body]
pub(crate) fn checksum_of(sql: &str) -> (checksum: String)
    ensures
        checksum@ == sha256_hex(sql@),
{
    format!("{:x}", Sha256::digest(sql.as_bytes()))
}

} // verus!
