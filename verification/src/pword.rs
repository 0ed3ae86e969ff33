//! The credential hasher: a deterministic, salted, two-stage digest over
//! stored secrets, plus the UUID helpers principals are keyed with.
//!
//! The two-stage structure (a fast digest, re-fed with the secret and salt
//! into a stronger one) is kept for compatibility; it is not a dedicated
//! password KDF and has no iteration count.

use vstd::prelude::*;
use vstd::string::StringExecFns;

use sha2::Digest;

use crate::chars::hex_value;
use crate::chars::is_hex_char;
use crate::chars::is_lower_hex_char;
use crate::chars::str_to_chars;
use crate::validator::is_uuid_chars;

verus! {

/// The lowercase hex rendering of the MD5 digest of a string's bytes.
pub uninterp spec fn md5_hex_of(s: Seq<char>) -> Seq<char>;

/// The lowercase hex rendering of the SHA-512 digest of a string's bytes.
pub uninterp spec fn sha512_hex_of(s: Seq<char>) -> Seq<char>;

/// Relies on `md5::compute` and `md5::Digest`'s `Debug` impl, which renders
/// the 16 digest bytes as 32 lowercase hex characters; the digest depends
/// on the input characters alone.
#[verifier::external_body]
fn md5_hex(s: &str) -> (r: String)
    ensures
        r@ == md5_hex_of(s@),
        r@.len() == 32,
        forall|i: int| 0 <= i < r@.len() ==> is_lower_hex_char(r@[i]),
{
    format!("{:?}", md5::compute(s.as_bytes()))
}

/// Relies on `sha2::Sha512` and the `LowerHex` impl of its output array,
/// which renders the 64 digest bytes as 128 lowercase hex characters; the
/// digest depends on the input characters alone.
#[verifier::external_body]
fn sha512_hex(s: &str) -> (r: String)
    ensures
        r@ == sha512_hex_of(s@),
        r@.len() == 128,
        forall|i: int| 0 <= i < r@.len() ==> is_lower_hex_char(r@[i]),
{
    let d = sha2::Sha512::new().chain_update(s.as_bytes()).finalize();
    format!("{:x}", d)
}

/// Relies on `uuid::Uuid::new_v4` and its `Display` impl: a fresh random
/// UUID in the canonical hyphenated form, with the RFC 4122 version-4
/// digit and variant bits set.
#[verifier::external_body]
pub(crate) fn new_uuid_string() -> (r: String)
    ensures
        is_uuid_chars(r@),
        r@[14] == '4',
        r@[19] == '8' || r@[19] == '9' || r@[19] == 'a' || r@[19] == 'b',
{
    uuid::Uuid::new_v4().to_string()
}

/// A fresh salt: generated once per principal, never changed. The value
/// is a random version-4 UUID in its canonical form.
pub fn salt() -> (r: String)
    ensures
        is_uuid_chars(r@),
        r@[14] == '4',
        r@[19] == '8' || r@[19] == '9' || r@[19] == 'a' || r@[19] == 'b',
{
    new_uuid_string()
}

/// The hash the hasher derives from a secret and a salt.
pub open spec fn spec_password_hash(p: Seq<char>, salt: Seq<char>) -> Seq<char> {
    sha512_hex_of(md5_hex_of(p + salt) + p + salt)
}

pub open spec fn spec_verify_password(p: Seq<char>, salt: Seq<char>, hash: Seq<char>) -> bool {
    spec_password_hash(p, salt) == hash
}

/// Derives the stored hash: digest of secret-plus-salt, re-fed with the
/// secret and salt into the second digest, rendered as 128 lowercase hex
/// characters.
pub fn encrypt_password(password: &str, salt: &str) -> (r: String)
    ensures
        r@ == spec_password_hash(password@, salt@),
        r@.len() == 128,
        forall|i: int| 0 <= i < r@.len() ==> is_lower_hex_char(r@[i]),
{
    let stage1 = password.to_owned().concat(salt);
    let digest1 = md5_hex(stage1.as_str());
    let stage2 = digest1.concat(password).concat(salt);
    sha512_hex(stage2.as_str())
}

/// Recomputes and compares; never decodes.
pub fn validate_password(password: &str, salt: &str, hash: &str) -> (r: bool)
    ensures
        r == spec_verify_password(password@, salt@, hash@),
{
    let encrypted = encrypt_password(password, salt);
    encrypted == hash.to_owned()
}

/// Law: a hash derived from a secret and salt verifies against that same
/// secret and salt.
pub proof fn lemma_password_roundtrip(p: Seq<char>, salt: Seq<char>)
    ensures
        spec_verify_password(p, salt, spec_password_hash(p, salt)),
{
}

/// Where the hexadecimal digits sit inside the hyphenated UUID form.
pub open spec fn uuid_hex_index(k: int) -> int {
    if k < 8 {
        k
    } else if k < 12 {
        k + 1
    } else if k < 16 {
        k + 2
    } else if k < 20 {
        k + 3
    } else {
        k + 4
    }
}

/// The sixteen bytes a canonical UUID string denotes.
pub open spec fn spec_uuid_bytes(s: Seq<char>) -> Seq<u8> {
    Seq::new(
        16,
        |i: int|
            (hex_value(s[uuid_hex_index(2 * i)]) * 16 + hex_value(
                s[uuid_hex_index(2 * i + 1)],
            )) as u8,
    )
}

fn uuid_hex_index_ex(k: usize) -> (r: usize)
    requires
        k < 32,
    ensures
        r == uuid_hex_index(k as int),
        r < 36,
{
    if k < 8 {
        k
    } else if k < 12 {
        k + 1
    } else if k < 16 {
        k + 2
    } else if k < 20 {
        k + 3
    } else {
        k + 4
    }
}

fn hex_value_ex(c: char) -> (r: u32)
    requires
        is_hex_char(c),
    ensures
        r == hex_value(c),
        r <= 15,
{
    let v = c as u32;
    if '0' <= c && c <= '9' {
        v - '0' as u32
    } else if 'a' <= c && c <= 'f' {
        v - 'a' as u32 + 10
    } else {
        v - 'A' as u32 + 10
    }
}

/// Decodes a canonical UUID string to its sixteen bytes. Callers must have
/// validated the string first: anything else is outside this function's
/// domain, as the service treats such input as a programming error.
pub fn parse_uuid(id: &str) -> (r: Vec<u8>)
    requires
        is_uuid_chars(id@),
    ensures
        r@ == spec_uuid_bytes(id@),
        r@.len() == 16,
{
    let cs = str_to_chars(id);
    let mut out: Vec<u8> = Vec::new();
    let mut k: usize = 0;
    while k < 16
        invariant
            cs@ == id@,
            is_uuid_chars(id@),
            k <= 16,
            out@.len() == k,
            forall|j: int| 0 <= j < k ==> out@[j] == spec_uuid_bytes(id@)[j],
        decreases 16 - k,
    {
        let i1 = uuid_hex_index_ex(2 * k);
        let i2 = uuid_hex_index_ex(2 * k + 1);
        let b = hex_value_ex(cs[i1]) * 16 + hex_value_ex(cs[i2]);
        out.push(b as u8);
        k = k + 1;
    }
    proof {
        assert(out@ =~= spec_uuid_bytes(id@));
    }
    out
}

} // verus!
