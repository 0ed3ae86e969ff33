//! The token service: issues and verifies signed, time-bounded identity
//! tokens. The compact form is `header.payload.signature`: two base64url
//! parts over this crate's claims JSON, and an HMAC-SHA512 tag over the
//! first two parts. Expiry is enforced at verification time.

use vstd::prelude::*;
use vstd::string::StringExecFns;

use rand::Rng;

use crate::chars::chars_to_string;
use crate::chars::is_alphanumeric_char;
use crate::chars::str_to_chars;
use crate::chars::vec_range;
use crate::claims::Claims;
use crate::claims::ClaimsView;
use crate::claims::lemma_claims_roundtrip;
use crate::claims::parse_claims_chars;
use crate::claims::spec_parse_claims;
use crate::claims::write_claims;
use crate::error::Error;
use crate::error::auth_failure;
use crate::error::is_auth_failure;
use crate::pword::new_uuid_string;
use crate::validator::is_uuid_chars;

verus! {

/// An encoded, signed token.
#[derive(Debug)]
pub struct Token {
    pub token: String,
}

// ---------------------------------------------------------------------------
// Trusted bridge to the base64 and HMAC implementations.
// ---------------------------------------------------------------------------

/// What base64url (URL-safe alphabet, unpadded) makes of a string's bytes.
pub uninterp spec fn b64url_of(s: Seq<char>) -> Seq<char>;

/// What base64url decoding (followed by UTF-8 reading) makes of a string:
/// the decoded text, or nothing when the input is not canonical base64url
/// of well-formed text.
pub uninterp spec fn b64url_decode_of(s: Seq<char>) -> Option<Seq<char>>;

/// The base64url-rendered HMAC-SHA512 tag of a message under a key.
pub uninterp spec fn hs512_b64_of(message: Seq<char>, key: Seq<char>) -> Seq<char>;

/// Relies on base64's `URL_SAFE_NO_PAD` engine: encoding depends on the
/// input alone, decoding inverts it, and the URL-safe alphabet never
/// contains a dot.
#[verifier::external_body]
fn b64url_encode(s: &str) -> (r: String)
    ensures
        r@ == b64url_of(s@),
        b64url_decode_of(r@) == Some(s@),
        forall|i: int| 0 <= i < r@.len() ==> r@[i] != '.',
{
    base64::Engine::encode(&base64::engine::general_purpose::URL_SAFE_NO_PAD, s.as_bytes())
}

/// Relies on base64's `URL_SAFE_NO_PAD` decode and `String::from_utf8`:
/// a function of the input alone.
#[verifier::external_body]
fn b64url_decode(s: &str) -> (r: Option<String>)
    ensures
        (match r {
            Some(t) => b64url_decode_of(s@) == Some(t@),
            None => b64url_decode_of(s@) is None,
        }),
{
    match base64::Engine::decode(&base64::engine::general_purpose::URL_SAFE_NO_PAD, s.as_bytes()) {
        Ok(bytes) => String::from_utf8(bytes).ok(),
        Err(_) => None,
    }
}

/// Relies on `jsonwebtoken::crypto::sign` with HS512: the tag is a
/// function of message and key alone, base64url-rendered (so dot-free),
/// and signing never fails for HMAC algorithms.
#[verifier::external_body]
fn hs512_sign(message: &str, key: &str) -> (r: String)
    ensures
        r@ == hs512_b64_of(message@, key@),
        forall|i: int| 0 <= i < r@.len() ==> r@[i] != '.',
{
    jsonwebtoken::crypto::sign(
        message.as_bytes(),
        &jsonwebtoken::EncodingKey::from_secret(key.as_bytes()),
        jsonwebtoken::Algorithm::HS512,
    ).unwrap()
}

/// Relies on `jsonwebtoken::crypto::verify` with HS512, which re-signs the
/// message under the key and compares with the offered tag.
#[verifier::external_body]
fn hs512_verify(signature: &str, message: &str, key: &str) -> (r: bool)
    ensures
        r == (signature@ == hs512_b64_of(message@, key@)),
{
    jsonwebtoken::crypto::verify(
        signature,
        message.as_bytes(),
        &jsonwebtoken::DecodingKey::from_secret(key.as_bytes()),
        jsonwebtoken::Algorithm::HS512,
    ).unwrap_or(false)
}

/// Relies on rand's `Alphanumeric` distribution: every sampled character
/// is an ASCII letter or digit.
#[verifier::external_body]
fn gen_string(size: usize) -> (r: String)
    ensures
        r@.len() == size,
        forall|i: int| 0 <= i < r@.len() ==> is_alphanumeric_char(r@[i]),
{
    rand::rng().sample_iter(&rand::distr::Alphanumeric).take(size).map(char::from).collect()
}

// ---------------------------------------------------------------------------
// The token's shape.
// ---------------------------------------------------------------------------

/// The JSON form of the one header this service signs and accepts.
pub open spec fn spec_header_json() -> Seq<char> {
    seq![
        '{',
        '"',
        'a',
        'l',
        'g',
        '"',
        ':',
        '"',
        'H',
        'S',
        '5',
        '1',
        '2',
        '"',
        ',',
        '"',
        't',
        'y',
        'p',
        '"',
        ':',
        '"',
        'J',
        'W',
        'T',
        '"',
        '}',
    ]
}

fn header_json() -> (r: String)
    ensures
        r@ == spec_header_json(),
{
    let s = "{\"alg\":\"HS512\",\"typ\":\"JWT\"}";
    proof {
        reveal_strlit("{\"alg\":\"HS512\",\"typ\":\"JWT\"}");
        assert(s@ =~= spec_header_json());
    }
    s.to_owned()
}

/// `i` and `j` are the positions of the only two dots of `t`.
pub open spec fn valid_split(t: Seq<char>, i: int, j: int) -> bool {
    &&& 0 <= i < j < t.len()
    &&& t[i] == '.'
    &&& t[j] == '.'
    &&& (forall|k: int| 0 <= k < t.len() && t[k] == '.' ==> k == i || k == j)
}

/// The three dot-separated parts of a token, when it has exactly two dots.
pub open spec fn spec_split3(t: Seq<char>) -> Option<(Seq<char>, Seq<char>, Seq<char>)> {
    if exists|i: int, j: int| valid_split(t, i, j) {
        let (i, j) = choose|i: int, j: int| valid_split(t, i, j);
        Some((t.subrange(0, i), t.subrange(i + 1, j), t.subrange(j + 1, t.len() as int)))
    } else {
        None
    }
}

proof fn lemma_split3_unique(t: Seq<char>, i: int, j: int)
    requires
        valid_split(t, i, j),
    ensures
        spec_split3(t) == Some(
            (t.subrange(0, i), t.subrange(i + 1, j), t.subrange(j + 1, t.len() as int)),
        ),
{
    let (i2, j2) = choose|i2: int, j2: int| valid_split(t, i2, j2);
    assert(valid_split(t, i2, j2));
    assert(i2 == i || i2 == j);
    assert(j2 == i || j2 == j);
    assert(i == i2 || i == j2);
    assert(j == i2 || j == j2);
    assert(i2 == i && j2 == j);
}

/// What verification accepts: the token splits at its two dots, the first
/// part decodes to the fixed header, the second to a parsable claims
/// object, and the third equals the tag of the first two parts.
pub open spec fn spec_verify_token(t: Seq<char>, key: Seq<char>) -> Option<ClaimsView> {
    match spec_split3(t) {
        None => None,
        Some(parts) => {
            let (h, p, sig) = parts;
            if b64url_decode_of(h) == Some(spec_header_json()) {
                match b64url_decode_of(p) {
                    Some(pj) => match spec_parse_claims(pj) {
                        Some(c) => if sig == hs512_b64_of(h + seq!['.'] + p, key) {
                            Some(c)
                        } else {
                            None
                        },
                        None => None,
                    },
                    None => None,
                }
            } else {
                None
            }
        },
    }
}

/// Whether a token is accepted at instant `now`.
pub open spec fn spec_token_accepted(t: Seq<char>, key: Seq<char>, now: u64) -> bool {
    match spec_verify_token(t, key) {
        Some(c) => now < c.exp,
        None => false,
    }
}

/// What issuance promises about the claims it builds: the timestamps, the
/// subject, and the shape of the two random identifiers — a canonical
/// version-4 UUID token id and a 32-character alphanumeric tenant id.
pub open spec fn spec_fresh_claims(c: ClaimsView, id: Seq<char>, now: u64, ttl: u64) -> bool {
    &&& c.iat == now
    &&& c.exp == now + ttl
    &&& c.id == id
    &&& is_uuid_chars(c.jid)
    &&& c.jid[14] == '4'
    &&& (c.jid[19] == '8' || c.jid[19] == '9' || c.jid[19] == 'a' || c.jid[19] == 'b')
    &&& c._id.len() == 32
    &&& (forall|i: int| 0 <= i < c._id.len() ==> is_alphanumeric_char(c._id[i]))
}

// ---------------------------------------------------------------------------
// Issuing.
// ---------------------------------------------------------------------------

/// Serializes and signs a claim; the result verifies back to exactly it.
pub fn sign_claims(c: &Claims, key: &str) -> (t: Token)
    ensures
        spec_verify_token(t.token@, key@) == Some(c@),
{
    let jid_chars = str_to_chars(c.jid.as_str());
    let id_chars = str_to_chars(c.id.as_str());
    let sid_chars = str_to_chars(c._id.as_str());
    let payload = write_claims(c, &jid_chars, &id_chars, &sid_chars);
    let payload_str = chars_to_string(&payload);
    let hdr = header_json();
    let h64 = b64url_encode(hdr.as_str());
    let p64 = b64url_encode(payload_str.as_str());
    let ghost h = h64@;
    let ghost p = p64@;
    let mut signing_input = h64;
    signing_input.append(".");
    signing_input.append(p64.as_str());
    proof {
        reveal_strlit(".");
        assert(signing_input@ =~= h + seq!['.'] + p);
    }
    let sig = hs512_sign(signing_input.as_str(), key);
    let mut token = signing_input;
    token.append(".");
    token.append(sig.as_str());
    proof {
        reveal_strlit(".");
        let t = token@;
        let i = h.len() as int;
        let j = h.len() as int + 1 + p.len() as int;
        assert(t =~= h + seq!['.'] + p + seq!['.'] + sig@);
        assert(t[i] == '.');
        assert(t[j] == '.');
        assert forall|k: int| 0 <= k < t.len() && t[k] == '.' implies k == i || k == j by {
            if k < i {
                assert(t[k] == h[k]);
            } else if i < k < j {
                assert(t[k] == p[k - i - 1]);
            } else if j < k {
                assert(t[k] == sig@[k - j - 1]);
            }
        }
        assert(valid_split(t, i, j));
        lemma_split3_unique(t, i, j);
        assert(t.subrange(0, i) =~= h);
        assert(t.subrange(i + 1, j) =~= p);
        assert(t.subrange(j + 1, t.len() as int) =~= sig@);
        lemma_claims_roundtrip(c@);
        assert(spec_verify_token(t, key@) == Some(c@));
    }
    Token { token }
}

/// Issues a token for a principal: claims stamped `[now, now + ttl]`, a
/// fresh random token id and opaque tenant id, signed under the key.
pub fn create_jwt(user_id: String, ttl: u64, key: &str, now: u64) -> (t: Token)
    requires
        now + ttl <= u64::MAX,
    ensures
        exists|c: ClaimsView|
            #[trigger] spec_fresh_claims(c, user_id@, now, ttl) && spec_verify_token(
                t.token@,
                key@,
            ) == Some(c),
{
    let jid = new_uuid_string();
    let sid = gen_string(32);
    let claims = Claims { iat: now, exp: now + ttl, jid, id: user_id, _id: sid };
    let t = sign_claims(&claims, key);
    proof {
        assert(spec_fresh_claims(claims@, claims.id@, now, ttl));
    }
    t
}

// ---------------------------------------------------------------------------
// Verifying.
// ---------------------------------------------------------------------------

/// Decodes and checks a token: signature, structure and expiry. Every
/// failure collapses to the one generic authentication error.
pub fn parse_token(token: &str, key: &str, now: u64) -> (r: Result<Claims, Error>)
    ensures
        (match r {
            Ok(c) => spec_verify_token(token@, key@) == Some(c@) && now < c.exp,
            Err(e) => is_auth_failure(e) && (match spec_verify_token(token@, key@) {
                Some(c) => now >= c.exp,
                None => true,
            }),
        }),
{
    let cs = str_to_chars(token);
    let n = cs.len();
    let mut count: usize = 0;
    let mut d1: usize = 0;
    let mut d2: usize = 0;
    let mut d3: usize = 0;
    let mut idx: usize = 0;
    while idx < n
        invariant
            idx <= n,
            n == cs@.len(),
            cs@ == token@,
            count <= 3,
            count == 0 ==> (forall|m: int| 0 <= m < idx ==> cs@[m] != '.'),
            count == 1 ==> d1 < idx && cs@[d1 as int] == '.' && (forall|m: int|
                0 <= m < idx && m != d1 ==> cs@[m] != '.'),
            count == 2 ==> d1 < d2 < idx && cs@[d1 as int] == '.' && cs@[d2 as int] == '.' && (
            forall|m: int| 0 <= m < idx && m != d1 && m != d2 ==> cs@[m] != '.'),
            count == 3 ==> d1 < d2 < d3 < n && cs@[d1 as int] == '.' && cs@[d2 as int] == '.'
                && cs@[d3 as int] == '.',
        decreases n - idx,
    {
        if cs[idx] == '.' {
            if count == 0 {
                d1 = idx;
                count = 1;
            } else if count == 1 {
                d2 = idx;
                count = 2;
            } else if count == 2 {
                d3 = idx;
                count = 3;
            }
        }
        idx = idx + 1;
    }
    if count != 2 {
        proof {
            assert forall|i: int, j: int| !valid_split(token@, i, j) by {
                if valid_split(token@, i, j) {
                    if count == 0 {
                        assert(token@[i] != '.');
                    } else if count == 1 {
                        assert(i == d1 && j == d1);
                    } else {
                        assert(d1 == i || d1 == j);
                        assert(d2 == i || d2 == j);
                        assert(d3 == i || d3 == j);
                    }
                }
            }
        }
        return Err(auth_failure());
    }
    // Exactly two dots: the three parts are fixed.
    proof {
        assert(valid_split(token@, d1 as int, d2 as int));
        lemma_split3_unique(token@, d1 as int, d2 as int);
    }
    let h_vec = vec_range(&cs, 0, d1);
    let p_vec = vec_range(&cs, d1 + 1, d2);
    let sig_vec = vec_range(&cs, d2 + 1, n);
    let h_str = chars_to_string(&h_vec);
    let p_str = chars_to_string(&p_vec);
    let sig_str = chars_to_string(&sig_vec);
    let hdr_decoded = match b64url_decode(h_str.as_str()) {
        Some(t) => t,
        None => {
            return Err(auth_failure());
        },
    };
    let expected_header = header_json();
    if !(hdr_decoded == expected_header) {
        return Err(auth_failure());
    }
    let payload_decoded = match b64url_decode(p_str.as_str()) {
        Some(t) => t,
        None => {
            return Err(auth_failure());
        },
    };
    let payload_chars = str_to_chars(payload_decoded.as_str());
    let claims = match parse_claims_chars(&payload_chars) {
        Some(c) => c,
        None => {
            return Err(auth_failure());
        },
    };
    let signing_input_vec = vec_range(&cs, 0, d2);
    let signing_input = chars_to_string(&signing_input_vec);
    proof {
        assert(signing_input@ =~= token@.subrange(0, d1 as int) + seq!['.'] + token@.subrange(
            d1 + 1,
            d2 as int,
        ));
    }
    if !hs512_verify(sig_str.as_str(), signing_input.as_str(), key) {
        return Err(auth_failure());
    }
    if now < claims.exp {
        Ok(claims)
    } else {
        Err(auth_failure())
    }
}

/// Law: a token whose claims expire `ttl` after issue is accepted at
/// exactly the instants before `iat + ttl`.
pub proof fn lemma_token_lifetime(t: Seq<char>, key: Seq<char>, c: ClaimsView, ttl: u64, now: u64)
    requires
        spec_verify_token(t, key) == Some(c),
        c.exp == c.iat + ttl,
    ensures
        spec_token_accepted(t, key, now) <==> now < c.iat + ttl,
{
}

} // verus!
