//! The authentication gate: per request, extract the `Authorization`
//! header, demand the exact `Bearer ` scheme, and hand the rest to the
//! token service. On success the caller receives the identity claim to
//! thread into its handler; on failure the handler must never run.

use vstd::prelude::*;
use vstd::string::StrSliceExecFns;

use crate::chars::chars_to_string;
use crate::chars::str_to_chars;
use crate::chars::vec_suffix;
use crate::claims::Claims;
use crate::error::Error;
use crate::error::auth_failure;
use crate::error::is_auth_failure;
use crate::jwt::parse_token;
use crate::jwt::spec_verify_token;

verus! {

pub open spec fn bearer_prefix() -> Seq<char> {
    seq!['B', 'e', 'a', 'r', 'e', 'r', ' ']
}

/// The token inside an `Authorization` header: present exactly when the
/// header is longer than six characters and starts with `Bearer `.
pub open spec fn spec_bearer_token(h: Seq<char>) -> Option<Seq<char>> {
    if h.len() <= 6 {
        None
    } else if h.subrange(0, 7) == bearer_prefix() {
        Some(h.subrange(7, h.len() as int))
    } else {
        None
    }
}

/// Law: a header of at most six characters never authenticates.
pub proof fn lemma_gate_rejects_short(h: Seq<char>)
    requires
        h.len() <= 6,
    ensures
        spec_bearer_token(h) is None,
{
}

/// Law: a header that does not begin with exactly `Bearer ` never
/// authenticates, whatever follows.
pub proof fn lemma_gate_rejects_wrong_scheme(h: Seq<char>)
    requires
        h.len() > 6,
        h.subrange(0, 7) != bearer_prefix(),
    ensures
        spec_bearer_token(h) is None,
{
}

/// Per request: `Unauthenticated -> {Authenticated, Rejected}`. An
/// absent header, a short or wrong scheme, or a token the service refuses
/// all collapse to the same generic authentication failure.
pub fn verify_jwt(auth_header: Option<&str>, key: &str, now: u64) -> (r: Result<Claims, Error>)
    ensures
        (match auth_header {
            None => r matches Err(e) && is_auth_failure(e),
            Some(h) => (match spec_bearer_token(h@) {
                None => r matches Err(e) && is_auth_failure(e),
                Some(tok) => (match r {
                    Ok(c) => spec_verify_token(tok, key@) == Some(c@) && now < c.exp,
                    Err(e) => is_auth_failure(e) && (match spec_verify_token(tok, key@) {
                        Some(c) => now >= c.exp,
                        None => true,
                    }),
                }),
            }),
        }),
{
    let h = match auth_header {
        None => {
            return Err(auth_failure());
        },
        Some(h) => h,
    };
    let cs = str_to_chars(h);
    if cs.len() <= 6 {
        return Err(auth_failure());
    }
    let scheme_ok = cs[0] == 'B' && cs[1] == 'e' && cs[2] == 'a' && cs[3] == 'r' && cs[4] == 'e'
        && cs[5] == 'r' && cs[6] == ' ';
    if !scheme_ok {
        proof {
            if h@.subrange(0, 7) == bearer_prefix() {
                assert(h@[0] == bearer_prefix()[0]);
                assert(h@[1] == bearer_prefix()[1]);
                assert(h@[2] == bearer_prefix()[2]);
                assert(h@[3] == bearer_prefix()[3]);
                assert(h@[4] == bearer_prefix()[4]);
                assert(h@[5] == bearer_prefix()[5]);
                assert(h@[6] == bearer_prefix()[6]);
            }
        }
        return Err(auth_failure());
    }
    proof {
        assert(h@.subrange(0, 7) =~= bearer_prefix());
    }
    let token = chars_to_string(&vec_suffix(&cs, 7));
    parse_token(token.as_str(), key, now)
}

} // verus!
