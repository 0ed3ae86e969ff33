//! Client address extraction: behind a proxy the reported address is the
//! part of the forwarded value before any colon; otherwise the peer
//! address is taken as given.

use vstd::prelude::*;

use crate::chars::chars_to_string;
use crate::chars::str_to_chars;
use crate::chars::vec_range;

verus! {

/// What the service records about a request's origin.
#[derive(Debug)]
pub struct IpInfo {
    pub addr: String,
    pub user_agent: String,
}

/// Builds the origin record from plain header values: `realip` is the
/// proxy-reported value (used when behind a proxy, trimmed at the first
/// colon), `peer` the socket peer address (used otherwise), `user_agent`
/// the header of that name.
pub fn get_ip_info(
    behind_proxy: bool,
    realip: Option<&str>,
    peer: Option<&str>,
    user_agent: Option<&str>,
) -> (r: IpInfo)
    ensures
        behind_proxy ==> (match realip {
            Some(v) => exists|i: int|
                #![trigger v@.subrange(0, i)]
                0 <= i <= v@.len() && (forall|j: int| 0 <= j < i ==> v@[j] != ':') && (i == v@.len()
                    || v@[i] == ':') && r.addr@ == v@.subrange(0, i),
            None => r.addr@ == Seq::<char>::empty(),
        }),
        !behind_proxy ==> (match peer {
            Some(ip) => r.addr@ == ip@,
            None => r.addr@ == Seq::<char>::empty(),
        }),
        (match user_agent {
            Some(u) => r.user_agent@ == u@,
            None => r.user_agent@ == Seq::<char>::empty(),
        }),
{
    let addr: String;
    if behind_proxy {
        match realip {
            Some(v) => {
                let cs = str_to_chars(v);
                let mut i: usize = 0;
                while i < cs.len() && cs[i] != ':'
                    invariant
                        i <= cs@.len(),
                        cs@ == v@,
                        forall|j: int| 0 <= j < i ==> cs@[j] != ':',
                    decreases cs@.len() - i,
                {
                    i = i + 1;
                }
                addr = chars_to_string(&vec_range(&cs, 0, i));
                proof {
                    let gi = i as int;
                    assert((forall|j: int| 0 <= j < gi ==> v@[j] != ':') && (gi == v@.len()
                        || v@[gi] == ':') && addr@ == v@.subrange(0, gi));
                }
            },
            None => {
                addr = String::new();
            },
        }
    } else {
        match peer {
            Some(ip) => {
                addr = ip.to_owned();
            },
            None => {
                addr = String::new();
            },
        }
    }
    let user_agent_value = match user_agent {
        Some(u) => u.to_owned(),
        None => String::new(),
    };
    IpInfo { addr, user_agent: user_agent_value }
}

} // verus!
