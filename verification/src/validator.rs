//! The validation layer: pure checks on raw request fields. Each validator
//! returns the typed value or a validation failure naming the field.

use vstd::prelude::*;
use vstd::string::StrSliceExecFns;
use vstd::string::StringExecFns;

use crate::chars::is_alphanumeric_char;
use crate::chars::is_digit_char;
use crate::chars::is_hex_char;
use crate::chars::is_space_char;
use crate::chars::digit_char;
use crate::chars::hex_char;
use crate::chars::space_char;
use crate::chars::str_to_chars;
use crate::dates::Date;
use crate::dates::date_wf;
use crate::dates::days_in_month;
use crate::dates::spec_days_in_month;
use crate::error::Error;
use crate::error::is_validation_failure;
use crate::error::new_error;

verus! {

// ---------------------------------------------------------------------------
// Specifications of the accepted shapes.
// ---------------------------------------------------------------------------

/// A string whose trimmed character count is positive: at least one
/// non-whitespace character.
pub open spec fn is_nonblank(s: Seq<char>) -> bool {
    exists|i: int| 0 <= i < s.len() && !is_space_char(s[i])
}

/// Exactly ten ASCII digits: no country code, no separators.
pub open spec fn is_valid_phone(s: Seq<char>) -> bool {
    s.len() == 10 && (forall|i: int| 0 <= i < 10 ==> is_digit_char(s[i]))
}

pub open spec fn is_local_char(c: char) -> bool {
    is_alphanumeric_char(c) || c == '_' || c == '.' || c == '+' || c == '-'
}

pub open spec fn is_domain_char(c: char) -> bool {
    is_alphanumeric_char(c) || c == '-'
}

pub open spec fn is_tail_char(c: char) -> bool {
    is_domain_char(c) || c == '.'
}

/// `s` splits as `local @ domain . tail` around positions `at` and `dot`:
/// a non-empty local part, a non-empty dot-free domain label, and a
/// non-empty tail that may contain further dots.
pub open spec fn email_split_at(s: Seq<char>, at: int, dot: int) -> bool {
    &&& 0 < at
    &&& at + 1 < dot
    &&& dot + 1 < s.len()
    &&& s[at] == '@'
    &&& s[dot] == '.'
    &&& (forall|i: int| 0 <= i < at ==> is_local_char(s[i]))
    &&& (forall|i: int| at < i < dot ==> is_domain_char(s[i]))
    &&& (forall|i: int| dot < i < s.len() ==> is_tail_char(s[i]))
}

pub open spec fn is_valid_email(s: Seq<char>) -> bool {
    exists|at: int, dot: int| email_split_at(s, at, dot)
}

/// Canonical 8-4-4-4-12 hexadecimal grouping, either case.
pub open spec fn is_uuid_chars(s: Seq<char>) -> bool {
    &&& s.len() == 36
    &&& (forall|i: int|
        0 <= i < 36 ==> (if i == 8 || i == 13 || i == 18 || i == 23 {
            s[i] == '-'
        } else {
            is_hex_char(s[i])
        }))
}

/// The shape `YYYY-MM-DD`.
pub open spec fn is_date_shape(s: Seq<char>) -> bool {
    &&& s.len() == 10
    &&& s[4] == '-'
    &&& s[7] == '-'
    &&& (forall|i: int|
        0 <= i < 10 && i != 4 && i != 7 ==> is_digit_char(s[i]))
}

pub open spec fn char_digit(c: char) -> int
    recommends
        is_digit_char(c),
{
    c as int - '0' as int
}

/// The date the digits of a `YYYY-MM-DD` string denote.
pub open spec fn spec_date_of(s: Seq<char>) -> Date
    recommends
        is_date_shape(s),
{
    Date {
        year: (char_digit(s[0]) * 1000 + char_digit(s[1]) * 100 + char_digit(s[2]) * 10
            + char_digit(s[3])) as u32,
        month: (char_digit(s[5]) * 10 + char_digit(s[6])) as u32,
        day: (char_digit(s[8]) * 10 + char_digit(s[9])) as u32,
    }
}

/// A `YYYY-MM-DD` string denoting a real calendar date.
pub open spec fn is_valid_date_string(s: Seq<char>) -> bool {
    is_date_shape(s) && date_wf(spec_date_of(s))
}

// ---------------------------------------------------------------------------
// The validators.
// ---------------------------------------------------------------------------

/// Rejects an absent optional field.
pub fn not_none<T>(v: Option<T>, name: &str) -> (r: Result<(), Error>)
    ensures
        (match r {
            Ok(_) => v is Some,
            Err(e) => v is None && is_validation_failure(e) && e.message@ == name@
                + " cannot be empty"@,
        }),
{
    match v {
        Some(_) => Ok(()),
        None => {
            let msg = name.to_owned().concat(" cannot be empty");
            Err(new_error(1002, msg.as_str(), 422))
        },
    }
}

/// Accepts a string whose trimmed character count is positive.
pub fn required_str(v: &str, name: &str) -> (r: Result<String, Error>)
    ensures
        (match r {
            Ok(s) => is_nonblank(v@) && s@ == v@,
            Err(e) => !is_nonblank(v@) && is_validation_failure(e) && e.message@ == name@
                + " is required"@,
        }),
{
    let cs = str_to_chars(v);
    let mut i: usize = 0;
    while i < cs.len()
        invariant
            cs@ == v@,
            i <= cs@.len(),
            forall|j: int| 0 <= j < i ==> is_space_char(v@[j]),
        decreases cs@.len() - i,
    {
        if !space_char(cs[i]) {
            return Ok(v.to_owned());
        }
        i = i + 1;
    }
    let msg = name.to_owned().concat(" is required");
    Err(new_error(1002, msg.as_str(), 422))
}

/// Accepts exactly ten ASCII digits.
pub fn mobile(v: &str, name: &str) -> (r: Result<String, Error>)
    ensures
        (match r {
            Ok(s) => is_valid_phone(v@) && s@ == v@,
            Err(e) => !is_valid_phone(v@) && is_validation_failure(e) && e.message@ == name@
                + " validation failed"@,
        }),
{
    let cs = str_to_chars(v);
    if cs.len() == 10 && all_digits(&cs) {
        Ok(v.to_owned())
    } else {
        let msg = name.to_owned().concat(" validation failed");
        Err(new_error(1002, msg.as_str(), 422))
    }
}

fn all_digits(cs: &Vec<char>) -> (r: bool)
    ensures
        r == (forall|i: int| 0 <= i < cs@.len() ==> is_digit_char(cs@[i])),
{
    let mut i: usize = 0;
    while i < cs.len()
        invariant
            i <= cs@.len(),
            forall|j: int| 0 <= j < i ==> is_digit_char(cs@[j]),
        decreases cs@.len() - i,
    {
        if !digit_char(cs[i]) {
            return false;
        }
        i = i + 1;
    }
    true
}

/// Accepts `local-part@domain.tld` with the character classes the service
/// allows in each segment.
pub fn email(v: &str, name: &str) -> (r: Result<String, Error>)
    ensures
        (match r {
            Ok(s) => is_valid_email(v@) && s@ == v@,
            Err(e) => !is_valid_email(v@) && is_validation_failure(e) && e.message@ == name@
                + " validation failed"@,
        }),
{
    let cs = str_to_chars(v);
    if check_email(&cs) {
        Ok(v.to_owned())
    } else {
        let msg = name.to_owned().concat(" validation failed");
        Err(new_error(1002, msg.as_str(), 422))
    }
}

fn local_char(c: char) -> (r: bool)
    ensures
        r == is_local_char(c),
{
    digit_char(c) || ('a' <= c && c <= 'z') || ('A' <= c && c <= 'Z') || c == '_' || c == '.'
        || c == '+' || c == '-'
}

fn domain_char(c: char) -> (r: bool)
    ensures
        r == is_domain_char(c),
{
    digit_char(c) || ('a' <= c && c <= 'z') || ('A' <= c && c <= 'Z') || c == '-'
}

fn tail_char(c: char) -> (r: bool)
    ensures
        r == is_tail_char(c),
{
    domain_char(c) || c == '.'
}

fn check_email(cs: &Vec<char>) -> (r: bool)
    ensures
        r == is_valid_email(cs@),
{
    let n = cs.len();
    let mut at: usize = 0;
    while at < n && local_char(cs[at])
        invariant
            n == cs@.len(),
            at <= n,
            forall|j: int| 0 <= j < at ==> is_local_char(cs@[j]),
        decreases n - at,
    {
        at = at + 1;
    }
    // `at` is the first position without a local character, if any.
    if at == n || cs[at] != '@' || at == 0 {
        proof {
            assert forall|a: int, d: int| !email_split_at(cs@, a, d) by {
                if email_split_at(cs@, a, d) {
                    if a < at {
                        assert(is_local_char(cs@[a]));
                    } else if a > at {
                        assert(is_local_char(cs@[at as int]));
                    }
                }
            }
        }
        return false;
    }
    // cs[at] == '@', at > 0, everything before is local.
    let mut dot: usize = at + 1;
    while dot < n && domain_char(cs[dot])
        invariant
            n == cs@.len(),
            at < dot <= n,
            forall|j: int| at < j < dot ==> is_domain_char(cs@[j]),
            cs@[at as int] == '@',
            0 < at,
            forall|j: int| 0 <= j < at ==> is_local_char(cs@[j]),
        decreases n - dot,
    {
        dot = dot + 1;
    }
    if dot == n || cs[dot] != '.' || dot == at + 1 {
        proof {
            assert forall|a: int, d: int| !email_split_at(cs@, a, d) by {
                if email_split_at(cs@, a, d) {
                    // The '@' position is forced to `at`.
                    if a < at {
                        assert(is_local_char(cs@[a]));
                    } else if a > at {
                        assert(is_local_char(cs@[at as int]));
                    }
                    assert(a == at);
                    // The first dot after it is forced to `dot`.
                    if d < dot {
                        assert(is_domain_char(cs@[d]));
                    } else if d > dot {
                        assert(is_domain_char(cs@[dot as int]));
                    }
                }
            }
        }
        return false;
    }
    // cs[dot] == '.', a non-empty domain sits between `at` and `dot`.
    let mut k: usize = dot + 1;
    while k < n && tail_char(cs[k])
        invariant
            n == cs@.len(),
            dot < k <= n,
            forall|j: int| dot < j < k ==> is_tail_char(cs@[j]),
            cs@[at as int] == '@',
            cs@[dot as int] == '.',
            0 < at,
            at + 1 < dot,
            dot < n,
            forall|j: int| 0 <= j < at ==> is_local_char(cs@[j]),
            forall|j: int| at < j < dot ==> is_domain_char(cs@[j]),
        decreases n - k,
    {
        k = k + 1;
    }
    if k < n || dot + 1 == n {
        proof {
            assert forall|a: int, d: int| !email_split_at(cs@, a, d) by {
                if email_split_at(cs@, a, d) {
                    if a < at {
                        assert(is_local_char(cs@[a]));
                    } else if a > at {
                        assert(is_local_char(cs@[at as int]));
                    }
                    assert(a == at);
                    if d < dot {
                        assert(is_domain_char(cs@[d]));
                    } else if d > dot {
                        assert(is_domain_char(cs@[dot as int]));
                    }
                    assert(d == dot);
                    if k < n {
                        assert(is_tail_char(cs@[k as int]));
                    }
                }
            }
        }
        return false;
    }
    proof {
        assert(email_split_at(cs@, at as int, dot as int));
    }
    true
}

/// Accepts the canonical UUID grouping, case-insensitively.
pub fn uuid(v: &str, name: &str) -> (r: Result<String, Error>)
    ensures
        (match r {
            Ok(s) => is_uuid_chars(v@) && s@ == v@,
            Err(e) => !is_uuid_chars(v@) && is_validation_failure(e) && e.message@ == name@
                + " is invalid"@,
        }),
{
    let cs = str_to_chars(v);
    if check_uuid(&cs) {
        Ok(v.to_owned())
    } else {
        let msg = name.to_owned().concat(" is invalid");
        Err(new_error(1002, msg.as_str(), 422))
    }
}

pub fn check_uuid(cs: &Vec<char>) -> (r: bool)
    ensures
        r == is_uuid_chars(cs@),
{
    if cs.len() != 36 {
        return false;
    }
    let mut i: usize = 0;
    while i < 36
        invariant
            cs@.len() == 36,
            i <= 36,
            forall|j: int|
                0 <= j < i ==> (if j == 8 || j == 13 || j == 18 || j == 23 {
                    cs@[j] == '-'
                } else {
                    is_hex_char(cs@[j])
                }),
        decreases 36 - i,
    {
        if i == 8 || i == 13 || i == 18 || i == 23 {
            if cs[i] != '-' {
                return false;
            }
        } else {
            if !hex_char(cs[i]) {
                return false;
            }
        }
        i = i + 1;
    }
    true
}

/// Accepts `YYYY-MM-DD` strings denoting real calendar dates; range rules
/// against the current day are the store's side of the split.
pub fn date(v: &str, name: &str) -> (r: Result<Date, Error>)
    ensures
        (match r {
            Ok(d) => is_valid_date_string(v@) && d == spec_date_of(v@),
            Err(e) => !is_valid_date_string(v@) && is_validation_failure(e) && e.message@ == name@
                + " validation failed"@,
        }),
{
    let cs = str_to_chars(v);
    match parse_date_chars(&cs) {
        Some(d) => Ok(d),
        None => {
            let msg = name.to_owned().concat(" validation failed");
            Err(new_error(1002, msg.as_str(), 422))
        },
    }
}

fn digit_value(c: char) -> (r: u32)
    requires
        is_digit_char(c),
    ensures
        r == char_digit(c),
        r <= 9,
{
    c as u32 - '0' as u32
}

fn parse_date_chars(cs: &Vec<char>) -> (r: Option<Date>)
    ensures
        (match r {
            Some(d) => is_valid_date_string(cs@) && d == spec_date_of(cs@),
            None => !is_valid_date_string(cs@),
        }),
{
    if cs.len() != 10 {
        return None;
    }
    let mut i: usize = 0;
    while i < 10
        invariant
            cs@.len() == 10,
            i <= 10,
            forall|j: int| 0 <= j < i && j != 4 && j != 7 ==> is_digit_char(cs@[j]),
            forall|j: int| 0 <= j < i && (j == 4 || j == 7) ==> cs@[j] == '-',
        decreases 10 - i,
    {
        if i == 4 || i == 7 {
            if cs[i] != '-' {
                return None;
            }
        } else {
            if !digit_char(cs[i]) {
                return None;
            }
        }
        i = i + 1;
    }
    let year = digit_value(cs[0]) * 1000 + digit_value(cs[1]) * 100 + digit_value(cs[2]) * 10
        + digit_value(cs[3]);
    let month = digit_value(cs[5]) * 10 + digit_value(cs[6]);
    let day = digit_value(cs[8]) * 10 + digit_value(cs[9]);
    let d = Date { year, month, day };
    if month < 1 || month > 12 {
        return None;
    }
    if day < 1 || day > days_in_month(year, month) {
        return None;
    }
    Some(d)
}

} // verus!
