//! The identity claim carried by a token, and its wire form: a flat JSON
//! object written and parsed here, character by character, so that the
//! token service's contracts can speak about the exact bytes it signs.

use vstd::prelude::*;

use crate::chars::is_digit_char;
use crate::chars::is_hex_char;
use crate::chars::hex_value;
use crate::chars::digit_char;
use crate::chars::hex_char;
use crate::chars::chars_to_string;
use crate::chars::vec_suffix;

verus! {

/// The decoded contents of a verified token. `iat` and `exp` are Unix
/// timestamps in seconds; `jid` is a per-token random identifier; `id` the
/// subject; `_id` a second random opaque identifier handlers use as the
/// tenant key.
#[derive(Debug, Clone)]
pub struct Claims {
    pub iat: u64,
    pub exp: u64,
    pub jid: String,
    pub id: String,
    pub _id: String,
}

/// The mathematical image of a `Claims` value.
pub struct ClaimsView {
    pub iat: u64,
    pub exp: u64,
    pub jid: Seq<char>,
    pub id: Seq<char>,
    pub _id: Seq<char>,
}

impl View for Claims {
    type V = ClaimsView;

    open spec fn view(&self) -> ClaimsView {
        ClaimsView {
            iat: self.iat,
            exp: self.exp,
            jid: self.jid@,
            id: self.id@,
            _id: self._id@,
        }
    }
}

// ---------------------------------------------------------------------------
// Decimal numerals.
// ---------------------------------------------------------------------------

pub open spec fn digit_char_of(d: int) -> char
    recommends
        0 <= d <= 9,
{
    if d == 0 {
        '0'
    } else if d == 1 {
        '1'
    } else if d == 2 {
        '2'
    } else if d == 3 {
        '3'
    } else if d == 4 {
        '4'
    } else if d == 5 {
        '5'
    } else if d == 6 {
        '6'
    } else if d == 7 {
        '7'
    } else if d == 8 {
        '8'
    } else {
        '9'
    }
}

/// The decimal numeral of `n`, most significant digit first.
pub open spec fn spec_dec(n: nat) -> Seq<char>
    decreases n,
{
    if n < 10 {
        seq![digit_char_of(n as int)]
    } else {
        spec_dec(n / 10) + seq![digit_char_of((n % 10) as int)]
    }
}

pub open spec fn char_digit(c: char) -> int
    recommends
        is_digit_char(c),
{
    c as int - '0' as int
}

/// The value a digit string denotes.
pub open spec fn val_of_digits(d: Seq<char>) -> int
    decreases d.len(),
{
    if d.len() == 0 {
        0
    } else {
        val_of_digits(d.drop_last()) * 10 + char_digit(d.last())
    }
}

/// How many leading characters of `s` are digits.
pub open spec fn digit_run(s: Seq<char>) -> nat
    decreases s.len(),
{
    if s.len() == 0 || !is_digit_char(s[0]) {
        0
    } else {
        1 + digit_run(s.drop_first())
    }
}

/// Greedy decimal number: the longest digit prefix, rejected when empty or
/// when its value does not fit the timestamp type.
pub open spec fn spec_parse_number(s: Seq<char>) -> Option<(u64, Seq<char>)> {
    let k = digit_run(s) as int;
    if k == 0 {
        None
    } else if val_of_digits(s.subrange(0, k)) > u64::MAX {
        None
    } else {
        Some((val_of_digits(s.subrange(0, k)) as u64, s.subrange(k, s.len() as int)))
    }
}

// ---------------------------------------------------------------------------
// JSON string escaping.
// ---------------------------------------------------------------------------

pub open spec fn hex_digit_lower(d: int) -> char
    recommends
        0 <= d <= 15,
{
    if d < 10 {
        digit_char_of(d)
    } else if d == 10 {
        'a'
    } else if d == 11 {
        'b'
    } else if d == 12 {
        'c'
    } else if d == 13 {
        'd'
    } else if d == 14 {
        'e'
    } else {
        'f'
    }
}

/// How one character is written inside a JSON string: quotes and
/// backslashes get a backslash escape, control characters a `\u00XX`
/// escape, everything else stands for itself.
pub open spec fn spec_escape_char(c: char) -> Seq<char> {
    if c == '"' {
        seq!['\\', '"']
    } else if c == '\\' {
        seq!['\\', '\\']
    } else if (c as u32) < 32 {
        seq![
            '\\',
            'u',
            '0',
            '0',
            hex_digit_lower((c as u32 / 16) as int),
            hex_digit_lower((c as u32 % 16) as int),
        ]
    } else {
        seq![c]
    }
}

pub open spec fn spec_escape(s: Seq<char>) -> Seq<char>
    decreases s.len(),
{
    if s.len() == 0 {
        Seq::empty()
    } else {
        spec_escape_char(s[0]) + spec_escape(s.drop_first())
    }
}

/// The body of a JSON string, read up to and including its closing quote:
/// returns the unescaped text and what follows the quote.
pub open spec fn spec_parse_jstring(s: Seq<char>) -> Option<(Seq<char>, Seq<char>)>
    decreases s.len(),
{
    if s.len() == 0 {
        None
    } else if s[0] == '"' {
        Some((Seq::empty(), s.drop_first()))
    } else if s[0] == '\\' {
        if s.len() >= 2 && (s[1] == '"' || s[1] == '\\') {
            match spec_parse_jstring(s.subrange(2, s.len() as int)) {
                Some(p) => Some((seq![s[1]] + p.0, p.1)),
                None => None,
            }
        } else if s.len() >= 6 && s[1] == 'u' && s[2] == '0' && s[3] == '0' && is_hex_char(s[4])
            && is_hex_char(s[5]) && hex_value(s[4]) * 16 + hex_value(s[5]) < 32 {
            match spec_parse_jstring(s.subrange(6, s.len() as int)) {
                Some(p) => Some(
                    (seq![(((hex_value(s[4]) * 16 + hex_value(s[5])) as u32) as char)] + p.0, p.1),
                ),
                None => None,
            }
        } else {
            None
        }
    } else if (s[0] as u32) < 32 {
        None
    } else {
        match spec_parse_jstring(s.drop_first()) {
            Some(p) => Some((seq![s[0]] + p.0, p.1)),
            None => None,
        }
    }
}

// ---------------------------------------------------------------------------
// The claims object layout.
// ---------------------------------------------------------------------------

pub open spec fn k_iat() -> Seq<char> {
    seq!['{', '"', 'i', 'a', 't', '"', ':']
}

pub open spec fn k_exp() -> Seq<char> {
    seq![',', '"', 'e', 'x', 'p', '"', ':']
}

pub open spec fn k_jid() -> Seq<char> {
    seq![',', '"', 'j', 'i', 'd', '"', ':', '"']
}

pub open spec fn k_id() -> Seq<char> {
    seq![',', '"', 'i', 'd', '"', ':', '"']
}

pub open spec fn k_sid() -> Seq<char> {
    seq![',', '"', '_', 'i', 'd', '"', ':', '"']
}

pub open spec fn qm() -> Seq<char> {
    seq!['"']
}

pub open spec fn rb() -> Seq<char> {
    seq!['}']
}

/// The exact character sequence the token service signs for a claim.
pub open spec fn spec_claims_json(c: ClaimsView) -> Seq<char> {
    k_iat() + spec_dec(c.iat as nat) + k_exp() + spec_dec(c.exp as nat) + k_jid() + spec_escape(
        c.jid,
    ) + qm() + k_id() + spec_escape(c.id) + qm() + k_sid() + spec_escape(c._id) + qm() + rb()
}

/// `s` with the prefix `p` removed, when `p` is a prefix.
pub open spec fn spec_strip_prefix(s: Seq<char>, p: Seq<char>) -> Option<Seq<char>> {
    if p.len() <= s.len() && s.subrange(0, p.len() as int) == p {
        Some(s.subrange(p.len() as int, s.len() as int))
    } else {
        None
    }
}

/// The inverse reading of `spec_claims_json`: field by field, in the fixed
/// order the writer uses.
pub open spec fn spec_parse_claims(s: Seq<char>) -> Option<ClaimsView> {
    match spec_strip_prefix(s, k_iat()) {
        None => None,
        Some(s1) => match spec_parse_number(s1) {
            None => None,
            Some((iat, s2)) => match spec_strip_prefix(s2, k_exp()) {
                None => None,
                Some(s3) => match spec_parse_number(s3) {
                    None => None,
                    Some((exp, s4)) => match spec_strip_prefix(s4, k_jid()) {
                        None => None,
                        Some(s5) => match spec_parse_jstring(s5) {
                            None => None,
                            Some((jid, s6)) => match spec_strip_prefix(s6, k_id()) {
                                None => None,
                                Some(s7) => match spec_parse_jstring(s7) {
                                    None => None,
                                    Some((id, s8)) => match spec_strip_prefix(s8, k_sid()) {
                                        None => None,
                                        Some(s9) => match spec_parse_jstring(s9) {
                                            None => None,
                                            Some((sid, s10)) => if s10 == rb() {
                                                Some(
                                                    ClaimsView {
                                                        iat,
                                                        exp,
                                                        jid,
                                                        id,
                                                        _id: sid,
                                                    },
                                                )
                                            } else {
                                                None
                                            },
                                        },
                                    },
                                },
                            },
                        },
                    },
                },
            },
        },
    }
}

// ---------------------------------------------------------------------------
// The writer.
// ---------------------------------------------------------------------------

fn digit_char_ex(d: u64) -> (r: char)
    requires
        d <= 9,
    ensures
        r == digit_char_of(d as int),
{
    if d == 0 {
        '0'
    } else if d == 1 {
        '1'
    } else if d == 2 {
        '2'
    } else if d == 3 {
        '3'
    } else if d == 4 {
        '4'
    } else if d == 5 {
        '5'
    } else if d == 6 {
        '6'
    } else if d == 7 {
        '7'
    } else if d == 8 {
        '8'
    } else {
        '9'
    }
}

fn hex_digit_lower_ex(d: u32) -> (r: char)
    requires
        d <= 15,
    ensures
        r == hex_digit_lower(d as int),
{
    if d <= 9 {
        digit_char_ex(d as u64)
    } else if d == 10 {
        'a'
    } else if d == 11 {
        'b'
    } else if d == 12 {
        'c'
    } else if d == 13 {
        'd'
    } else if d == 14 {
        'e'
    } else {
        'f'
    }
}

/// Appends the decimal numeral of `n`.
fn push_dec(out: &mut Vec<char>, n: u64)
    ensures
        final(out)@ == old(out)@ + spec_dec(n as nat),
    decreases n,
{
    if n < 10 {
        out.push(digit_char_ex(n));
        proof {
            assert(out@ =~= old(out)@ + spec_dec(n as nat));
        }
    } else {
        push_dec(out, n / 10);
        out.push(digit_char_ex(n % 10));
        proof {
            assert(out@ =~= old(out)@ + spec_dec(n as nat));
        }
    }
}

/// Concatenation of sequences is associative.
proof fn lemma_seq_assoc<A>(a: Seq<A>, b: Seq<A>, c: Seq<A>)
    ensures
        (a + b) + c == a + (b + c),
{
    assert((a + b) + c =~= a + (b + c));
}

proof fn lemma_escape_push(s: Seq<char>, c: char)
    ensures
        spec_escape(s.push(c)) == spec_escape(s) + spec_escape_char(c),
    decreases s.len(),
{
    if s.len() == 0 {
        assert(s.push(c)[0] == c);
        assert(s.push(c).drop_first() =~= Seq::<char>::empty());
        assert(spec_escape(s.push(c)) == spec_escape_char(c) + spec_escape(Seq::<char>::empty()));
        assert(spec_escape_char(c) + Seq::<char>::empty() =~= spec_escape_char(c));
        assert(Seq::<char>::empty() + spec_escape_char(c) =~= spec_escape_char(c));
    } else {
        lemma_escape_push(s.drop_first(), c);
        assert(s.push(c)[0] == s[0]);
        assert(s.push(c).len() > 0);
        assert(s.push(c).drop_first() =~= s.drop_first().push(c));
        assert(spec_escape(s.push(c)) == spec_escape_char(s[0]) + spec_escape(
            s.drop_first().push(c),
        ));
        lemma_seq_assoc(spec_escape_char(s[0]), spec_escape(s.drop_first()), spec_escape_char(c));
    }
}

/// Appends the characters of `s`, escaped as JSON string contents.
fn push_escaped(out: &mut Vec<char>, s: &Vec<char>)
    ensures
        final(out)@ == old(out)@ + spec_escape(s@),
{
    let mut i: usize = 0;
    proof {
        assert(s@.subrange(0, 0) =~= Seq::<char>::empty());
        assert(out@ =~= out@ + spec_escape(s@.subrange(0, 0)));
    }
    while i < s.len()
        invariant
            i <= s@.len(),
            out@ == old(out)@ + spec_escape(s@.subrange(0, i as int)),
        decreases s@.len() - i,
    {
        let c = s[i];
        let ghost prev = out@;
        if c == '"' {
            out.push('\\');
            out.push('"');
            proof {
                assert(out@ =~= prev + spec_escape_char(c));
            }
        } else if c == '\\' {
            out.push('\\');
            out.push('\\');
            proof {
                assert(out@ =~= prev + spec_escape_char(c));
            }
        } else if (c as u32) < 32 {
            out.push('\\');
            out.push('u');
            out.push('0');
            out.push('0');
            let code: u32 = c as u32;
            out.push(hex_digit_lower_ex(code / 16));
            out.push(hex_digit_lower_ex(code % 16));
            proof {
                assert(out@ =~= prev + spec_escape_char(c));
            }
        } else {
            out.push(c);
            proof {
                assert(out@ =~= prev + spec_escape_char(c));
            }
        }
        proof {
            lemma_escape_push(s@.subrange(0, i as int), c);
            assert(s@.subrange(0, i + 1) =~= s@.subrange(0, i as int).push(c));
            lemma_seq_assoc(old(out)@, spec_escape(s@.subrange(0, i as int)), spec_escape_char(c));
        }
        i = i + 1;
    }
    proof {
        assert(s@.subrange(0, s@.len() as int) =~= s@);
    }
}

fn push_key_iat(out: &mut Vec<char>)
    ensures
        final(out)@ == old(out)@ + k_iat(),
{
    out.push('{');
    out.push('"');
    out.push('i');
    out.push('a');
    out.push('t');
    out.push('"');
    out.push(':');
    proof {
        assert(out@ =~= old(out)@ + k_iat());
    }
}

fn push_key_exp(out: &mut Vec<char>)
    ensures
        final(out)@ == old(out)@ + k_exp(),
{
    out.push(',');
    out.push('"');
    out.push('e');
    out.push('x');
    out.push('p');
    out.push('"');
    out.push(':');
    proof {
        assert(out@ =~= old(out)@ + k_exp());
    }
}

fn push_key_jid(out: &mut Vec<char>)
    ensures
        final(out)@ == old(out)@ + k_jid(),
{
    out.push(',');
    out.push('"');
    out.push('j');
    out.push('i');
    out.push('d');
    out.push('"');
    out.push(':');
    out.push('"');
    proof {
        assert(out@ =~= old(out)@ + k_jid());
    }
}

fn push_key_id(out: &mut Vec<char>)
    ensures
        final(out)@ == old(out)@ + k_id(),
{
    out.push(',');
    out.push('"');
    out.push('i');
    out.push('d');
    out.push('"');
    out.push(':');
    out.push('"');
    proof {
        assert(out@ =~= old(out)@ + k_id());
    }
}

fn push_key_sid(out: &mut Vec<char>)
    ensures
        final(out)@ == old(out)@ + k_sid(),
{
    out.push(',');
    out.push('"');
    out.push('_');
    out.push('i');
    out.push('d');
    out.push('"');
    out.push(':');
    out.push('"');
    proof {
        assert(out@ =~= old(out)@ + k_sid());
    }
}

/// Writes the claim as the exact character sequence the service signs.
pub fn write_claims(c: &Claims, jid_chars: &Vec<char>, id_chars: &Vec<char>, sid_chars: &Vec<char>) -> (out: Vec<
    char,
>)
    requires
        jid_chars@ == c.jid@,
        id_chars@ == c.id@,
        sid_chars@ == c._id@,
    ensures
        out@ == spec_claims_json(c@),
{
    let mut out: Vec<char> = Vec::new();
    push_key_iat(&mut out);
    push_dec(&mut out, c.iat);
    push_key_exp(&mut out);
    push_dec(&mut out, c.exp);
    push_key_jid(&mut out);
    push_escaped(&mut out, jid_chars);
    out.push('"');
    push_key_id(&mut out);
    push_escaped(&mut out, id_chars);
    out.push('"');
    push_key_sid(&mut out);
    push_escaped(&mut out, sid_chars);
    out.push('"');
    out.push('}');
    proof {
        assert(out@ =~= spec_claims_json(c@));
    }
    out
}

// ---------------------------------------------------------------------------
// The parser.
// ---------------------------------------------------------------------------

fn strip_prefix_ex(s: &Vec<char>, p: &Vec<char>) -> (r: Option<Vec<char>>)
    ensures
        (match r {
            Some(t) => spec_strip_prefix(s@, p@) == Some(t@),
            None => spec_strip_prefix(s@, p@) is None,
        }),
{
    if p.len() > s.len() {
        return None;
    }
    let mut i: usize = 0;
    while i < p.len()
        invariant
            i <= p@.len() <= s@.len(),
            forall|j: int| 0 <= j < i ==> s@[j] == p@[j],
        decreases p@.len() - i,
    {
        if s[i] != p[i] {
            proof {
                assert(s@.subrange(0, p@.len() as int)[i as int] != p@[i as int]);
            }
            return None;
        }
        i = i + 1;
    }
    proof {
        assert(s@.subrange(0, p@.len() as int) =~= p@);
    }
    Some(vec_suffix(s, p.len()))
}

fn digit_val64(c: char) -> (r: u64)
    requires
        is_digit_char(c),
    ensures
        r == char_digit(c),
        r <= 9,
{
    (c as u32 - '0' as u32) as u64
}

proof fn lemma_digit_run_from_scan(s: Seq<char>, k: int)
    requires
        0 <= k <= s.len(),
        forall|j: int| 0 <= j < k ==> is_digit_char(s[j]),
        k == s.len() || !is_digit_char(s[k]),
    ensures
        digit_run(s) == k,
    decreases k,
{
    if k == 0 {
    } else {
        assert(is_digit_char(s[0]));
        lemma_digit_run_from_scan(s.drop_first(), k - 1);
    }
}

proof fn lemma_val_nonneg(d: Seq<char>)
    requires
        forall|i: int| 0 <= i < d.len() ==> is_digit_char(d[i]),
    ensures
        val_of_digits(d) >= 0,
    decreases d.len(),
{
    if d.len() > 0 {
        assert(d.drop_last() =~= d.subrange(0, d.len() - 1));
        lemma_val_nonneg(d.drop_last());
    }
}

proof fn lemma_val_prefix_le(d: Seq<char>, m: int)
    requires
        0 <= m <= d.len(),
        forall|i: int| 0 <= i < d.len() ==> is_digit_char(d[i]),
    ensures
        val_of_digits(d.subrange(0, m)) <= val_of_digits(d),
    decreases d.len() - m,
{
    if m == d.len() {
        assert(d.subrange(0, m) =~= d);
    } else {
        lemma_val_prefix_le(d, m + 1);
        let dm1 = d.subrange(0, m + 1);
        assert(dm1.drop_last() =~= d.subrange(0, m));
        lemma_val_nonneg(d.subrange(0, m));
        assert(val_of_digits(dm1) == val_of_digits(d.subrange(0, m)) * 10 + char_digit(dm1.last()));
        assert(val_of_digits(d.subrange(0, m)) * 10 >= val_of_digits(d.subrange(0, m)));
    }
}

fn parse_number_ex(s: &Vec<char>) -> (r: Option<(u64, Vec<char>)>)
    ensures
        (match r {
            Some(p) => spec_parse_number(s@) == Some((p.0, p.1@)),
            None => spec_parse_number(s@) is None,
        }),
{
    let n = s.len();
    let mut k: usize = 0;
    while k < n && digit_char(s[k])
        invariant
            n == s@.len(),
            k <= n,
            forall|j: int| 0 <= j < k ==> is_digit_char(s@[j]),
        decreases n - k,
    {
        k = k + 1;
    }
    proof {
        lemma_digit_run_from_scan(s@, k as int);
    }
    if k == 0 {
        return None;
    }
    let ghost d = s@.subrange(0, k as int);
    let mut acc: u64 = 0;
    let mut j: usize = 0;
    while j < k
        invariant
            j <= k <= n,
            n == s@.len(),
            k == digit_run(s@),
            forall|i: int| 0 <= i < k ==> is_digit_char(s@[i]),
            acc == val_of_digits(s@.subrange(0, j as int)),
        decreases k - j,
    {
        let dv = digit_val64(s[j]);
        if acc > (u64::MAX - dv) / 10 {
            proof {
                let prev = s@.subrange(0, j as int);
                let cur = s@.subrange(0, j + 1);
                assert(cur.drop_last() =~= prev);
                assert(val_of_digits(cur) == acc * 10 + dv);
                assert(acc * 10 + dv > u64::MAX) by (nonlinear_arith)
                    requires
                        acc > (u64::MAX - dv) / 10,
                        dv <= 9,
                ;
                assert(cur =~= s@.subrange(0, k as int).subrange(0, j + 1));
                lemma_val_prefix_le(s@.subrange(0, k as int), j + 1);
            }
            return None;
        }
        proof {
            assert(acc * 10 + dv <= u64::MAX) by (nonlinear_arith)
                requires
                    acc <= (u64::MAX - dv) / 10,
                    dv <= 9,
            ;
            assert(s@.subrange(0, j + 1).drop_last() =~= s@.subrange(0, j as int));
        }
        acc = acc * 10 + dv;
        j = j + 1;
    }
    let rest = vec_suffix(s, k);
    Some((acc, rest))
}

fn parse_jstring_ex(s: &Vec<char>) -> (r: Option<(Vec<char>, Vec<char>)>)
    ensures
        (match r {
            Some(p) => spec_parse_jstring(s@) == Some((p.0@, p.1@)),
            None => spec_parse_jstring(s@) is None,
        }),
    decreases s@.len(),
{
    if s.len() == 0 {
        return None;
    }
    let c = s[0];
    if c == '"' {
        let rest = vec_suffix(s, 1);
        proof {
            assert(s@.drop_first() =~= s@.subrange(1, s@.len() as int));
        }
        return Some((Vec::new(), rest));
    }
    if c == '\\' {
        if s.len() >= 2 && (s[1] == '"' || s[1] == '\\') {
            let sub = vec_suffix(s, 2);
            match parse_jstring_ex(&sub) {
                Some(p) => {
                    let (mut t, rest) = p;
                    let ghost t0 = t@;
                    t.insert(0, s[1]);
                    proof {
                        assert(t@ =~= seq![s@[1]] + t0);
                    }
                    return Some((t, rest));
                },
                None => {
                    return None;
                },
            }
        }
        if s.len() >= 6 && s[1] == 'u' && s[2] == '0' && s[3] == '0' && hex_char(s[4]) && hex_char(
            s[5],
        ) {
            let hi = hex_val32(s[4]);
            let lo = hex_val32(s[5]);
            let code: u32 = hi * 16 + lo;
            if code < 32 {
                let sub = vec_suffix(s, 6);
                match parse_jstring_ex(&sub) {
                    Some(p) => {
                        let (mut t, rest) = p;
                        let ghost t0 = t@;
                        let ch = char_of_code(code);
                        t.insert(0, ch);
                        proof {
                            assert(t@ =~= seq![((code as u32) as char)] + t0);
                        }
                        return Some((t, rest));
                    },
                    None => {
                        return None;
                    },
                }
            }
            return None;
        }
        return None;
    }
    if (c as u32) < 32 {
        return None;
    }
    let sub = vec_suffix(s, 1);
    proof {
        assert(s@.drop_first() =~= s@.subrange(1, s@.len() as int));
    }
    match parse_jstring_ex(&sub) {
        Some(p) => {
            let (mut t, rest) = p;
            let ghost t0 = t@;
            t.insert(0, c);
            proof {
                assert(t@ =~= seq![s@[0]] + t0);
            }
            Some((t, rest))
        },
        None => None,
    }
}

fn hex_val32(c: char) -> (r: u32)
    requires
        is_hex_char(c),
    ensures
        r == hex_value(c),
        r <= 15,
{
    let v = c as u32;
    if '0' <= c && c <= '9' {
        v - '0' as u32
    } else if 'a' <= c && c <= 'f' {
        v - 'a' as u32 + 10
    } else {
        v - 'A' as u32 + 10
    }
}

fn char_of_code(code: u32) -> (r: char)
    requires
        code < 32,
    ensures
        r == ((code as u32) as char),
{
    let b = code as u8;
    proof {
        vstd::utf8::char_u32_cast((b as char), (b as char) as u32);
    }
    b as char
}

/// Reads a claim back from the exact wire form `write_claims` produces.
pub fn parse_claims_chars(s: &Vec<char>) -> (r: Option<Claims>)
    ensures
        (match r {
            Some(c) => spec_parse_claims(s@) == Some(c@),
            None => spec_parse_claims(s@) is None,
        }),
{
    let mut key_iat_v: Vec<char> = Vec::new();
    push_key_iat(&mut key_iat_v);
    let s1 = match strip_prefix_ex(s, &key_iat_v) {
        Some(t) => t,
        None => {
            return None;
        },
    };
    let p_iat = match parse_number_ex(&s1) {
        Some(p) => p,
        None => {
            return None;
        },
    };
    let mut key_exp_v: Vec<char> = Vec::new();
    push_key_exp(&mut key_exp_v);
    let s3 = match strip_prefix_ex(&p_iat.1, &key_exp_v) {
        Some(t) => t,
        None => {
            return None;
        },
    };
    let p_exp = match parse_number_ex(&s3) {
        Some(p) => p,
        None => {
            return None;
        },
    };
    let mut key_jid_v: Vec<char> = Vec::new();
    push_key_jid(&mut key_jid_v);
    let s5 = match strip_prefix_ex(&p_exp.1, &key_jid_v) {
        Some(t) => t,
        None => {
            return None;
        },
    };
    let p_jid = match parse_jstring_ex(&s5) {
        Some(p) => p,
        None => {
            return None;
        },
    };
    let mut key_id_v: Vec<char> = Vec::new();
    push_key_id(&mut key_id_v);
    let s7 = match strip_prefix_ex(&p_jid.1, &key_id_v) {
        Some(t) => t,
        None => {
            return None;
        },
    };
    let p_id = match parse_jstring_ex(&s7) {
        Some(p) => p,
        None => {
            return None;
        },
    };
    let mut key_sid_v: Vec<char> = Vec::new();
    push_key_sid(&mut key_sid_v);
    let s9 = match strip_prefix_ex(&p_id.1, &key_sid_v) {
        Some(t) => t,
        None => {
            return None;
        },
    };
    let p_sid = match parse_jstring_ex(&s9) {
        Some(p) => p,
        None => {
            return None;
        },
    };
    let s10 = p_sid.1;
    if s10.len() == 1 {
        let close = s10[0];
        if close == '}' {
            proof {
                assert(s10@ =~= rb());
            }
            return Some(
                Claims {
                    iat: p_iat.0,
                    exp: p_exp.0,
                    jid: chars_to_string(&p_jid.0),
                    id: chars_to_string(&p_id.0),
                    _id: chars_to_string(&p_sid.0),
                },
            );
        }
        proof {
            assert(s10@ != rb());
        }
        return None;
    }
    proof {
        assert(s10@ != rb());
    }
    None
}

// ---------------------------------------------------------------------------
// Round trip: parsing what the writer wrote yields the claim back.
// ---------------------------------------------------------------------------

proof fn lemma_strip_prefix_concat(p: Seq<char>, rest: Seq<char>)
    ensures
        spec_strip_prefix(p + rest, p) == Some(rest),
{
    assert((p + rest).subrange(0, p.len() as int) =~= p);
    assert((p + rest).subrange(p.len() as int, (p + rest).len() as int) =~= rest);
}

proof fn lemma_dec_digits(n: nat)
    ensures
        spec_dec(n).len() >= 1,
        forall|i: int| 0 <= i < spec_dec(n).len() ==> is_digit_char(#[trigger] spec_dec(n)[i]),
    decreases n,
{
    if n >= 10 {
        lemma_dec_digits(n / 10);
    }
}

proof fn lemma_digit_run_concat(d: Seq<char>, rest: Seq<char>)
    requires
        forall|i: int| 0 <= i < d.len() ==> is_digit_char(d[i]),
        rest.len() == 0 || !is_digit_char(rest[0]),
    ensures
        digit_run(d + rest) == d.len(),
    decreases d.len(),
{
    if d.len() == 0 {
        assert(d + rest =~= rest);
    } else {
        assert((d + rest)[0] == d[0]);
        assert((d + rest).drop_first() =~= d.drop_first() + rest);
        lemma_digit_run_concat(d.drop_first(), rest);
    }
}

proof fn lemma_digit_char_val(d: int)
    requires
        0 <= d <= 9,
    ensures
        char_digit(digit_char_of(d)) == d,
{
    if d == 0 {
        assert(char_digit('0') == 0);
    } else if d == 1 {
        assert(char_digit('1') == 1);
    } else if d == 2 {
        assert(char_digit('2') == 2);
    } else if d == 3 {
        assert(char_digit('3') == 3);
    } else if d == 4 {
        assert(char_digit('4') == 4);
    } else if d == 5 {
        assert(char_digit('5') == 5);
    } else if d == 6 {
        assert(char_digit('6') == 6);
    } else if d == 7 {
        assert(char_digit('7') == 7);
    } else if d == 8 {
        assert(char_digit('8') == 8);
    } else {
        assert(char_digit('9') == 9);
    }
}

proof fn lemma_val_of_dec(n: nat)
    ensures
        val_of_digits(spec_dec(n)) == n,
    decreases n,
{
    if n < 10 {
        let d = spec_dec(n);
        lemma_digit_char_val(n as int);
        assert(d.drop_last() =~= Seq::<char>::empty());
        assert(d.last() == digit_char_of(n as int));
        assert(val_of_digits(d) == val_of_digits(Seq::<char>::empty()) * 10 + char_digit(d.last()));
    } else {
        lemma_val_of_dec(n / 10);
        lemma_digit_char_val((n % 10) as int);
        let d = spec_dec(n);
        assert(d.drop_last() =~= spec_dec(n / 10));
        assert(d.last() == digit_char_of((n % 10) as int));
        assert(val_of_digits(d) == val_of_digits(d.drop_last()) * 10 + char_digit(d.last()));
        assert(val_of_digits(d) == (n / 10) * 10 + (n % 10));
    }
}

proof fn lemma_parse_number_dec(n: u64, rest: Seq<char>)
    requires
        rest.len() == 0 || !is_digit_char(rest[0]),
    ensures
        spec_parse_number(spec_dec(n as nat) + rest) == Some((n, rest)),
{
    let d = spec_dec(n as nat);
    lemma_dec_digits(n as nat);
    lemma_digit_run_concat(d, rest);
    lemma_val_of_dec(n as nat);
    assert((d + rest).subrange(0, d.len() as int) =~= d);
    assert((d + rest).subrange(d.len() as int, (d + rest).len() as int) =~= rest);
}

proof fn lemma_parse_jstring_escape(t: Seq<char>, rest: Seq<char>)
    ensures
        spec_parse_jstring(spec_escape(t) + (qm() + rest)) == Some((t, rest)),
    decreases t.len(),
{
    let s = spec_escape(t) + (qm() + rest);
    if t.len() == 0 {
        assert(spec_escape(t) =~= Seq::<char>::empty());
        assert(s =~= qm() + rest);
        assert(s[0] == '"');
        assert(s.drop_first() =~= rest);
    } else {
        let c = t[0];
        lemma_parse_jstring_escape(t.drop_first(), rest);
        let s2 = spec_escape(t.drop_first()) + (qm() + rest);
        lemma_seq_assoc(spec_escape_char(c), spec_escape(t.drop_first()), qm() + rest);
        assert(s == spec_escape_char(c) + s2);
        assert(s2.len() >= 1);
        if c == '"' {
            assert(s[0] == '\\' && s[1] == '"');
            assert(s.subrange(2, s.len() as int) =~= s2);
            assert(seq![s[1]] + t.drop_first() =~= t);
        } else if c == '\\' {
            assert(s[0] == '\\' && s[1] == '\\');
            assert(s.subrange(2, s.len() as int) =~= s2);
            assert(seq![s[1]] + t.drop_first() =~= t);
        } else if (c as u32) < 32 {
            assert(s[0] == '\\' && s[1] == 'u' && s[2] == '0' && s[3] == '0');
            assert(s[4] == hex_digit_lower((c as u32 / 16) as int));
            assert(s[5] == hex_digit_lower((c as u32 % 16) as int));
            assert(hex_value(s[4]) == c as u32 / 16);
            assert(hex_value(s[5]) == c as u32 % 16);
            assert(hex_value(s[4]) * 16 + hex_value(s[5]) == c as u32);
            vstd::utf8::char_u32_cast(c, c as u32);
            assert((((hex_value(s[4]) * 16 + hex_value(s[5])) as u32) as char) == c);
            assert(s.subrange(6, s.len() as int) =~= s2);
            assert(seq![c] + t.drop_first() =~= t);
        } else {
            assert(s[0] == c);
            assert(s.drop_first() =~= s2);
            assert(seq![c] + t.drop_first() =~= t);
        }
    }
}

/// Law: the claims codec round-trips; a written claim parses back to
/// itself.
pub proof fn lemma_claims_roundtrip(c: ClaimsView)
    ensures
        spec_parse_claims(spec_claims_json(c)) == Some(c),
{
    let p1 = k_iat();
    let p2 = spec_dec(c.iat as nat);
    let p3 = k_exp();
    let p4 = spec_dec(c.exp as nat);
    let p5 = k_jid();
    let p6 = spec_escape(c.jid);
    let p7 = qm();
    let p8 = k_id();
    let p9 = spec_escape(c.id);
    let p10 = qm();
    let p11 = k_sid();
    let p12 = spec_escape(c._id);
    let p13 = qm();
    let p14 = rb();
    let s = spec_claims_json(c);

    // Reassociate the writer's left-leaning concatenation into the
    // peel-from-the-front shape each parsing step consumes.
    let r14 = p14;
    let r13 = p13 + r14;
    let r12 = p12 + r13;
    let r11 = p11 + r12;
    let r10 = p10 + r11;
    let r9 = p9 + r10;
    let r8 = p8 + r9;
    let r7 = p7 + r8;
    let r6 = p6 + r7;
    let r5 = p5 + r6;
    let r4 = p4 + r5;
    let r3 = p3 + r4;
    let r2 = p2 + r3;
    let r1 = p1 + r2;

    let l1 = p1;
    let l2 = l1 + p2;
    let l3 = l2 + p3;
    let l4 = l3 + p4;
    let l5 = l4 + p5;
    let l6 = l5 + p6;
    let l7 = l6 + p7;
    let l8 = l7 + p8;
    let l9 = l8 + p9;
    let l10 = l9 + p10;
    let l11 = l10 + p11;
    let l12 = l11 + p12;
    let l13 = l12 + p13;
    assert(s == l13 + p14);
    assert(l1 + r2 == r1);
    lemma_seq_assoc(l1, p2, r3);
    assert(l2 + r3 == r1);
    lemma_seq_assoc(l2, p3, r4);
    assert(l3 + r4 == r1);
    lemma_seq_assoc(l3, p4, r5);
    assert(l4 + r5 == r1);
    lemma_seq_assoc(l4, p5, r6);
    assert(l5 + r6 == r1);
    lemma_seq_assoc(l5, p6, r7);
    assert(l6 + r7 == r1);
    lemma_seq_assoc(l6, p7, r8);
    assert(l7 + r8 == r1);
    lemma_seq_assoc(l7, p8, r9);
    assert(l8 + r9 == r1);
    lemma_seq_assoc(l8, p9, r10);
    assert(l9 + r10 == r1);
    lemma_seq_assoc(l9, p10, r11);
    assert(l10 + r11 == r1);
    lemma_seq_assoc(l10, p11, r12);
    assert(l11 + r12 == r1);
    lemma_seq_assoc(l11, p12, r13);
    assert(l12 + r13 == r1);
    lemma_seq_assoc(l12, p13, r14);
    assert(l13 + r14 == r1);
    assert(s == r1);

    lemma_strip_prefix_concat(p1, r2);
    assert(r3.len() == 0 || !is_digit_char(r3[0]));
    lemma_parse_number_dec(c.iat, r3);
    lemma_strip_prefix_concat(p3, r4);
    assert(r5.len() == 0 || !is_digit_char(r5[0]));
    lemma_parse_number_dec(c.exp, r5);
    lemma_strip_prefix_concat(p5, r6);
    lemma_seq_assoc(p6, p7, r8);
    assert(r6 == p6 + (qm() + r8));
    lemma_parse_jstring_escape(c.jid, r8);
    lemma_strip_prefix_concat(p8, r9);
    lemma_seq_assoc(p9, p10, r11);
    assert(r9 == p9 + (qm() + r11));
    lemma_parse_jstring_escape(c.id, r11);
    lemma_strip_prefix_concat(p11, r12);
    lemma_seq_assoc(p12, p13, r14);
    assert(r12 == p12 + (qm() + r14));
    lemma_parse_jstring_escape(c._id, r14);
    assert(r14 == rb());
}

} // verus!
