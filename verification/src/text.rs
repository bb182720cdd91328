//! The character-level model that every name, location and key comparison
//! goes through: Unicode-whitespace trimming, ASCII lower-casing, the shared
//! normalization of lookup keys, decimal digits, and a port-number parser.

use vstd::prelude::*;
use vstd::string::StrSliceExecFns;

verus! {

/// The Unicode `White_Space` code points, the set that `str::trim` removes.
pub open spec fn is_space(c: char) -> bool {
    let u = c as u32;
    ||| u == 9
    ||| u == 10
    ||| u == 11
    ||| u == 12
    ||| u == 13
    ||| u == 32
    ||| u == 0x85
    ||| u == 0xA0
    ||| u == 0x1680
    ||| (0x2000 <= u && u <= 0x200A)
    ||| u == 0x2028
    ||| u == 0x2029
    ||| u == 0x202F
    ||| u == 0x205F
    ||| u == 0x3000
}

pub fn is_space_char(c: char) -> (r: bool)
    ensures
        r == is_space(c),
{
    let u: u32 = c as u32;
    u == 9 || u == 10 || u == 11 || u == 12 || u == 13 || u == 32 || u == 0x85 || u == 0xA0
        || u == 0x1680 || (0x2000 <= u && u <= 0x200A) || u == 0x2028 || u == 0x2029
        || u == 0x202F || u == 0x205F || u == 0x3000
}

/// ASCII lower-casing of one character; everything outside `A`..`Z` is kept.
pub open spec fn lower_char(c: char) -> char {
    if 65 <= c as u32 && c as u32 <= 90 {
        ((c as u32 + 32) as u8) as char
    } else {
        c
    }
}

pub fn lower_char_exec(c: char) -> (r: char)
    ensures
        r == lower_char(c),
{
    let u: u32 = c as u32;
    if 65 <= u && u <= 90 {
        ((u + 32) as u8) as char
    } else {
        c
    }
}

pub open spec fn lower_seq(s: Seq<char>) -> Seq<char> {
    s.map_values(|c: char| lower_char(c))
}

/// Number of leading whitespace characters.
pub open spec fn trim_lo(s: Seq<char>) -> int
    decreases s.len(),
{
    if s.len() == 0 || !is_space(s[0]) {
        0
    } else {
        1 + trim_lo(s.drop_first())
    }
}

/// Index just past the last non-whitespace character.
pub open spec fn trim_hi(s: Seq<char>) -> int
    decreases s.len(),
{
    if s.len() == 0 || !is_space(s[s.len() - 1]) {
        s.len() as int
    } else {
        trim_hi(s.drop_last())
    }
}

/// What `str::trim` leaves: the sequence without leading and trailing
/// whitespace.
pub open spec fn trim_seq(s: Seq<char>) -> Seq<char> {
    if trim_lo(s) == s.len() {
        Seq::<char>::empty()
    } else {
        s.subrange(trim_lo(s), trim_hi(s))
    }
}

/// The shared key normalization: trim, then lower-case. Every name and
/// location comparison in the crate goes through this.
pub open spec fn norm_seq(s: Seq<char>) -> Seq<char> {
    lower_seq(trim_seq(s))
}

/// Whether `p` is a prefix of `m`.
pub open spec fn has_prefix(m: Seq<char>, p: Seq<char>) -> bool {
    m.len() >= p.len() && m.subrange(0, p.len() as int) == p
}

proof fn lemma_trim_lo_at(s: Seq<char>, i: int)
    requires
        0 <= i <= s.len(),
        forall|j: int| 0 <= j < i ==> is_space(s[j]),
        i == s.len() || !is_space(s[i]),
    ensures
        trim_lo(s) == i,
    decreases i,
{
    if i == 0 {
    } else {
        assert(is_space(s[0]));
        let t = s.drop_first();
        assert forall|j: int| 0 <= j < i - 1 implies is_space(#[trigger] t[j]) by {
            assert(t[j] == s[j + 1]);
        }
        if i - 1 < t.len() {
            assert(t[i - 1] == s[i]);
        }
        lemma_trim_lo_at(t, i - 1);
    }
}

proof fn lemma_trim_hi_at(s: Seq<char>, i: int)
    requires
        0 <= i <= s.len(),
        forall|j: int| i <= j < s.len() ==> is_space(s[j]),
        i == 0 || !is_space(s[i - 1]),
    ensures
        trim_hi(s) == i,
    decreases s.len(),
{
    if i == s.len() {
    } else {
        assert(is_space(s[s.len() - 1]));
        let t = s.drop_last();
        assert forall|j: int| i <= j < t.len() implies is_space(#[trigger] t[j]) by {
            assert(t[j] == s[j]);
        }
        lemma_trim_hi_at(t, i);
    }
}

proof fn lemma_trim_lo_range(s: Seq<char>)
    ensures
        0 <= trim_lo(s) <= s.len(),
        forall|j: int| 0 <= j < trim_lo(s) ==> is_space(s[j]),
        trim_lo(s) < s.len() ==> !is_space(s[trim_lo(s)]),
    decreases s.len(),
{
    if s.len() == 0 || !is_space(s[0]) {
    } else {
        let t = s.drop_first();
        lemma_trim_lo_range(t);
        assert(trim_lo(s) == 1 + trim_lo(t));
        assert forall|j: int| 0 <= j < trim_lo(s) implies is_space(#[trigger] s[j]) by {
            if j > 0 {
                assert(t[j - 1] == s[j]);
                assert(is_space(t[j - 1]));
            }
        }
        if trim_lo(s) < s.len() {
            assert(s[trim_lo(s)] == t[trim_lo(t)]);
        }
    }
}

/// Dropping a trailing space does not move the start mark.
proof fn lemma_trim_lo_prefix(s: Seq<char>)
    requires
        s.len() > 0,
        is_space(s[s.len() - 1]),
        trim_lo(s.drop_last()) != s.drop_last().len(),
    ensures
        trim_lo(s) == trim_lo(s.drop_last()),
{
    let t = s.drop_last();
    lemma_trim_lo_range(t);
    assert forall|j: int| 0 <= j < trim_lo(t) implies is_space(#[trigger] s[j]) by {
        assert(s[j] == t[j]);
        assert(is_space(t[j]));
    }
    assert(s[trim_lo(t)] == t[trim_lo(t)]);
    lemma_trim_lo_at(s, trim_lo(t));
}

/// The two trim marks are ordered, and the characters at the edges of the
/// trimmed range are not whitespace.
pub proof fn lemma_trim_bounds(s: Seq<char>)
    requires
        trim_lo(s) != s.len(),
    ensures
        0 <= trim_lo(s) < trim_hi(s) <= s.len(),
        !is_space(s[trim_lo(s)]),
        !is_space(s[trim_hi(s) - 1]),
    decreases s.len(),
{
    lemma_trim_lo_range(s);
    if s.len() > 0 && is_space(s[s.len() - 1]) {
        let t = s.drop_last();
        if trim_lo(t) == t.len() {
            lemma_trim_lo_range(t);
            assert forall|j: int| 0 <= j < s.len() implies is_space(#[trigger] s[j]) by {
                if j < t.len() {
                    assert(s[j] == t[j]);
                    assert(is_space(t[j]));
                }
            }
            lemma_trim_lo_at(s, s.len() as int);
            assert(false);
        } else {
            lemma_trim_bounds(t);
            lemma_trim_lo_prefix(s);
            assert(trim_hi(s) == trim_hi(t));
            assert(s[trim_lo(s)] == t[trim_lo(t)]);
            assert(s[trim_hi(t) - 1] == t[trim_hi(t) - 1]);
        }
    } else {
    }
}

/// Trimming is idempotent: a trimmed sequence has nothing more to trim.
pub proof fn lemma_trim_idempotent(s: Seq<char>)
    ensures
        trim_seq(trim_seq(s)) == trim_seq(s),
{
    let t = trim_seq(s);
    if trim_lo(s) == s.len() {
        assert(t.len() == 0);
        assert(trim_lo(t) == 0);
        assert(trim_seq(t) =~= t);
    } else {
        lemma_trim_bounds(s);
        assert(!is_space(s[trim_lo(s)]));
        assert(t[0] == s[trim_lo(s)]);
        lemma_trim_lo_at(t, 0);
        assert(t[t.len() - 1] == s[trim_hi(s) - 1]);
        assert(!is_space(t[t.len() - 1]));
        lemma_trim_hi_at(t, t.len() as int);
        assert(trim_seq(t) =~= t);
    }
}

/// Collect the characters of a string slice.
pub fn to_chars(s: &str) -> (r: Vec<char>)
    ensures
        r@ == s@,
{
    let n: usize = s.unicode_len();
    let mut out: Vec<char> = Vec::new();
    let mut i: usize = 0;
    while i < n
        invariant
            i <= n,
            n == s@.len(),
            out@.len() == i,
            forall|j: int| 0 <= j < i ==> out@[j] == s@[j],
        decreases n - i,
    {
        let c: char = s.get_char(i);
        out.push(c);
        i = i + 1;
    }
    proof {
        assert(out@ =~= s@);
    }
    out
}

/// Relies on std's `FromIterator<char>` for `String`: collecting characters
/// yields the string of exactly those characters, in order.
#[verifier::external_body]
pub fn chars_to_string(v: &Vec<char>) -> (r: String)
    ensures
        r@ == v@,
{
    v.iter().collect()
}

/// Character-wise equality of two character vectors.
pub fn vec_char_eq(a: &Vec<char>, b: &Vec<char>) -> (r: bool)
    ensures
        r == (a@ == b@),
{
    if a.len() != b.len() {
        return false;
    }
    let n: usize = a.len();
    let mut i: usize = 0;
    while i < n
        invariant
            i <= n,
            n == a@.len() == b@.len(),
            forall|j: int| 0 <= j < i ==> a@[j] == b@[j],
        decreases n - i,
    {
        if a[i] != b[i] {
            return false;
        }
        i = i + 1;
    }
    proof {
        assert(a@ =~= b@);
    }
    true
}

/// View-level equality of two string slices.
pub fn str_eq(a: &str, b: &str) -> (r: bool)
    ensures
        r == (a@ == b@),
{
    let va = to_chars(a);
    let vb = to_chars(b);
    vec_char_eq(&va, &vb)
}

pub open spec fn seq_contains(s: Seq<char>, c: char) -> bool {
    exists|i: int| 0 <= i < s.len() && s[i] == c
}

pub fn contains_char(v: &Vec<char>, c: char) -> (r: bool)
    ensures
        r == seq_contains(v@, c),
{
    let n: usize = v.len();
    let mut i: usize = 0;
    while i < n
        invariant
            i <= n,
            n == v@.len(),
            forall|j: int| 0 <= j < i ==> v@[j] != c,
        decreases n - i,
    {
        if v[i] == c {
            return true;
        }
        i = i + 1;
    }
    false
}

/// What `str::trim` returns, over character vectors.
pub fn trim_chars(v: &Vec<char>) -> (r: Vec<char>)
    ensures
        r@ == trim_seq(v@),
{
    let n: usize = v.len();
    let mut lo: usize = 0;
    while lo < n && is_space_char(v[lo])
        invariant
            lo <= n,
            n == v@.len(),
            forall|j: int| 0 <= j < lo ==> is_space(v@[j]),
        decreases n - lo,
    {
        lo = lo + 1;
    }
    proof {
        lemma_trim_lo_at(v@, lo as int);
    }
    if lo == n {
        let out: Vec<char> = Vec::new();
        proof {
            assert(out@ =~= trim_seq(v@));
        }
        return out;
    }
    let mut hi: usize = n;
    while hi > lo + 1 && is_space_char(v[hi - 1])
        invariant
            lo < hi <= n,
            n == v@.len(),
            forall|j: int| hi <= j < n ==> is_space(v@[j]),
        decreases hi,
    {
        hi = hi - 1;
    }
    proof {
        assert(!is_space(v@[hi as int - 1]));
        lemma_trim_hi_at(v@, hi as int);
    }
    let mut out: Vec<char> = Vec::new();
    let mut i: usize = lo;
    while i < hi
        invariant
            lo <= i <= hi <= n,
            n == v@.len(),
            out@.len() == i - lo,
            forall|j: int| 0 <= j < out@.len() ==> out@[j] == v@[lo + j],
        decreases hi - i,
    {
        let c: char = v[i];
        out.push(c);
        i = i + 1;
    }
    proof {
        assert(out@ =~= trim_seq(v@));
    }
    out
}

/// ASCII lower-casing over character vectors.
pub fn lower_chars(v: &Vec<char>) -> (r: Vec<char>)
    ensures
        r@ == lower_seq(v@),
{
    let n: usize = v.len();
    let mut out: Vec<char> = Vec::new();
    let mut i: usize = 0;
    while i < n
        invariant
            i <= n,
            n == v@.len(),
            out@.len() == i,
            forall|j: int| 0 <= j < i ==> out@[j] == lower_char(v@[j]),
        decreases n - i,
    {
        let c: char = lower_char_exec(v[i]);
        out.push(c);
        i = i + 1;
    }
    proof {
        assert(out@ =~= lower_seq(v@));
    }
    out
}

/// Trim, then lower-case: the normalized form of a key.
pub fn norm_chars(v: &Vec<char>) -> (r: Vec<char>)
    ensures
        r@ == norm_seq(v@),
{
    let t = trim_chars(v);
    lower_chars(&t)
}

/// The single shared normalization function for names and locations:
/// trim whitespace, lower-case ASCII letters.
pub fn normalize_key(value: &str) -> (r: String)
    ensures
        r@ == norm_seq(value@),
{
    let v = to_chars(value);
    let nv = norm_chars(&v);
    chars_to_string(&nv)
}

/// The decimal digit character for `d` in `0..10`.
pub open spec fn digit_char(d: int) -> char {
    ((48 + d) as u8) as char
}

/// The decimal representation of a non-negative integer, most significant
/// digit first.
pub open spec fn dec_rep(n: int) -> Seq<char>
    decreases n,
{
    if n < 0 {
        Seq::<char>::empty()
    } else if n < 10 {
        seq![digit_char(n)]
    } else {
        dec_rep(n / 10).push(digit_char(n % 10))
    }
}

/// Append the decimal digits of `n`.
pub fn push_dec_digits(n: usize, out: &mut Vec<char>)
    ensures
        final(out)@ == old(out)@ + dec_rep(n as int),
    decreases n,
{
    if n >= 10 {
        push_dec_digits(n / 10, out);
    }
    let d: u8 = (n % 10) as u8;
    out.push((48 + d) as char);
    proof {
        assert(final(out)@ =~= old(out)@ + dec_rep(n as int));
    }
}

pub open spec fn is_digit(c: char) -> bool {
    48 <= c as u32 && c as u32 <= 57
}

pub open spec fn digit_val(c: char) -> int {
    c as u32 - 48
}

/// The value of a digit string, most significant digit first.
pub open spec fn digits_val(s: Seq<char>) -> int
    decreases s.len(),
{
    if s.len() == 0 {
        0
    } else {
        digits_val(s.drop_last()) * 10 + digit_val(s.last())
    }
}

/// The digits of a number literal, with one optional leading `+` removed,
/// as `str::parse` for unsigned integers accepts it.
pub open spec fn u16_digits(s: Seq<char>) -> Seq<char> {
    if s.len() > 0 && s[0] == '+' {
        s.drop_first()
    } else {
        s
    }
}

pub open spec fn parses_as_u16(s: Seq<char>) -> bool {
    let d = u16_digits(s);
    &&& d.len() > 0
    &&& forall|i: int| 0 <= i < d.len() ==> is_digit(#[trigger] d[i])
    &&& digits_val(d) <= 65535
}

pub open spec fn u16_value(s: Seq<char>) -> int {
    digits_val(u16_digits(s))
}

/// Parse a port number the way `str::parse::<u16>` does: an optional
/// leading `+`, then one or more decimal digits, value at most 65535.
pub fn parse_u16(v: &Vec<char>) -> (r: Option<u16>)
    ensures
        r is Some <==> parses_as_u16(v@),
        r matches Some(x) ==> x as int == u16_value(v@),
{
    let n: usize = v.len();
    let start: usize = if n > 0 && v[0] == '+' {
        1
    } else {
        0
    };
    let ghost d = u16_digits(v@);
    proof {
        assert(d =~= v@.subrange(start as int, n as int));
    }
    if n == start {
        return None;
    }
    let mut acc: u32 = 0;
    let mut over: bool = false;
    let mut i: usize = start;
    while i < n
        invariant
            start <= i <= n,
            n == v@.len(),
            d == u16_digits(v@),
            d =~= v@.subrange(start as int, n as int),
            forall|j: int| start <= j < i ==> is_digit(#[trigger] v@[j]),
            !over ==> acc <= 65535 && acc as int == digits_val(v@.subrange(start as int, i as int)),
            over ==> digits_val(v@.subrange(start as int, i as int)) > 65535,
        decreases n - i,
    {
        let c: char = v[i];
        let u: u32 = c as u32;
        if !(48 <= u && u <= 57) {
            proof {
                assert(!is_digit(d[i - start]));
            }
            return None;
        }
        let ghost prev = v@.subrange(start as int, i as int);
        let ghost cur = v@.subrange(start as int, i + 1 as int);
        proof {
            assert(cur.drop_last() =~= prev);
            assert(cur.last() == v@[i as int]);
        }
        if !over {
            acc = acc * 10 + (u - 48);
            if acc > 65535 {
                over = true;
            }
        } else {
            proof {
                assert(digits_val(cur) == digits_val(prev) * 10 + digit_val(cur.last()));
                assert(digits_val(prev) * 10 > 65535 * 10);
            }
        }
        i = i + 1;
    }
    proof {
        assert(v@.subrange(start as int, n as int) =~= d);
    }
    if over {
        return None;
    }
    proof {
        assert(acc as int == digits_val(d));
    }
    Some(acc as u16)
}

} // verus!
