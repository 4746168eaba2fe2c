//! Character-level helpers shared by the parsers and formatters of the library:
//! splitting strings into characters, decimal and hexadecimal rendering, and the
//! integer syntax that `str::parse` accepts.
use vstd::prelude::*;
use vstd::string::*;

verus! {

broadcast use vstd::string::group_string_axioms;

// ---------------------------------------------------------------------------
// Strings and characters
// ---------------------------------------------------------------------------

/// The characters of `s`, in order.
pub fn chars_of(s: &str) -> (r: Vec<char>)
    ensures
        r@ == s@,
{
    let mut out: Vec<char> = Vec::new();
    for c in it: s.chars()
        invariant
            out@ == it.seq().take(it.index() as int),
    {
        out.push(c);
    }
    assert(out@ =~= s@);
    out
}

/// Builds a `String` holding exactly the given characters (`FromIterator<char>`).
#[verifier::external_body]
pub(crate) fn string_from_chars(v: &[char]) -> (s: String)
    ensures
        s@ == v@,
{
    v.iter().collect()
}

/// Whether two character sequences are equal.
pub fn chars_eq(a: &[char], b: &[char]) -> (r: bool)
    ensures
        r == (a@ == b@),
{
    if a.len() != b.len() {
        return false;
    }
    let mut i: usize = 0;
    while i < a.len()
        invariant
            a@.len() == b@.len(),
            0 <= i <= a@.len(),
            forall|j: int| 0 <= j < i ==> a@[j] == b@[j],
        decreases a@.len() - i,
    {
        if a[i] != b[i] {
            return false;
        }
        i += 1;
    }
    assert(a@ =~= b@);
    true
}

/// Whether the characters `v[lo..hi]` spell `lit`.
pub fn range_eq_str(v: &[char], lo: usize, hi: usize, lit: &str) -> (r: bool)
    requires
        lo <= hi <= v@.len(),
    ensures
        r == (v@.subrange(lo as int, hi as int) == lit@),
{
    let l = chars_of(lit);
    if hi - lo != l.len() {
        return false;
    }
    let mut i: usize = 0;
    while i < l.len()
        invariant
            lo <= hi <= v@.len(),
            hi - lo == l@.len(),
            l@ == lit@,
            0 <= i <= l@.len(),
            forall|j: int| 0 <= j < i ==> v@[lo + j] == l@[j],
        decreases l@.len() - i,
    {
        if v[lo + i] != l[i] {
            return false;
        }
        i += 1;
    }
    assert(v@.subrange(lo as int, hi as int) =~= lit@);
    true
}

/// Whether the characters of `s` spell `lit`.
pub fn str_eq(s: &str, lit: &str) -> (r: bool)
    ensures
        r == (s@ == lit@),
{
    let v = chars_of(s);
    assert(v@.subrange(0, v@.len() as int) =~= s@);
    range_eq_str(&v, 0, v.len(), lit)
}

/// The index of the first occurrence of `c` in `v[lo..hi]`, if any.
pub fn find_char(v: &[char], lo: usize, hi: usize, c: char) -> (r: Option<usize>)
    requires
        lo <= hi <= v@.len(),
    ensures
        match r {
            Some(i) => lo <= i < hi && v@[i as int] == c && forall|j: int| lo <= j < i ==> v@[j] != c,
            None => forall|j: int| lo <= j < hi ==> v@[j] != c,
        },
{
    let mut i = lo;
    while i < hi
        invariant
            lo <= i <= hi <= v@.len(),
            forall|j: int| lo <= j < i ==> v@[j] != c,
        decreases hi - i,
    {
        if v[i] == c {
            return Some(i);
        }
        i += 1;
    }
    None
}

/// The index of the last occurrence of `c` in `v[lo..hi]`, if any.
pub fn rfind_char(v: &[char], lo: usize, hi: usize, c: char) -> (r: Option<usize>)
    requires
        lo <= hi <= v@.len(),
    ensures
        match r {
            Some(i) => lo <= i < hi && v@[i as int] == c && forall|j: int| i < j < hi ==> v@[j] != c,
            None => forall|j: int| lo <= j < hi ==> v@[j] != c,
        },
{
    let mut i = hi;
    while i > lo
        invariant
            lo <= i <= hi <= v@.len(),
            forall|j: int| i <= j < hi ==> v@[j] != c,
        decreases i - lo,
    {
        if v[i - 1] == c {
            return Some(i - 1);
        }
        i -= 1;
    }
    None
}

/// First index of `c` in `s`, as a spec function.
pub open spec fn index_of(s: Seq<char>, c: char) -> Option<int> {
    if exists|i: int| 0 <= i < s.len() && s[i] == c {
        Some(choose|i: int| 0 <= i < s.len() && s[i] == c && forall|j: int| 0 <= j < i ==> s[j] != c)
    } else {
        None
    }
}

/// Whether `c` occurs in `s`.
pub open spec fn has_char(s: Seq<char>, c: char) -> bool {
    exists|i: int| 0 <= i < s.len() && s[i] == c
}

/// The pieces of `s` between occurrences of `sep` (the behaviour of `str::split`
/// with a character pattern): `n` separators give `n + 1` pieces.
pub open spec fn split_on(s: Seq<char>, sep: char) -> Seq<Seq<char>>
    decreases s.len(),
{
    if s.len() == 0 {
        seq![Seq::<char>::empty()]
    } else {
        let rest = split_on(s.drop_first(), sep);
        if s[0] == sep {
            seq![Seq::<char>::empty()] + rest
        } else {
            rest.update(0, seq![s[0]] + rest[0])
        }
    }
}

pub proof fn lemma_split_on_nonempty(s: Seq<char>, sep: char)
    ensures
        split_on(s, sep).len() >= 1,
    decreases s.len(),
{
    if s.len() > 0 {
        lemma_split_on_nonempty(s.drop_first(), sep);
    }
}

/// Splitting a sequence that ends with a separator-free tail `t` after one separator.
pub proof fn lemma_split_on_append(a: Seq<char>, t: Seq<char>, sep: char)
    requires
        !has_char(t, sep),
    ensures
        split_on(a + seq![sep] + t, sep) == split_on(a, sep) + seq![t],
        split_on(t, sep) == seq![t],
    decreases a.len(), t.len(),
{
    if a.len() == 0 {
        lemma_split_on_free(t, sep);
        assert(a + seq![sep] + t =~= seq![sep] + t);
        assert((seq![sep] + t).drop_first() =~= t);
        assert(split_on(a, sep) + seq![t] =~= seq![Seq::<char>::empty()] + seq![t]);
    } else {
        lemma_split_on_append(a.drop_first(), t, sep);
        lemma_split_on_free(t, sep);
        assert((a + seq![sep] + t).drop_first() =~= a.drop_first() + seq![sep] + t);
        lemma_split_on_nonempty(a.drop_first(), sep);
        let rest = split_on(a.drop_first(), sep);
        if a[0] == sep {
            assert(split_on(a, sep) + seq![t] =~= seq![Seq::<char>::empty()] + (rest + seq![t]));
        } else {
            assert((rest + seq![t]).update(0, seq![a[0]] + (rest + seq![t])[0])
                =~= rest.update(0, seq![a[0]] + rest[0]) + seq![t]);
        }
    }
}

/// A separator-free sequence splits into itself.
pub proof fn lemma_split_on_free(t: Seq<char>, sep: char)
    requires
        !has_char(t, sep),
    ensures
        split_on(t, sep) == seq![t],
    decreases t.len(),
{
    if t.len() > 0 {
        assert(!has_char(t.drop_first(), sep)) by {
            if has_char(t.drop_first(), sep) {
                let i = choose|i: int| 0 <= i < t.drop_first().len() && t.drop_first()[i] == sep;
                assert(t[i + 1] == sep);
            }
        }
        lemma_split_on_free(t.drop_first(), sep);
        assert(t[0] != sep);
        let rest = split_on(t.drop_first(), sep);
        assert(split_on(t, sep) == rest.update(0, seq![t[0]] + rest[0]));
        assert(seq![t[0]] + rest[0] =~= t);
        assert(rest.update(0, t) =~= seq![t]);
    } else {
        assert(t =~= Seq::<char>::empty());
    }
}

// ---------------------------------------------------------------------------
// Whitespace
// ---------------------------------------------------------------------------

/// Unicode `White_Space`, the property behind `char::is_whitespace` and `str::trim`.
pub open spec fn is_whitespace(c: char) -> bool {
    let u = c as u32;
    (0x09 <= u <= 0x0D) || u == 0x20 || u == 0x85 || u == 0xA0 || u == 0x1680
        || (0x2000 <= u <= 0x200A) || u == 0x2028 || u == 0x2029 || u == 0x202F
        || u == 0x205F || u == 0x3000
}

pub fn char_is_whitespace(c: char) -> (r: bool)
    ensures
        r == is_whitespace(c),
{
    let u = c as u32;
    (0x09 <= u && u <= 0x0D) || u == 0x20 || u == 0x85 || u == 0xA0 || u == 0x1680 || (0x2000
        <= u && u <= 0x200A) || u == 0x2028 || u == 0x2029 || u == 0x202F || u == 0x205F || u
        == 0x3000
}

/// Number of leading whitespace characters of `s`.
pub open spec fn leading_ws(s: Seq<char>) -> nat
    decreases s.len(),
{
    if s.len() > 0 && is_whitespace(s[0]) {
        1 + leading_ws(s.drop_first())
    } else {
        0
    }
}

/// Number of trailing whitespace characters of `s`.
pub open spec fn trailing_ws(s: Seq<char>) -> nat
    decreases s.len(),
{
    if s.len() > 0 && is_whitespace(s.last()) {
        1 + trailing_ws(s.drop_last())
    } else {
        0
    }
}

/// `s` without leading and trailing whitespace (`str::trim`).
pub open spec fn trim(s: Seq<char>) -> Seq<char> {
    let t = s.skip(leading_ws(s) as int);
    t.take(t.len() - trailing_ws(t))
}

proof fn lemma_leading_ws(s: Seq<char>, i: int)
    requires
        0 <= i <= s.len(),
        forall|j: int| 0 <= j < i ==> is_whitespace(s[j]),
        i == s.len() || !is_whitespace(s[i]),
    ensures
        leading_ws(s) == i,
    decreases i,
{
    if i > 0 {
        lemma_leading_ws(s.drop_first(), i - 1);
    }
}

proof fn lemma_trailing_ws(s: Seq<char>, k: int)
    requires
        0 <= k <= s.len(),
        forall|j: int| s.len() - k <= j < s.len() ==> is_whitespace(s[j]),
        k == s.len() || !is_whitespace(s[s.len() - k - 1]),
    ensures
        trailing_ws(s) == k,
    decreases k,
{
    if k > 0 {
        lemma_trailing_ws(s.drop_last(), k - 1);
    }
}

/// The bounds `(lo, hi)` of `trim(v)` inside `v`.
pub fn trim_bounds(v: &[char]) -> (r: (usize, usize))
    ensures
        r.0 <= r.1 <= v@.len(),
        v@.subrange(r.0 as int, r.1 as int) == trim(v@),
{
    let mut lo: usize = 0;
    while lo < v.len() && char_is_whitespace(v[lo])
        invariant
            0 <= lo <= v@.len(),
            forall|j: int| 0 <= j < lo ==> is_whitespace(v@[j]),
        decreases v@.len() - lo,
    {
        lo += 1;
    }
    proof {
        lemma_leading_ws(v@, lo as int);
    }
    let mut hi: usize = v.len();
    while hi > lo && char_is_whitespace(v[hi - 1])
        invariant
            lo <= hi <= v@.len(),
            forall|j: int| hi <= j < v@.len() ==> is_whitespace(v@[j]),
        decreases hi - lo,
    {
        hi -= 1;
    }
    proof {
        let t = v@.skip(lo as int);
        let k = v@.len() - hi;
        assert forall|j: int| t.len() - k <= j < t.len() implies is_whitespace(t[j]) by {
            assert(t[j] == v@[lo + j]);
        }
        if k < t.len() {
            assert(t[t.len() - k - 1] == v@[hi - 1]);
        }
        lemma_trailing_ws(t, k);
        assert(v@.subrange(lo as int, hi as int) =~= t.take(t.len() - k));
    }
    (lo, hi)
}

// ---------------------------------------------------------------------------
// UTF-8 widths
// ---------------------------------------------------------------------------

/// Number of bytes of the UTF-8 encoding of `c`.
pub open spec fn utf8_width(c: char) -> nat {
    let u = c as u32;
    if u < 0x80 {
        1
    } else if u < 0x800 {
        2
    } else if u < 0x10000 {
        3
    } else {
        4
    }
}

/// Number of bytes of the UTF-8 encoding of `s`.
pub open spec fn utf8_len(s: Seq<char>) -> nat
    decreases s.len(),
{
    if s.len() == 0 {
        0
    } else {
        utf8_len(s.drop_last()) + utf8_width(s.last())
    }
}

/// Whether the UTF-8 encoding of `v[lo..hi]` is longer than `n` bytes.
pub fn utf8_range_longer_than(v: &[char], lo: usize, hi: usize, n: usize) -> (r: bool)
    requires
        lo <= hi <= v@.len(),
    ensures
        r == (utf8_len(v@.subrange(lo as int, hi as int)) > n),
{
    let ghost x = v@.subrange(lo as int, hi as int);
    let mut k: usize = lo;
    let mut total: u128 = 0;
    while k < hi && total <= n as u128
        invariant
            lo <= k <= hi <= v@.len(),
            x == v@.subrange(lo as int, hi as int),
            total == utf8_len(x.take(k - lo)),
            total <= n + 4,
        decreases hi - k,
    {
        let u = v[k] as u32;
        let w: u128 = if u < 0x80 {
            1
        } else if u < 0x800 {
            2
        } else if u < 0x10000 {
            3
        } else {
            4
        };
        assert(x.take(k + 1 - lo).drop_last() =~= x.take(k - lo));
        assert(x.take(k + 1 - lo).last() == v@[k as int]);
        total = total + w;
        k += 1;
    }
    if total > n as u128 {
        proof {
            lemma_utf8_len_prefix_mono(x, k - lo);
        }
        true
    } else {
        assert(x.take(k - lo) =~= x);
        false
    }
}

pub proof fn lemma_utf8_len_prefix_mono(s: Seq<char>, k: int)
    requires
        0 <= k <= s.len(),
    ensures
        utf8_len(s.take(k)) <= utf8_len(s),
    decreases s.len() - k,
{
    if k < s.len() {
        lemma_utf8_len_prefix_mono(s, k + 1);
        assert(s.take(k + 1).drop_last() =~= s.take(k));
    } else {
        assert(s.take(k) =~= s);
    }
}

// ---------------------------------------------------------------------------
// Integers: the syntax of `str::parse`
// ---------------------------------------------------------------------------

pub open spec fn is_digit(c: char) -> bool {
    '0' <= c <= '9'
}

pub open spec fn digit_value(c: char) -> nat {
    (c as int - '0' as int) as nat
}

pub open spec fn all_digits(s: Seq<char>) -> bool {
    forall|i: int| 0 <= i < s.len() ==> is_digit(#[trigger] s[i])
}

/// The number that a string of decimal digits denotes.
pub open spec fn digits_value(s: Seq<char>) -> nat
    decreases s.len(),
{
    if s.len() == 0 {
        0
    } else {
        digits_value(s.drop_last()) * 10 + digit_value(s.last())
    }
}

/// What `str::parse` gives for an unsigned integer type whose largest value is `max`:
/// an optional `+`, then at least one decimal digit, and a value that fits.
pub open spec fn parse_unsigned(s: Seq<char>, max: nat) -> Option<nat> {
    let d = if s.len() > 0 && s[0] == '+' {
        s.drop_first()
    } else {
        s
    };
    if d.len() > 0 && all_digits(d) && digits_value(d) <= max {
        Some(digits_value(d))
    } else {
        None
    }
}

/// What `str::parse` gives for a signed integer type whose largest value is `max`
/// (and whose smallest is `-(max + 1)`).
pub open spec fn parse_signed(s: Seq<char>, max: nat) -> Option<int> {
    if s.len() > 0 && s[0] == '-' {
        let d = s.drop_first();
        if d.len() > 0 && all_digits(d) && digits_value(d) <= max + 1 {
            Some(-(digits_value(d) as int))
        } else {
            None
        }
    } else {
        match parse_unsigned(s, max) {
            Some(n) => Some(n as int),
            None => None,
        }
    }
}

/// The value of the digits `v[lo..hi]` when there is at least one, they are all
/// decimal digits and the value is at most `cap`.
pub fn digits_capped(v: &[char], lo: usize, hi: usize, cap: u64) -> (r: Option<u64>)
    requires
        lo <= hi <= v@.len(),
    ensures
        ({
            let d = v@.subrange(lo as int, hi as int);
            r == (if d.len() > 0 && all_digits(d) && digits_value(d) <= cap {
                Some(digits_value(d) as u64)
            } else {
                None
            })
        }),
{
    if lo == hi {
        return None;
    }
    let mut i = lo;
    let mut val: u64 = 0;
    let mut over = false;
    while i < hi
        invariant
            lo <= i <= hi <= v@.len(),
            all_digits(v@.subrange(lo as int, i as int)),
            !over ==> val == digits_value(v@.subrange(lo as int, i as int)) && val <= cap,
            over ==> digits_value(v@.subrange(lo as int, i as int)) > cap,
        decreases hi - i,
    {
        let c = v[i];
        if !('0' <= c && c <= '9') {
            assert(v@.subrange(lo as int, hi as int)[i - lo] == c);
            return None;
        }
        let dv = (c as u32 - '0' as u32) as u64;
        let ghost p = v@.subrange(lo as int, i as int);
        let ghost q = v@.subrange(lo as int, i + 1);
        assert(q.drop_last() =~= p);
        assert(q.last() == c);
        assert(all_digits(q)) by {
            assert forall|j: int| 0 <= j < q.len() implies is_digit(#[trigger] q[j]) by {
                if j < p.len() {
                    assert(q[j] == p[j]);
                }
            }
        }
        if !over {
            let nv = (val as u128) * 10 + (dv as u128);
            if nv > cap as u128 {
                over = true;
            } else {
                val = nv as u64;
            }
        } else {
            assert(digits_value(q) >= digits_value(p)) by (nonlinear_arith)
                requires
                    digits_value(q) == digits_value(p) * 10 + digit_value(c),
            ;
        }
        i += 1;
    }
    if over {
        None
    } else {
        Some(val)
    }
}

/// `str::parse::<u64>`-style parsing of `v[lo..hi]` for an unsigned type whose largest
/// value is `max`.
pub fn parse_unsigned_range(v: &[char], lo: usize, hi: usize, max: u64) -> (r: Option<u64>)
    requires
        lo <= hi <= v@.len(),
    ensures
        r == (match parse_unsigned(v@.subrange(lo as int, hi as int), max as nat) {
            Some(n) => Some(n as u64),
            None => None,
        }),
{
    let ghost s = v@.subrange(lo as int, hi as int);
    if lo < hi && v[lo] == '+' {
        assert(s.drop_first() =~= v@.subrange(lo + 1, hi as int));
        digits_capped(v, lo + 1, hi, max)
    } else {
        digits_capped(v, lo, hi, max)
    }
}

/// `str::parse` for a signed type whose largest value is `max` (at most `i64::MAX`).
pub fn parse_signed_range(v: &[char], lo: usize, hi: usize, max: u64) -> (r: Option<i64>)
    requires
        lo <= hi <= v@.len(),
        max <= i64::MAX,
    ensures
        r == (match parse_signed(v@.subrange(lo as int, hi as int), max as nat) {
            Some(n) => Some(n as i64),
            None => None,
        }),
{
    let ghost s = v@.subrange(lo as int, hi as int);
    if lo < hi && v[lo] == '-' {
        assert(s.drop_first() =~= v@.subrange(lo + 1, hi as int));
        match digits_capped(v, lo + 1, hi, max + 1) {
            Some(n) => {
                if n == max + 1 {
                    Some(-(max as i64) - 1)
                } else {
                    Some(-(n as i64))
                }
            },
            None => None,
        }
    } else {
        match parse_unsigned_range(v, lo, hi, max) {
            Some(n) => Some(n as i64),
            None => None,
        }
    }
}

/// `str::parse::<u32>`.
pub fn parse_u32(s: &str) -> (r: Option<u32>)
    ensures
        r == (match parse_unsigned(s@, u32::MAX as nat) {
            Some(n) => Some(n as u32),
            None => None,
        }),
{
    let v = chars_of(s);
    assert(v@.subrange(0, v@.len() as int) =~= s@);
    match parse_unsigned_range(&v, 0, v.len(), u32::MAX as u64) {
        Some(n) => Some(n as u32),
        None => None,
    }
}

/// `str::parse::<u64>`.
pub fn parse_u64(s: &str) -> (r: Option<u64>)
    ensures
        r == (match parse_unsigned(s@, u64::MAX as nat) {
            Some(n) => Some(n as u64),
            None => None,
        }),
{
    let v = chars_of(s);
    assert(v@.subrange(0, v@.len() as int) =~= s@);
    parse_unsigned_range(&v, 0, v.len(), u64::MAX)
}

/// `str::parse::<usize>`.
pub fn parse_usize(s: &str) -> (r: Option<usize>)
    ensures
        r == (match parse_unsigned(s@, usize::MAX as nat) {
            Some(n) => Some(n as usize),
            None => None,
        }),
{
    let v = chars_of(s);
    assert(v@.subrange(0, v@.len() as int) =~= s@);
    match parse_unsigned_range(&v, 0, v.len(), usize::MAX as u64) {
        Some(n) => Some(n as usize),
        None => None,
    }
}

// ---------------------------------------------------------------------------
// Rendering integers
// ---------------------------------------------------------------------------

pub open spec fn digit_char(d: nat) -> char {
    if d < 10 {
        ((d + 48) as u8) as char
    } else {
        ((d + 87) as u8) as char
    }
}

/// The digits of `n` in base `b` (2 to 16), most significant first, without leading zeros.
pub open spec fn digits_in_base(n: nat, b: nat) -> Seq<char>
    decreases n,
{
    if b < 2 || n < b {
        seq![digit_char(n)]
    } else {
        proof {
            assert(n / b < n) by (nonlinear_arith)
                requires
                    b >= 2,
                    n >= b,
            ;
        }
        digits_in_base(n / b, b).push(digit_char(n % b))
    }
}

/// `n` written in decimal.
pub open spec fn decimal(n: nat) -> Seq<char> {
    digits_in_base(n, 10)
}

/// `n` written in lower-case hexadecimal (`{:x}`).
pub open spec fn hex_lower(n: nat) -> Seq<char> {
    digits_in_base(n, 16)
}

/// An integer written in decimal, with a leading `-` when negative.
pub open spec fn signed_decimal(n: int) -> Seq<char> {
    if n < 0 {
        seq!['-'] + decimal((-n) as nat)
    } else {
        decimal(n as nat)
    }
}

fn push_digits(out: &mut Vec<char>, n: u64, b: u64)
    requires
        2 <= b <= 16,
    ensures
        final(out)@ == old(out)@ + digits_in_base(n as nat, b as nat),
    decreases n,
{
    if n >= b {
        assert(n / b < n) by (nonlinear_arith)
            requires
                b >= 2,
                n >= b,
        ;
        push_digits(out, n / b, b);
    } else {
        assert(n % b == n) by (nonlinear_arith)
            requires
                n < b,
        ;
    }
    let d = n % b;
    assert(d < 16);
    let c: char = if d < 10 {
        ((d as u8) + 48u8) as char
    } else {
        ((d as u8) + 87u8) as char
    };
    out.push(c);
}

/// Appends `n` in decimal to `out`.
pub fn push_decimal(out: &mut Vec<char>, n: u64)
    ensures
        final(out)@ == old(out)@ + decimal(n as nat),
{
    push_digits(out, n, 10);
}

/// `n.to_string()`.
pub fn u64_to_string(n: u64) -> (s: String)
    ensures
        s@ == decimal(n as nat),
{
    let mut v: Vec<char> = Vec::new();
    push_decimal(&mut v, n);
    assert(v@ =~= decimal(n as nat));
    string_from_chars(&v)
}

/// Appends `n` in decimal, with a `-` when negative.
pub fn push_signed_decimal(out: &mut Vec<char>, n: i64)
    ensures
        final(out)@ == old(out)@ + signed_decimal(n as int),
{
    if n < 0 {
        out.push('-');
        let m: u64 = if n == i64::MIN {
            (i64::MAX as u64) + 1
        } else {
            (-n) as u64
        };
        let ghost mid = out@;
        push_digits(out, m, 10);
        assert(out@ =~= old(out)@ + (seq!['-'] + decimal((-n) as nat)));
    } else {
        push_digits(out, n as u64, 10);
    }
}

/// Appends `n` in lower-case hexadecimal.
pub fn push_hex(out: &mut Vec<char>, n: u64)
    ensures
        final(out)@ == old(out)@ + hex_lower(n as nat),
{
    push_digits(out, n, 16);
}

/// Appends the characters of `s`.
pub fn push_str(out: &mut Vec<char>, s: &str)
    ensures
        final(out)@ == old(out)@ + s@,
{
    let c = chars_of(s);
    let mut i: usize = 0;
    while i < c.len()
        invariant
            c@ == s@,
            0 <= i <= c@.len(),
            out@ == old(out)@ + c@.take(i as int),
        decreases c@.len() - i,
    {
        out.push(c[i]);
        assert(c@.take(i + 1) =~= c@.take(i as int).push(c@[i as int]));
        i += 1;
    }
    assert(c@.take(c@.len() as int) =~= c@);
}

/// Appends the characters `v[lo..hi]`.
pub fn push_range(out: &mut Vec<char>, v: &[char], lo: usize, hi: usize)
    requires
        lo <= hi <= v@.len(),
    ensures
        final(out)@ == old(out)@ + v@.subrange(lo as int, hi as int),
{
    let mut i = lo;
    while i < hi
        invariant
            lo <= i <= hi <= v@.len(),
            out@ == old(out)@ + v@.subrange(lo as int, i as int),
        decreases hi - i,
    {
        out.push(v[i]);
        assert(v@.subrange(lo as int, i + 1) =~= v@.subrange(lo as int, i as int).push(v@[i as int]));
        i += 1;
    }
}

/// The characters `v[lo..hi]` as a `String`.
pub fn range_to_string(v: &[char], lo: usize, hi: usize) -> (s: String)
    requires
        lo <= hi <= v@.len(),
    ensures
        s@ == v@.subrange(lo as int, hi as int),
{
    let mut out: Vec<char> = Vec::new();
    push_range(&mut out, v, lo, hi);
    assert(out@ =~= v@.subrange(lo as int, hi as int));
    string_from_chars(&out)
}

/// A copy of `s`.
pub fn copy_str(s: &str) -> (r: String)
    ensures
        r@ == s@,
{
    String::from_str(s)
}


// ---------------------------------------------------------------------------
// Positions of characters, as spec functions
// ---------------------------------------------------------------------------

/// Index of the first `c` in `x`, or `x.len()` when there is none.
pub open spec fn first_index(x: Seq<char>, c: char) -> int
    decreases x.len(),
{
    if x.len() == 0 {
        0
    } else if x[0] == c {
        0
    } else {
        1 + first_index(x.drop_first(), c)
    }
}

/// Index of the last `c` in `x`, if any.
pub open spec fn last_index(x: Seq<char>, c: char) -> Option<int>
    decreases x.len(),
{
    if x.len() == 0 {
        None
    } else if x.last() == c {
        Some(x.len() - 1)
    } else {
        last_index(x.drop_last(), c)
    }
}

pub proof fn lemma_first_index(x: Seq<char>, c: char, i: int)
    requires
        0 <= i <= x.len(),
        forall|j: int| 0 <= j < i ==> x[j] != c,
        i < x.len() ==> x[i] == c,
    ensures
        first_index(x, c) == i,
    decreases i,
{
    if i > 0 {
        lemma_first_index(x.drop_first(), c, i - 1);
    }
}

pub proof fn lemma_last_index_some(x: Seq<char>, c: char, k: int)
    requires
        0 <= k < x.len(),
        x[k] == c,
        forall|j: int| k < j < x.len() ==> x[j] != c,
    ensures
        last_index(x, c) == Some(k),
    decreases x.len(),
{
    if k < x.len() - 1 {
        lemma_last_index_some(x.drop_last(), c, k);
    }
}

pub proof fn lemma_last_index_none(x: Seq<char>, c: char)
    requires
        forall|j: int| 0 <= j < x.len() ==> x[j] != c,
    ensures
        last_index(x, c) is None,
    decreases x.len(),
{
    if x.len() > 0 {
        lemma_last_index_none(x.drop_last(), c);
    }
}

/// The numbers among `pieces` that `str::parse::<u32>` accepts, in order
/// (`filter_map(|p| p.parse().ok())`).
pub open spec fn parsed_u32s(pieces: Seq<Seq<char>>) -> Seq<u32>
    decreases pieces.len(),
{
    if pieces.len() == 0 {
        Seq::empty()
    } else {
        let rest = parsed_u32s(pieces.drop_last());
        match parse_unsigned(pieces.last(), u32::MAX as nat) {
            Some(n) => rest.push(n as u32),
            None => rest,
        }
    }
}


/// One step of splitting `v[lo..i]`: the pieces before `start` and the separator-free
/// piece `v[start..i]`.
proof fn lemma_pieces_step(v: Seq<char>, lo: int, start: int, i: int, sep: char)
    requires
        0 <= lo <= start <= i <= v.len(),
        start > lo ==> v[start - 1] == sep,
        !has_char(v.subrange(start, i), sep),
    ensures
        ({
            let t = v.subrange(start, i);
            let before = if start == lo {
                Seq::<Seq<char>>::empty()
            } else {
                split_on(v.subrange(lo, start - 1), sep)
            };
            &&& split_on(v.subrange(lo, i), sep) == before.push(t)
            &&& parsed_u32s(split_on(v.subrange(lo, i), sep)) == match parse_unsigned(
                t,
                u32::MAX as nat,
            ) {
                Some(n) => parsed_u32s(before).push(n as u32),
                None => parsed_u32s(before),
            }
        }),
{
    let t = v.subrange(start, i);
    let before = if start == lo {
        Seq::<Seq<char>>::empty()
    } else {
        split_on(v.subrange(lo, start - 1), sep)
    };
    if start == lo {
        lemma_split_on_free(t, sep);
        assert(v.subrange(lo, i) == t);
        assert(seq![t] =~= before.push(t));
    } else {
        let a = v.subrange(lo, start - 1);
        lemma_split_on_append(a, t, sep);
        assert(v.subrange(lo, i) =~= a + seq![sep] + t);
        assert(split_on(a, sep) + seq![t] =~= before.push(t));
    }
    assert(before.push(t).drop_last() =~= before);
    assert(before.push(t).last() == t);
}

/// The pieces of `v[lo..hi]` between the separators `sep` that parse as `u32`.
pub fn parse_u32_pieces(v: &[char], lo: usize, hi: usize, sep: char) -> (r: Vec<u32>)
    requires
        lo <= hi <= v@.len(),
    ensures
        r@ == parsed_u32s(split_on(v@.subrange(lo as int, hi as int), sep)),
{
    let mut out: Vec<u32> = Vec::new();
    let mut start = lo;
    let mut i = lo;
    while i < hi
        invariant
            lo <= start <= i <= hi <= v@.len(),
            forall|j: int| start <= j < i ==> v@[j] != sep,
            start == lo ==> out@ == Seq::<u32>::empty(),
            start > lo ==> v@[start - 1] == sep && out@ == parsed_u32s(
                split_on(v@.subrange(lo as int, start - 1), sep),
            ),
        decreases hi - i,
    {
        if v[i] == sep {
            let ghost t = v@.subrange(start as int, i as int);
            assert(!has_char(t, sep)) by {
                if has_char(t, sep) {
                    let j = choose|j: int| 0 <= j < t.len() && t[j] == sep;
                    assert(v@[start + j] == sep);
                }
            }
            let parsed = parse_unsigned_range(v, start, i, u32::MAX as u64);
            proof {
                lemma_pieces_step(v@, lo as int, start as int, i as int, sep);
            }
            match parsed {
                Some(n) => {
                    out.push(n as u32);
                },
                None => {},
            }
            start = i + 1;
        }
        i += 1;
    }
    let ghost t = v@.subrange(start as int, hi as int);
    assert(!has_char(t, sep)) by {
        if has_char(t, sep) {
            let j = choose|j: int| 0 <= j < t.len() && t[j] == sep;
            assert(v@[start + j] == sep);
        }
    }
    let parsed = parse_unsigned_range(v, start, hi, u32::MAX as u64);
    proof {
        lemma_pieces_step(v@, lo as int, start as int, hi as int, sep);
    }
    match parsed {
        Some(n) => {
            out.push(n as u32);
        },
        None => {},
    }
    out
}

// ---------------------------------------------------------------------------
// Substrings
// ---------------------------------------------------------------------------

/// Whether `n` occurs in `h` at index `i`.
pub open spec fn occurs_at(h: Seq<char>, n: Seq<char>, i: int) -> bool {
    0 <= i && i + n.len() <= h.len() && h.subrange(i, i + n.len()) == n
}

/// Whether `n` occurs in `h`.
pub open spec fn contains_seq(h: Seq<char>, n: Seq<char>) -> bool {
    exists|i: int| occurs_at(h, n, i)
}

/// Whether `needle` occurs in `hay`.
pub fn contains_str(hay: &str, needle: &str) -> (r: bool)
    ensures
        r == contains_seq(hay@, needle@),
{
    let h = chars_of(hay);
    let n = chars_of(needle);
    if n.len() > h.len() {
        proof {
            assert forall|i: int| !occurs_at(hay@, needle@, i) by {}
        }
        return false;
    }
    let hl = h.len();
    let last = hl - n.len();
    let mut i: usize = 0;
    loop
        invariant
            hl == h@.len(),
            h@ == hay@,
            n@ == needle@,
            n@.len() <= h@.len(),
            last == h@.len() - n@.len(),
            i <= last,
            forall|j: int| 0 <= j < i ==> !occurs_at(hay@, needle@, j),
        decreases last - i,
    {
        let mut k: usize = 0;
        let mut same = true;
        while k < n.len()
            invariant
                hl == h@.len(),
                h@ == hay@,
                n@ == needle@,
                n@.len() <= h@.len(),
                i <= last,
                last == h@.len() - n@.len(),
                k <= n@.len(),
                same == (forall|j: int| 0 <= j < k ==> h@[i + j] == n@[j]),
            decreases n@.len() - k,
        {
            if h[i + k] != n[k] {
                same = false;
            }
            k += 1;
        }
        if same {
            assert(hay@.subrange(i as int, i + needle@.len()) =~= needle@);
            assert(occurs_at(hay@, needle@, i as int));
            return true;
        }
        proof {
            if occurs_at(hay@, needle@, i as int) {
                let j = choose|j: int| 0 <= j < n@.len() && h@[i + j] != n@[j];
                assert(hay@.subrange(i as int, i + needle@.len())[j] == h@[i + j]);
            }
        }
        if i == last {
            proof {
                assert forall|j: int| !occurs_at(hay@, needle@, j) by {
                    if occurs_at(hay@, needle@, j) {
                        assert(j <= i);
                    }
                }
            }
            return false;
        }
        i += 1;
    }
}

/// Whether `s` begins with `prefix`.
pub fn starts_with_str(s: &str, prefix: &str) -> (r: bool)
    ensures
        r == prefix@.is_prefix_of(s@),
{
    let v = chars_of(s);
    let p = chars_of(prefix);
    if p.len() > v.len() {
        return false;
    }
    let r = range_eq_str(&v, 0, p.len(), prefix);
    proof {
        assert(v@.subrange(0, p@.len() as int) =~= s@.take(prefix@.len() as int));
        if prefix@.is_prefix_of(s@) {
            assert(s@.take(prefix@.len() as int) =~= prefix@);
        }
    }
    r
}

/// `s` without its first `n` characters.
pub fn drop_chars(s: &str, n: usize) -> (r: String)
    requires
        n <= s@.len(),
    ensures
        r@ == s@.skip(n as int),
{
    let v = chars_of(s);
    let r = range_to_string(&v, n, v.len());
    assert(v@.subrange(n as int, v@.len() as int) =~= s@.skip(n as int));
    r
}

} // verus!
