//! Presence handling for WebSocket clients: reading the `until` timestamp that a
//! client gives with a manual presence status.
use vstd::prelude::*;
use crate::text::{
    chars_of, trim_bounds, find_char, rfind_char, utf8_range_longer_than, parse_u32_pieces,
    parse_signed_range, push_range, trim, split_on, parse_signed, parsed_u32s, first_index,
    last_index, utf8_len, lemma_first_index, lemma_last_index_some, lemma_last_index_none,
    lemma_split_on_nonempty,
};

verus! {

// ---------------------------------------------------------------------------
// Calendar
// ---------------------------------------------------------------------------

/// Gregorian leap year.
pub open spec fn is_leap_year(y: int) -> bool {
    (y % 4 == 0 && y % 100 != 0) || y % 400 == 0
}

pub open spec fn year_len(y: int) -> int {
    if is_leap_year(y) {
        366
    } else {
        365
    }
}

/// Days in the years from 1970 up to (not including) `y`; none before 1970.
pub open spec fn days_before_year(y: int) -> int
    decreases y - 1970,
{
    if y <= 1970 {
        0
    } else {
        days_before_year(y - 1) + year_len(y - 1)
    }
}

/// Days of month `m` (1 to 12).
pub open spec fn month_len(m: int, leap: bool) -> int {
    if m == 2 {
        if leap {
            29
        } else {
            28
        }
    } else if m == 4 || m == 6 || m == 9 || m == 11 {
        30
    } else {
        31
    }
}

/// Days in the months before `month` of a year.
pub open spec fn days_before_month(month: int, leap: bool) -> int
    decreases month,
{
    if month <= 1 {
        0
    } else {
        days_before_month(month - 1, leap) + month_len(month - 1, leap)
    }
}

/// Whether `year` is a leap year.
pub fn is_leap(year: i64) -> (r: bool)
    ensures
        r == is_leap_year(year as int),
{
    (year % 4 == 0 && year % 100 != 0) || year % 400 == 0
}

// ---------------------------------------------------------------------------
// Time-zone offsets
// ---------------------------------------------------------------------------

pub open spec fn in_i64(x: int) -> bool {
    i64::MIN <= x <= i64::MAX
}

/// `+1` for an offset that starts with `+`, `-1` otherwise.
pub open spec fn tz_sign(s: Seq<char>) -> int {
    if s.len() > 0 && s[0] == '+' {
        1
    } else {
        -1
    }
}

/// The hours of an offset such as `+05:30`: the part before the first `:`.
pub open spec fn tz_hours(s: Seq<char>) -> Option<int> {
    parse_signed(split_on(s.drop_first(), ':')[0], i64::MAX as nat)
}

/// The minutes of an offset: the part after the first `:`, or 0 when it is
/// missing or does not parse.
pub open spec fn tz_minutes(s: Seq<char>) -> int {
    let p = split_on(s.drop_first(), ':');
    if p.len() > 1 {
        match parse_signed(p[1], i64::MAX as nat) {
            Some(m) => m,
            None => 0,
        }
    } else {
        0
    }
}

/// The offset in seconds that `s` (`+hh[:mm]` or `-hh[:mm]`) denotes.
pub open spec fn tz_offset_secs(s: Seq<char>) -> Option<int> {
    match tz_hours(s) {
        Some(h) => Some(tz_sign(s) * (h * 3600 + tz_minutes(s) * 60)),
        None => None,
    }
}

/// Whether computing the offset of `s` in 64-bit arithmetic overflows.
pub open spec fn tz_overflows(s: Seq<char>) -> bool {
    match tz_hours(s) {
        Some(h) => {
            let m = tz_minutes(s);
            !(in_i64(h * 3600) && in_i64(m * 60) && in_i64(h * 3600 + m * 60) && in_i64(
                tz_sign(s) * (h * 3600 + m * 60),
            ))
        },
        None => false,
    }
}

pub enum TzEval {
    Overflow,
    Invalid,
    Secs(i64),
}

/// Offset of the characters `v[lo..hi]`, whose first character is `+` or `-`.
fn tz_eval(v: &[char], lo: usize, hi: usize) -> (r: TzEval)
    requires
        lo < hi <= v@.len(),
    ensures
        ({
            let s = v@.subrange(lo as int, hi as int);
            match r {
                TzEval::Overflow => tz_overflows(s),
                TzEval::Invalid => !tz_overflows(s) && tz_offset_secs(s) is None,
                TzEval::Secs(x) => !tz_overflows(s) && tz_offset_secs(s) == Some(x as int),
            }
        }),
{
    let ghost s = v@.subrange(lo as int, hi as int);
    let sign: i128 = if v[lo] == '+' {
        1
    } else {
        -1
    };
    let ghost rest = s.drop_first();
    assert(rest =~= v@.subrange(lo + 1, hi as int));
    let colon = find_char(v, lo + 1, hi, ':');
    let h_end = match colon {
        Some(k) => k,
        None => hi,
    };
    proof {
        lemma_split_first_piece(v@, (lo + 1) as int, hi as int, h_end as int, ':');
    }
    let hours = match parse_signed_range(v, lo + 1, h_end, i64::MAX as u64) {
        Some(h) => h,
        None => {
            return TzEval::Invalid;
        },
    };
    let mins: i64 = match colon {
        Some(k) => {
            let m_end = match find_char(v, k + 1, hi, ':') {
                Some(k2) => k2,
                None => hi,
            };
            proof {
                lemma_split_second_piece(v@, (lo + 1) as int, hi as int, k as int, m_end as int, ':');
            }
            match parse_signed_range(v, k + 1, m_end, i64::MAX as u64) {
                Some(m) => m,
                None => 0,
            }
        },
        None => 0,
    };
    let h3600 = (hours as i128) * 3600;
    let m60 = (mins as i128) * 60;
    let total = h3600 + m60;
    let signed = sign * total;
    if h3600 < i64::MIN as i128 || h3600 > i64::MAX as i128 || m60 < i64::MIN as i128 || m60
        > i64::MAX as i128 || total < i64::MIN as i128 || total > i64::MAX as i128 || signed
        < i64::MIN as i128 || signed > i64::MAX as i128 {
        return TzEval::Overflow;
    }
    TzEval::Secs(signed as i64)
}

/// The first piece of `split_on(v[lo..hi], sep)` ends at the first `sep`.
proof fn lemma_split_first_piece(v: Seq<char>, lo: int, hi: int, k: int, sep: char)
    requires
        0 <= lo <= k <= hi <= v.len(),
        forall|j: int| lo <= j < k ==> v[j] != sep,
        k < hi ==> v[k] == sep,
    ensures
        split_on(v.subrange(lo, hi), sep)[0] == v.subrange(lo, k),
        (k < hi) == (split_on(v.subrange(lo, hi), sep).len() > 1),
    decreases k - lo,
{
    let x = v.subrange(lo, hi);
    lemma_split_on_nonempty(x, sep);
    if lo == hi {
    } else {
        assert(x.drop_first() =~= v.subrange(lo + 1, hi));
        lemma_split_on_nonempty(x.drop_first(), sep);
        if lo == k {
            assert(x[0] == sep);
            assert(v.subrange(lo, k) =~= Seq::<char>::empty());
        } else {
            lemma_split_first_piece(v, lo + 1, hi, k, sep);
            assert(x[0] != sep);
            assert(seq![x[0]] + v.subrange(lo + 1, k) =~= v.subrange(lo, k));
        }
    }
}

/// The second piece of `split_on(v[lo..hi], sep)` runs from after the first `sep`
/// at `k` to the next one.
proof fn lemma_split_second_piece(v: Seq<char>, lo: int, hi: int, k: int, k2: int, sep: char)
    requires
        0 <= lo <= k < k2 <= hi <= v.len(),
        forall|j: int| lo <= j < k ==> v[j] != sep,
        v[k] == sep,
        forall|j: int| k < j < k2 ==> v[j] != sep,
        k2 < hi ==> v[k2] == sep,
    ensures
        split_on(v.subrange(lo, hi), sep).len() > 1,
        split_on(v.subrange(lo, hi), sep)[1] == v.subrange(k + 1, k2),
    decreases k - lo,
{
    let x = v.subrange(lo, hi);
    assert(x.drop_first() =~= v.subrange(lo + 1, hi));
    lemma_split_on_nonempty(x.drop_first(), sep);
    if lo == k {
        lemma_split_first_piece(v, k + 1, hi, k2, sep);
    } else {
        lemma_split_second_piece(v, lo + 1, hi, k, k2, sep);
    }
}

/// The offset in seconds of a `+hh[:mm]` / `-hh[:mm]` suffix.
pub fn parse_tz_offset(s: &str) -> (r: Option<i64>)
    requires
        s@.len() >= 1,
        (s@[0] as u32) < 0x80,
        !tz_overflows(s@),
    ensures
        match tz_offset_secs(s@) {
            Some(x) => r == Some(x as i64),
            None => r is None,
        },
{
    let v = chars_of(s);
    assert(v@.subrange(0, v@.len() as int) =~= s@);
    match tz_eval(&v, 0, v.len()) {
        TzEval::Secs(x) => Some(x),
        _ => None,
    }
}

// ---------------------------------------------------------------------------
// ISO 8601 date-times
// ---------------------------------------------------------------------------

/// The input after trimming, with a trailing `Z` written as `+00:00`.
pub open spec fn iso_normalize(s: Seq<char>) -> Seq<char> {
    let t = trim(s);
    if t.len() > 0 && t.last() == 'Z' {
        t.drop_last() + seq!['+', '0', '0', ':', '0', '0']
    } else {
        t
    }
}

/// Where the time-zone suffix of the time part starts: at the last `+`, or else at
/// the last `-` when more than two bytes precede it.
pub open spec fn tz_start(time: Seq<char>) -> Option<int> {
    match last_index(time, '+') {
        Some(p) => Some(p),
        None => match last_index(time, '-') {
            Some(p) => if utf8_len(time.take(p)) > 2 {
                Some(p)
            } else {
                None
            },
            None => None,
        },
    }
}

/// What reading `s` as an ISO 8601 / RFC 3339 date-time gives: `None` where the
/// 64-bit arithmetic of the reader overflows or its month table is indexed past its
/// end; `Some(None)` where the text is rejected; `Some(Some(ms))` with the Unix time
/// in milliseconds otherwise.
pub open spec fn iso8601_eval(s: Seq<char>) -> Option<Option<int>> {
    let n = iso_normalize(s);
    let t = first_index(n, 'T');
    if t >= n.len() {
        Some(None)
    } else {
        let date = parsed_u32s(split_on(n.take(t), '-'));
        let time = n.skip(t + 1);
        if date.len() != 3 {
            Some(None)
        } else {
            let p = tz_start(time);
            let overflow = match p {
                Some(p) => tz_overflows(time.skip(p)),
                None => false,
            };
            let tz = match p {
                Some(p) => tz_offset_secs(time.skip(p)),
                None => Some(0),
            };
            if overflow {
                None
            } else if tz is None {
                Some(None)
            } else {
                let main = match p {
                    Some(p) => time.take(p),
                    None => time,
                };
                let clock = parsed_u32s(split_on(main.take(first_index(main, '.')), ':'));
                if clock.len() < 2 {
                    Some(None)
                } else if date[1] > 13 {
                    None
                } else {
                    let year = date[0] as int;
                    let days = days_before_year(year) + days_before_month(
                        date[1] as int,
                        is_leap_year(year),
                    ) + date[2] - 1;
                    let sec: int = if clock.len() > 2 {
                        clock[2] as int
                    } else {
                        0
                    };
                    let unix = days * 86400 + clock[0] * 3600 + clock[1] * 60 + sec - tz->0;
                    if in_i64(unix) && in_i64(unix * 1000) {
                        Some(Some(unix * 1000))
                    } else {
                        None
                    }
                }
            }
        }
    }
}

/// Whether reading `s` overflows (see [`iso8601_eval`]).
pub open spec fn iso8601_overflows(s: Seq<char>) -> bool {
    iso8601_eval(s) is None
}

/// Unix milliseconds of `s`, when it is accepted.
pub open spec fn iso8601_millis(s: Seq<char>) -> Option<int> {
    match iso8601_eval(s) {
        Some(r) => r,
        None => None,
    }
}

pub enum IsoEval {
    Overflow,
    Rejected,
    Millis(i64),
}

proof fn lemma_days_before_year_bound(y: int)
    ensures
        0 <= days_before_year(y) <= 366 * (if y > 1970 {
            y - 1970
        } else {
            0
        }),
    decreases y - 1970,
{
    if y > 1970 {
        lemma_days_before_year_bound(y - 1);
    }
}

proof fn lemma_days_before_month_bound(m: int, leap: bool)
    ensures
        0 <= days_before_month(m, leap) <= 31 * (if m > 1 {
            m - 1
        } else {
            0
        }),
    decreases m,
{
    if m > 1 {
        lemma_days_before_month_bound(m - 1, leap);
    }
}

/// Days from 1970 to the start of `year` (none before 1970), by counting years.
fn days_before(year: i64) -> (r: i64)
    requires
        0 <= year <= u32::MAX,
    ensures
        r == days_before_year(year as int),
{
    let mut days: i64 = 0;
    let mut y: i64 = 1970;
    while y < year
        invariant
            1970 <= y,
            y <= year || year < 1970,
            year <= u32::MAX,
            days == days_before_year(y as int),
            0 <= days <= 366 * (y - 1970),
            year < 1970 ==> y == 1970,
        decreases year - y,
    {
        days += if is_leap(y) {
            366
        } else {
            365
        };
        y += 1;
    }
    if year < 1970 {
        assert(y == 1970);
    }
    days
}

/// Days of the months of a year before `month` (at most 13).
fn days_before_month_exec(month: u32, leap: bool) -> (r: i64)
    requires
        month <= 13,
    ensures
        r == days_before_month(month as int, leap),
{
    let month_days: [i64; 13] = [0, 31, 28, 31, 30, 31, 30, 31, 31, 30, 31, 30, 31];
    let mut days: i64 = 0;
    let mut m: u32 = 1;
    while m < month
        invariant
            1 <= m,
            m <= month || month < 1,
            month <= 13,
            month_days@ == seq![0i64, 31, 28, 31, 30, 31, 30, 31, 31, 30, 31, 30, 31],
            days == days_before_month(m as int, leap),
            0 <= days <= 31 * (m - 1),
            month < 1 ==> m == 1,
        decreases month - m,
    {
        days += month_days[m as usize];
        if m == 2 && leap {
            days += 1;
        }
        m += 1;
    }
    if month < 1 {
        assert(m == 1);
    }
    days
}

fn normalize(s: &str) -> (n: Vec<char>)
    ensures
        n@ == iso_normalize(s@),
{
    let v = chars_of(s);
    let (lo, hi) = trim_bounds(&v);
    let mut n: Vec<char> = Vec::new();
    if hi > lo && v[hi - 1] == 'Z' {
        push_range(&mut n, &v, lo, hi - 1);
        n.push('+');
        n.push('0');
        n.push('0');
        n.push(':');
        n.push('0');
        n.push('0');
        assert(n@ =~= iso_normalize(s@));
    } else {
        push_range(&mut n, &v, lo, hi);
        assert(n@ =~= iso_normalize(s@));
    }
    n
}

/// Where, inside `n`, the offset of the time part `n[ts..len]` starts.
fn find_tz_start(n: &Vec<char>, ts: usize) -> (p: Option<usize>)
    requires
        ts <= n@.len(),
    ensures
        match p {
            Some(q) => ts <= q < n@.len() && tz_start(n@.skip(ts as int)) == Some(q - ts),
            None => tz_start(n@.skip(ts as int)) is None,
        },
{
    let len = n.len();
    let ghost time = n@.skip(ts as int);
    assert(time =~= n@.subrange(ts as int, len as int));
    match rfind_char(n, ts, len, '+') {
        Some(p) => {
            proof {
                lemma_last_index_some(time, '+', p - ts);
            }
            Some(p)
        },
        None => {
            proof {
                lemma_last_index_none(time, '+');
            }
            match rfind_char(n, ts, len, '-') {
                Some(p) => {
                    proof {
                        lemma_last_index_some(time, '-', p - ts);
                        assert(time.take(p - ts) =~= n@.subrange(ts as int, p as int));
                    }
                    if utf8_range_longer_than(n, ts, p, 2) {
                        Some(p)
                    } else {
                        None
                    }
                },
                None => {
                    proof {
                        lemma_last_index_none(time, '-');
                    }
                    None
                },
            }
        },
    }
}

/// The clock fields of the time part `n[ts..main_end]` (before any fraction).
fn clock_fields(n: &Vec<char>, ts: usize, main_end: usize) -> (r: Vec<u32>)
    requires
        ts <= main_end <= n@.len(),
    ensures
        ({
            let main = n@.subrange(ts as int, main_end as int);
            r@ == parsed_u32s(split_on(main.take(first_index(main, '.')), ':'))
        }),
{
    let ghost main = n@.subrange(ts as int, main_end as int);
    let dot_end = match find_char(n, ts, main_end, '.') {
        Some(d) => {
            proof {
                lemma_first_index(main, '.', d - ts);
            }
            d
        },
        None => {
            proof {
                lemma_first_index(main, '.', main.len() as int);
            }
            main_end
        },
    };
    assert(main.take(first_index(main, '.')) =~= n@.subrange(ts as int, dot_end as int));
    parse_u32_pieces(n, ts, dot_end, ':')
}

/// The final arithmetic of a date-time reading.
fn millis_of(date: &Vec<u32>, clock: &Vec<u32>, tz: i64) -> (r: IsoEval)
    requires
        date@.len() == 3,
        clock@.len() >= 2,
    ensures
        ({
            let year = date@[0] as int;
            if date@[1] > 13 {
                r is Overflow
            } else {
                let days = days_before_year(year) + days_before_month(
                    date@[1] as int,
                    is_leap_year(year),
                ) + date@[2] - 1;
                let sec: int = if clock@.len() > 2 {
                    clock@[2] as int
                } else {
                    0
                };
                let unix = days * 86400 + clock@[0] * 3600 + clock@[1] * 60 + sec - tz;
                if in_i64(unix) && in_i64(unix * 1000) {
                    r == IsoEval::Millis((unix * 1000) as i64)
                } else {
                    r is Overflow
                }
            }
        }),
{
    let year = date[0] as i64;
    let month = date[1];
    let day = date[2] as i64;
    if month > 13 {
        return IsoEval::Overflow;
    }
    let leap = is_leap(year);
    let dy = days_before(year);
    let dm = days_before_month_exec(month, leap);
    proof {
        lemma_days_before_year_bound(year as int);
        lemma_days_before_month_bound(month as int, leap);
    }
    let days = dy + dm + day - 1;
    let hour = clock[0] as i128;
    let min = clock[1] as i128;
    let sec: i128 = if clock.len() > 2 {
        clock[2] as i128
    } else {
        0
    };
    let unix: i128 = (days as i128) * 86400 + hour * 3600 + min * 60 + sec - (tz as i128);
    if unix < i64::MIN as i128 || unix > i64::MAX as i128 {
        return IsoEval::Overflow;
    }
    let ms = unix * 1000;
    if ms < i64::MIN as i128 || ms > i64::MAX as i128 {
        return IsoEval::Overflow;
    }
    IsoEval::Millis(ms as i64)
}

#[verifier::rlimit(30)]
fn iso_eval(s: &str) -> (r: IsoEval)
    ensures
        match r {
            IsoEval::Overflow => iso8601_eval(s@) is None,
            IsoEval::Rejected => iso8601_eval(s@) == Some(None::<int>),
            IsoEval::Millis(x) => iso8601_eval(s@) == Some(Some(x as int)),
        },
{
    let n = normalize(s);
    let len = n.len();
    let t = match find_char(&n, 0, len, 'T') {
        Some(t) => t,
        None => {
            proof {
                lemma_first_index(n@, 'T', len as int);
            }
            return IsoEval::Rejected;
        },
    };
    proof {
        lemma_first_index(n@, 'T', t as int);
        assert(n@.take(t as int) =~= n@.subrange(0, t as int));
    }
    let date = parse_u32_pieces(&n, 0, t, '-');
    if date.len() != 3 {
        return IsoEval::Rejected;
    }
    let ts = t + 1;
    let ghost time = n@.skip(ts as int);
    let p = find_tz_start(&n, ts);
    let tz: i64 = match p {
        Some(q) => {
            assert(time.skip(q - ts) =~= n@.subrange(q as int, len as int));
            match tz_eval(&n, q, len) {
                TzEval::Overflow => {
                    return IsoEval::Overflow;
                },
                TzEval::Invalid => {
                    return IsoEval::Rejected;
                },
                TzEval::Secs(x) => x,
            }
        },
        None => 0,
    };
    let main_end = match p {
        Some(q) => q,
        None => len,
    };
    assert(n@.subrange(ts as int, main_end as int) =~= (match tz_start(time) {
        Some(q) => time.take(q),
        None => time,
    }));
    let clock = clock_fields(&n, ts, main_end);
    if clock.len() < 2 {
        return IsoEval::Rejected;
    }
    millis_of(&date, &clock, tz)
}

/// Whether reading `s` as a date-time would overflow 64-bit arithmetic, so that
/// [`parse_iso8601_millis`] cannot take it.
pub fn iso8601_overflows_exec(s: &str) -> (r: bool)
    ensures
        r == iso8601_overflows(s@),
{
    match iso_eval(s) {
        IsoEval::Overflow => true,
        _ => false,
    }
}

/// Parses an ISO 8601 / RFC 3339 date-time (such as `2025-01-15T10:30:00Z` or
/// `2025-01-15T10:30:00.5+05:30`) to Unix milliseconds.
pub fn parse_iso8601_millis(s: &str) -> (r: Option<i64>)
    requires
        !iso8601_overflows(s@),
    ensures
        match iso8601_millis(s@) {
            Some(x) => r == Some(x as i64),
            None => r is None,
        },
{
    match iso_eval(s) {
        IsoEval::Millis(x) => Some(x),
        _ => None,
    }
}

} // verus!
