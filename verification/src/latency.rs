//! A latency histogram in fixed microsecond buckets, in Prometheus text format.
//!
//! Every observation counts in each bucket whose bound it does not exceed, and the
//! exposition then adds the buckets up; counters wrap on overflow.
use vstd::prelude::*;
use vstd::string::*;
use crate::text::{copy_str, decimal, u64_to_string};

verus! {

broadcast use vstd::string::group_string_axioms;

/// The upper bound of bucket `i`, in microseconds (0.1 ms to 500 ms).
pub open spec fn bucket_bound(i: int) -> u64 {
    if i == 0 {
        100
    } else if i == 1 {
        250
    } else if i == 2 {
        500
    } else if i == 3 {
        1_000
    } else if i == 4 {
        2_500
    } else if i == 5 {
        5_000
    } else if i == 6 {
        10_000
    } else if i == 7 {
        25_000
    } else if i == 8 {
        50_000
    } else if i == 9 {
        100_000
    } else if i == 10 {
        250_000
    } else {
        500_000
    }
}

/// The number of buckets.
pub const BUCKET_COUNT: usize = 12;

/// The upper bound of bucket `i`, in microseconds.
pub fn bound_of(i: usize) -> (b: u64)
    requires
        i < BUCKET_COUNT,
    ensures
        b == bucket_bound(i as int),
{
    if i == 0 {
        100
    } else if i == 1 {
        250
    } else if i == 2 {
        500
    } else if i == 3 {
        1_000
    } else if i == 4 {
        2_500
    } else if i == 5 {
        5_000
    } else if i == 6 {
        10_000
    } else if i == 7 {
        25_000
    } else if i == 8 {
        50_000
    } else if i == 9 {
        100_000
    } else if i == 10 {
        250_000
    } else {
        500_000
    }
}

/// `s` with zeros in front up to `width` characters.
pub open spec fn zero_pad(s: Seq<char>, width: nat) -> Seq<char> {
    if s.len() >= width {
        s
    } else {
        Seq::new((width - s.len()) as nat, |i: int| '0') + s
    }
}

/// A count of microseconds written as seconds with six decimals (`{:.6}`).
pub open spec fn seconds6(us: nat) -> Seq<char> {
    decimal(us / 1_000_000) + "."@ + zero_pad(decimal(us % 1_000_000), 6)
}

/// Appends `us` microseconds as seconds with six decimals.
fn push_seconds6(out: &mut String, us: u64)
    ensures
        final(out)@ == old(out)@ + seconds6(us as nat),
{
    let whole = u64_to_string(us / 1_000_000);
    out.append(whole.as_str());
    out.append(".");
    let frac = u64_to_string(us % 1_000_000);
    let mut pad: Vec<char> = Vec::new();
    let n = frac.unicode_len();
    let mut k: usize = n;
    while k < 6
        invariant
            n <= k <= 6 || (n > 6 && k == n),
            pad@ == Seq::new((k - n) as nat, |i: int| '0'),
        decreases 6 - k,
    {
        pad.push('0');
        k += 1;
        assert(pad@ =~= Seq::new((k - n) as nat, |i: int| '0'));
    }
    let p = crate::text::string_from_chars(&pad);
    out.append(p.as_str());
    out.append(frac.as_str());
    proof {
        if n >= 6 {
            assert(pad@ =~= Seq::<char>::empty());
        }
        assert(p@ + frac@ =~= zero_pad(frac@, 6));
    }
}

/// The state of a histogram, as its contracts see it.
pub struct HistogramModel {
    pub buckets: Seq<u64>,
    pub count: u64,
    pub sum_us: u64,
}

impl HistogramModel {
    /// The state after observing a latency of `us` microseconds.
    pub open spec fn observe(self, us: u64) -> HistogramModel {
        HistogramModel {
            buckets: Seq::new(
                self.buckets.len(),
                |i: int|
                    if us <= bucket_bound(i) {
                        self.buckets[i].wrapping_add(1)
                    } else {
                        self.buckets[i]
                    },
            ),
            count: self.count.wrapping_add(1),
            sum_us: self.sum_us.wrapping_add(us),
        }
    }
}

/// The bucket lines of the exposition for the first `n` buckets: each `le` line gives the
/// number of observations at most that bound, which the bucket already holds.
pub open spec fn bucket_lines(name: Seq<char>, b: Seq<u64>, n: int) -> Seq<char>
    decreases n,
{
    if n <= 0 {
        Seq::empty()
    } else {
        bucket_lines(name, b, n - 1) + name + "_bucket{le=\""@ + seconds6(
            bucket_bound(n - 1) as nat,
        ) + "\"} "@ + decimal(b[n - 1] as nat) + "\n"@
    }
}

/// The Prometheus text of a histogram.
pub open spec fn exposition(name: Seq<char>, help: Seq<char>, m: HistogramModel) -> Seq<char> {
    "# HELP "@ + name + " "@ + help + "\n"@ + "# TYPE "@ + name + " histogram\n"@ + bucket_lines(
        name,
        m.buckets,
        12,
    ) + name + "_bucket{le=\"+Inf\"} "@ + decimal(m.count as nat) + "\n"@ + name + "_sum "@
        + seconds6(m.sum_us as nat) + "\n"@ + name + "_count "@ + decimal(m.count as nat)
        + "\n"@
}

/// A latency histogram.
pub struct Histogram {
    name: String,
    help: String,
    buckets: Vec<u64>,
    count: u64,
    sum_us: u64,
}

impl View for Histogram {
    type V = HistogramModel;

    closed spec fn view(&self) -> HistogramModel {
        HistogramModel { buckets: self.buckets@, count: self.count, sum_us: self.sum_us }
    }
}

/// A measurement under way: when it started, in microseconds on the wall clock.
pub struct Timer {
    pub start_us: u64,
}

/// Microseconds since the Unix epoch on the machine's clock (0 for a clock set before
/// it; the count is cut to 64 bits). Nothing is promised of the value.
fn now_micros() -> u64 {
    match crate::clock::now_since_epoch() {
        Some(d) => {
            let us = crate::clock::duration_micros(&d);
            #[verifier::truncate]
            (us as u64)
        },
        None => 0,
    }
}

impl Histogram {
    pub closed spec fn spec_name(&self) -> Seq<char> {
        self.name@
    }

    pub closed spec fn spec_help(&self) -> Seq<char> {
        self.help@
    }

    pub fn new(name: &str, help: &str) -> (h: Histogram)
        ensures
            h@.buckets == Seq::new(12, |i: int| 0u64),
            h@.count == 0,
            h@.sum_us == 0,
            h.spec_name() == name@,
            h.spec_help() == help@,
    {
        let mut buckets: Vec<u64> = Vec::new();
        let mut i: usize = 0;
        while i < BUCKET_COUNT
            invariant
                i <= BUCKET_COUNT,
                buckets@ == Seq::new(i as nat, |j: int| 0u64),
            decreases BUCKET_COUNT - i,
        {
            buckets.push(0);
            i += 1;
            assert(buckets@ =~= Seq::new(i as nat, |j: int| 0u64));
        }
        Histogram { name: copy_str(name), help: copy_str(help), buckets, count: 0, sum_us: 0 }
    }

    /// Records a latency of `us` microseconds.
    pub fn observe_us(&mut self, us: u64)
        requires
            old(self)@.buckets.len() == 12,
        ensures
            final(self)@ == old(self)@.observe(us),
            final(self).spec_name() == old(self).spec_name(),
            final(self).spec_help() == old(self).spec_help(),
    {
        self.count = self.count.wrapping_add(1);
        self.sum_us = self.sum_us.wrapping_add(us);
        let ghost b0 = self.buckets@;
        let mut i: usize = 0;
        while i < BUCKET_COUNT
            invariant
                i <= BUCKET_COUNT,
                b0 == old(self)@.buckets,
                self.count == old(self)@.count.wrapping_add(1),
                self.sum_us == old(self)@.sum_us.wrapping_add(us),
                self.name == old(self).name,
                self.help == old(self).help,
                b0.len() == 12,
                self.buckets@.len() == 12,
                forall|j: int|
                    0 <= j < i ==> self.buckets@[j] == (if us <= bucket_bound(j) {
                        b0[j].wrapping_add(1)
                    } else {
                        b0[j]
                    }),
                forall|j: int| i <= j < 12 ==> self.buckets@[j] == b0[j],
            decreases BUCKET_COUNT - i,
        {
            if us <= bound_of(i) {
                let v = self.buckets[i].wrapping_add(1);
                self.buckets.set(i, v);
            }
            i += 1;
        }
        assert(self.buckets@ =~= old(self)@.observe(us).buckets);
    }

    /// Starts a measurement on the wall clock.
    pub fn start_timer(&self) -> (t: Timer) {
        Timer { start_us: now_micros() }
    }

    /// Records the time since `start` was taken, measured on the wall clock (0 if the
    /// clock went back).
    pub fn observe_since(&mut self, start: Timer)
        requires
            old(self)@.buckets.len() == 12,
        ensures
            exists|us: u64| final(self)@ == old(self)@.observe(us),
    {
        let now = now_micros();
        let elapsed = if now >= start.start_us {
            now - start.start_us
        } else {
            0
        };
        self.observe_us(elapsed);
    }

    /// The number of observations.
    pub fn count(&self) -> (n: u64)
        ensures
            n == self@.count,
    {
        self.count
    }

    /// The sum of the observed latencies, in microseconds.
    pub fn sum_us(&self) -> (n: u64)
        ensures
            n == self@.sum_us,
    {
        self.sum_us
    }

    /// The count held in bucket `i`.
    pub fn bucket(&self, i: usize) -> (n: u64)
        requires
            i < self@.buckets.len(),
        ensures
            n == self@.buckets[i as int],
    {
        self.buckets[i]
    }

    /// Appends the histogram in Prometheus text format to `out`.
    pub fn format_prometheus(&self, out: &mut String)
        requires
            self@.buckets.len() == 12,
        ensures
            final(out)@ == old(out)@ + exposition(self.spec_name(), self.spec_help(), self@),
    {
        let name = self.name.as_str();
        out.append("# HELP ");
        out.append(name);
        out.append(" ");
        out.append(self.help.as_str());
        out.append("\n");
        out.append("# TYPE ");
        out.append(name);
        out.append(" histogram\n");
        let ghost start = out@;
        let mut i: usize = 0;
        while i < BUCKET_COUNT
            invariant
                i <= BUCKET_COUNT,
                self@.buckets.len() == 12,
                out@ == start + bucket_lines(self.name@, self@.buckets, i as int),
                name@ == self.name@,
            decreases BUCKET_COUNT - i,
        {
            out.append(name);
            out.append("_bucket{le=\"");
            push_seconds6(out, bound_of(i));
            out.append("\"} ");
            let c = u64_to_string(self.buckets[i]);
            out.append(c.as_str());
            out.append("\n");
            i += 1;
            proof {
                assert(out@ =~= start + bucket_lines(self.name@, self@.buckets, i as int));
            }
        }
        out.append(name);
        out.append("_bucket{le=\"+Inf\"} ");
        let c = u64_to_string(self.count);
        out.append(c.as_str());
        out.append("\n");
        out.append(name);
        out.append("_sum ");
        push_seconds6(out, self.sum_us);
        out.append("\n");
        out.append(name);
        out.append("_count ");
        let c2 = u64_to_string(self.count);
        out.append(c2.as_str());
        out.append("\n");
        proof {
            assert(out@ =~= old(out)@ + exposition(self.spec_name(), self.spec_help(), self@));
        }
    }
}


/// An observation counts in every bucket whose bound it does not exceed and in no
/// other, and in the total count (away from wrapping).
pub proof fn lemma_observe_counts(m: HistogramModel, us: u64, i: int)
    requires
        m.buckets.len() == 12,
        0 <= i < 12,
        m.count < u64::MAX,
        m.buckets[i] < u64::MAX,
    ensures
        m.observe(us).count == m.count + 1,
        us <= bucket_bound(i) ==> m.observe(us).buckets[i] == m.buckets[i] + 1,
        us > bucket_bound(i) ==> m.observe(us).buckets[i] == m.buckets[i],
{
}

} // verus!
