use vstd::prelude::*;

verus! {

/// An exact fraction `num / den`; `den` is positive.
#[derive(Clone, Copy, Debug, PartialEq, Eq, Structural)]
pub struct Ratio {
    pub num: i128,
    pub den: u64,
}

/// Sum of the samples.
pub open spec fn sum_of(s: Seq<int>) -> int
    decreases s.len(),
{
    if s.len() == 0 {
        0
    } else {
        sum_of(s.drop_last()) + s.last()
    }
}

/// Sum of the squared samples.
pub open spec fn sum_sq_of(s: Seq<int>) -> int
    decreases s.len(),
{
    if s.len() == 0 {
        0
    } else {
        sum_sq_of(s.drop_last()) + s.last() * s.last()
    }
}

/// Smallest sample; meaningful for a non-empty sequence.
pub open spec fn min_of(s: Seq<int>) -> int
    decreases s.len(),
{
    if s.len() <= 1 {
        if s.len() == 1 { s[0] } else { 0 }
    } else if s.last() < min_of(s.drop_last()) {
        s.last()
    } else {
        min_of(s.drop_last())
    }
}

/// Largest sample; meaningful for a non-empty sequence.
pub open spec fn max_of(s: Seq<int>) -> int
    decreases s.len(),
{
    if s.len() <= 1 {
        if s.len() == 1 { s[0] } else { 0 }
    } else if s.last() > max_of(s.drop_last()) {
        s.last()
    } else {
        max_of(s.drop_last())
    }
}

/// The mean of the samples: undefined without samples, the common value
/// itself when all samples are equal, otherwise sum over count.
pub open spec fn mean_of(s: Seq<int>) -> Option<Ratio> {
    if s.len() == 0 {
        None
    } else if min_of(s) == max_of(s) {
        Some(Ratio { num: min_of(s) as i128, den: 1 })
    } else {
        Some(Ratio { num: sum_of(s) as i128, den: s.len() as u64 })
    }
}

/// The sample variance `(sum_sq - sum^2 / n) / (n - 1)`, written over the
/// common denominator `n * (n - 1)`: undefined for fewer than two samples,
/// exactly zero when all samples are equal.
pub open spec fn variance_of(s: Seq<int>) -> Option<Ratio> {
    if s.len() < 2 {
        None
    } else if min_of(s) == max_of(s) {
        Some(Ratio { num: 0, den: 1 })
    } else {
        Some(
            Ratio {
                num: (s.len() * sum_sq_of(s) - sum_of(s) * sum_of(s)) as i128,
                den: (s.len() * (s.len() - 1)) as u64,
            },
        )
    }
}

/// Every sample fits in an `i32`.
pub open spec fn all_i32(s: Seq<int>) -> bool {
    forall|i: int| 0 <= i < s.len() ==> i32::MIN <= #[trigger] s[i] <= i32::MAX
}

proof fn lemma_sum_bounds(s: Seq<int>)
    requires
        all_i32(s),
    ensures
        s.len() * i32::MIN <= sum_of(s) <= s.len() * i32::MAX,
        0 <= sum_sq_of(s) <= s.len() * 0x4000_0000_0000_0000,
    decreases s.len(),
{
    if s.len() > 0 {
        let t = s.drop_last();
        assert(all_i32(t));
        lemma_sum_bounds(t);
        let x = s.last();
        assert(x * x <= 0x4000_0000_0000_0000) by (nonlinear_arith)
            requires
                i32::MIN <= x <= i32::MAX,
        ;
        assert(0 <= x * x) by (nonlinear_arith);
        assert(s.len() * i32::MIN == t.len() * i32::MIN + i32::MIN) by (nonlinear_arith)
            requires s.len() == t.len() + 1;
        assert(s.len() * i32::MAX == t.len() * i32::MAX + i32::MAX) by (nonlinear_arith)
            requires s.len() == t.len() + 1;
        assert(s.len() * 0x4000_0000_0000_0000 == t.len() * 0x4000_0000_0000_0000
            + 0x4000_0000_0000_0000) by (nonlinear_arith)
            requires s.len() == t.len() + 1;
    }
}

proof fn lemma_extrema_bound_sum(s: Seq<int>)
    requires
        s.len() >= 1,
    ensures
        min_of(s) <= max_of(s),
        min_of(s) * s.len() <= sum_of(s) <= max_of(s) * s.len(),
        forall|i: int| 0 <= i < s.len() ==> min_of(s) <= #[trigger] s[i] <= max_of(s),
    decreases s.len(),
{
    if s.len() == 1 {
        assert(sum_of(s.drop_last()) == 0);
        assert(sum_of(s) == s[0]);
    } else {
        let t = s.drop_last();
        lemma_extrema_bound_sum(t);
        let (lo, hi, x, n) = (min_of(t), max_of(t), s.last(), t.len());
        assert(min_of(s) * s.len() <= sum_of(s)) by (nonlinear_arith)
            requires
                lo * n <= sum_of(t),
                sum_of(s) == sum_of(t) + x,
                min_of(s) <= lo,
                min_of(s) <= x,
                s.len() == n + 1,
                n >= 1,
        ;
        assert(sum_of(s) <= max_of(s) * s.len()) by (nonlinear_arith)
            requires
                sum_of(t) <= hi * n,
                sum_of(s) == sum_of(t) + x,
                hi <= max_of(s),
                x <= max_of(s),
                s.len() == n + 1,
                n >= 1,
        ;
        assert forall|i: int| 0 <= i < s.len() implies min_of(s) <= #[trigger] s[i] <= max_of(s) by {
            if i < n {
                assert(s[i] == t[i]);
            }
        }
    }
}

/// `sum over t of (t_i - x)^2`, expanded, is never negative.
proof fn lemma_spread_around(t: Seq<int>, x: int)
    ensures
        sum_sq_of(t) - 2 * x * sum_of(t) + t.len() * x * x >= 0,
    decreases t.len(),
{
    if t.len() > 0 {
        let u = t.drop_last();
        let y = t.last();
        lemma_spread_around(u, x);
        assert(sum_sq_of(t) - 2 * x * sum_of(t) + t.len() * x * x == (sum_sq_of(u) - 2 * x
            * sum_of(u) + u.len() * x * x) + (y - x) * (y - x)) by (nonlinear_arith)
            requires
                sum_sq_of(t) == sum_sq_of(u) + y * y,
                sum_of(t) == sum_of(u) + y,
                t.len() == u.len() + 1,
        ;
        assert((y - x) * (y - x) >= 0) by (nonlinear_arith);
    }
}

proof fn lemma_variance_numerator_nonneg(s: Seq<int>)
    ensures
        s.len() * sum_sq_of(s) - sum_of(s) * sum_of(s) >= 0,
    decreases s.len(),
{
    if s.len() > 0 {
        let t = s.drop_last();
        let x = s.last();
        lemma_variance_numerator_nonneg(t);
        lemma_spread_around(t, x);
        assert(s.len() * sum_sq_of(s) - sum_of(s) * sum_of(s) == (t.len() * sum_sq_of(t) - sum_of(
            t,
        ) * sum_of(t)) + (sum_sq_of(t) - 2 * x * sum_of(t) + t.len() * x * x))
            by (nonlinear_arith)
            requires
                sum_sq_of(s) == sum_sq_of(t) + x * x,
                sum_of(s) == sum_of(t) + x,
                s.len() == t.len() + 1,
        ;
    }
}

proof fn lemma_constant_extrema(s: Seq<int>, v: int)
    requires
        s.len() >= 1,
        forall|i: int| 0 <= i < s.len() ==> #[trigger] s[i] == v,
    ensures
        min_of(s) == v,
        max_of(s) == v,
    decreases s.len(),
{
    if s.len() > 1 {
        let t = s.drop_last();
        assert forall|i: int| 0 <= i < t.len() implies #[trigger] t[i] == v by {
            assert(t[i] == s[i]);
        }
        lemma_constant_extrema(t, v);
    }
}

/// A running accumulator of integer samples. It keeps the count, the sum,
/// the sum of squares and the extrema, never the samples themselves.
pub struct SampleStatistics {
    max: i32,
    min: i32,
    samples: u32,
    sum: i64,
    sum_of_squares: u128,
    history: Ghost<Seq<int>>,
}

impl View for SampleStatistics {
    type V = Seq<int>;

    /// The samples ingested so far, oldest first.
    closed spec fn view(&self) -> Seq<int> {
        self.history@
    }
}

impl Default for SampleStatistics {
    /// An accumulator with no samples.
    fn default() -> (r: Self)
        ensures
            r.wf(),
            r@ == Seq::<int>::empty(),
    {
        SampleStatistics::new()
    }
}

impl SampleStatistics {
    /// The running totals agree with the samples ingested so far.
    pub closed spec fn wf(&self) -> bool {
        let h = self.history@;
        &&& all_i32(h)
        &&& h.len() == self.samples
        &&& self.sum == sum_of(h)
        &&& self.sum_of_squares == sum_sq_of(h)
        &&& h.len() == 0 ==> self.min == 0 && self.max == 0
        &&& h.len() > 0 ==> self.min == min_of(h) && self.max == max_of(h)
    }

    /// An accumulator with no samples.
    pub fn new() -> (r: Self)
        ensures
            r.wf(),
            r@ == Seq::<int>::empty(),
    {
        SampleStatistics {
            max: 0,
            min: 0,
            samples: 0,
            sum: 0,
            sum_of_squares: 0,
            history: Ghost(Seq::empty()),
        }
    }

    /// Number of samples ingested so far.
    pub fn count(&self) -> (r: u32)
        requires
            self.wf(),
        ensures
            r == self@.len(),
    {
        self.samples
    }

    /// Ingests one sample.
    pub fn put(&mut self, v: i32)
        requires
            old(self).wf(),
            old(self)@.len() < u32::MAX,
        ensures
            final(self).wf(),
            final(self)@ == old(self)@.push(v as int),
    {
        let ghost h = self.history@.push(v as int);
        assert(h.drop_last() =~= self.history@);
        proof {
            lemma_sum_bounds(h);
        }
        if self.samples == 0 {
            self.min = v;
            self.max = v;
        } else if self.min > v {
            self.min = v;
        } else if self.max < v {
            self.max = v;
        }
        assert(h.len() * i32::MIN >= 0xffff_ffff * i32::MIN) by (nonlinear_arith)
            requires h.len() <= 0xffff_ffff;
        assert(h.len() * i32::MAX <= 0xffff_ffff * i32::MAX) by (nonlinear_arith)
            requires h.len() <= 0xffff_ffff;
        assert(h.len() * 0x4000_0000_0000_0000 <= 0xffff_ffff * 0x4000_0000_0000_0000)
            by (nonlinear_arith)
            requires h.len() <= 0xffff_ffff;
        self.samples = self.samples + 1;
        self.sum = self.sum + v as i64;
        assert(0 <= (v as int) * (v as int) <= 0x4000_0000_0000_0000) by (nonlinear_arith)
            requires
                i32::MIN <= v <= i32::MAX,
        ;
        let sq: i64 = v as i64 * v as i64;
        assert(0 <= sq) by (nonlinear_arith)
            requires sq == v * v;
        self.sum_of_squares = self.sum_of_squares + sq as u128;
        self.history = Ghost(h);
    }

    /// The mean of the samples, `None` before the first one.
    pub fn mean(&self) -> (r: Option<Ratio>)
        requires
            self.wf(),
        ensures
            r == mean_of(self@),
    {
        if self.samples < 1 {
            None
        } else if self.min == self.max {
            Some(Ratio { num: self.min as i128, den: 1 })
        } else {
            Some(Ratio { num: self.sum as i128, den: self.samples as u64 })
        }
    }

    /// The sample variance, `None` before the second sample.
    pub fn variance(&self) -> (r: Option<Ratio>)
        requires
            self.wf(),
        ensures
            r == variance_of(self@),
    {
        if self.samples < 2 {
            None
        } else if self.min == self.max {
            Some(Ratio { num: 0, den: 1 })
        } else {
            let ghost h = self@;
            proof {
                lemma_sum_bounds(h);
            }
            let n: i128 = self.samples as i128;
            let total: i128 = self.sum as i128;
            let squares: i128 = self.sum_of_squares as i128;
            assert(0 <= n * squares <= 0x4000_0000_0000_0000_0000_0000_0000_0000)
                by (nonlinear_arith)
                requires
                    2 <= n <= 0xffff_ffff,
                    0 <= squares <= n * 0x4000_0000_0000_0000,
            ;
            assert(0 <= total * total <= 0x4000_0000_0000_0000_0000_0000_0000_0000)
                by (nonlinear_arith)
                requires
                    n <= 0xffff_ffff,
                    n * i32::MIN <= total <= n * i32::MAX,
            ;
            assert(0 < n * (n - 1) <= 0xffff_ffff_ffff_ffff) by (nonlinear_arith)
                requires
                    2 <= n <= 0xffff_ffff,
            ;
            let num: i128 = n * squares - total * total;
            let den: u64 = (n * (n - 1)) as u64;
            Some(Ratio { num, den })
        }
    }

    /// Largest sample, or 0 before any sample.
    pub fn max(&self) -> (r: i32)
        requires
            self.wf(),
        ensures
            self@.len() > 0 ==> r == max_of(self@),
            self@.len() == 0 ==> r == 0,
    {
        self.max
    }

    /// Smallest sample, or 0 before any sample.
    pub fn min(&self) -> (r: i32)
        requires
            self.wf(),
        ensures
            self@.len() > 0 ==> r == min_of(self@),
            self@.len() == 0 ==> r == 0,
    {
        self.min
    }
}

/// Once a sample has been ingested, the mean lies between the smallest and
/// the largest sample: `min <= num / den <= max`.
pub proof fn lemma_mean_within_extrema(st: &SampleStatistics)
    requires
        st.wf(),
        st@.len() >= 1,
    ensures
        mean_of(st@) is Some,
        min_of(st@) * mean_of(st@)->0.den <= mean_of(st@)->0.num <= max_of(st@) * mean_of(
            st@,
        )->0.den,
{
    let h = st@;
    lemma_extrema_bound_sum(h);
    lemma_sum_bounds(h);
    assert(h.len() * i32::MIN >= 0xffff_ffff * i32::MIN) by (nonlinear_arith)
        requires h.len() <= 0xffff_ffff;
    assert(h.len() * i32::MAX <= 0xffff_ffff * i32::MAX) by (nonlinear_arith)
        requires h.len() <= 0xffff_ffff;
}

/// With two samples or more the variance is defined and never negative.
pub proof fn lemma_variance_nonneg(st: &SampleStatistics)
    requires
        st.wf(),
        st@.len() >= 2,
    ensures
        variance_of(st@) is Some,
        variance_of(st@)->0.num >= 0,
        variance_of(st@)->0.den > 0,
{
    let h = st@;
    let n = h.len();
    lemma_variance_numerator_nonneg(h);
    lemma_sum_bounds(h);
    assert(0 <= n * sum_sq_of(h) <= 0x4000_0000_0000_0000_0000_0000_0000_0000)
        by (nonlinear_arith)
        requires
            2 <= n <= 0xffff_ffff,
            0 <= sum_sq_of(h) <= n * 0x4000_0000_0000_0000,
    ;
    assert(0 <= sum_of(h) * sum_of(h) <= 0x4000_0000_0000_0000_0000_0000_0000_0000)
        by (nonlinear_arith)
        requires
            n <= 0xffff_ffff,
            n * i32::MIN <= sum_of(h) <= n * i32::MAX,
    ;
    assert(0 < n * (n - 1) <= 0xffff_ffff_ffff_ffff) by (nonlinear_arith)
        requires
            2 <= n <= 0xffff_ffff,
    ;
}

/// When every sample equals `v`, the mean is exactly `v` and, from two
/// samples on, the variance is exactly zero, whatever the count.
pub proof fn lemma_constant_samples(st: &SampleStatistics, v: i32)
    requires
        st.wf(),
        st@.len() >= 1,
        forall|i: int| 0 <= i < st@.len() ==> #[trigger] st@[i] == v as int,
    ensures
        mean_of(st@) == Some(Ratio { num: v as i128, den: 1 }),
        st@.len() >= 2 ==> variance_of(st@) == Some(Ratio { num: 0, den: 1 }),
{
    lemma_constant_extrema(st@, v as int);
}

/// Without samples neither the mean nor the variance is defined; with one
/// sample the variance is still undefined.
pub proof fn lemma_undefined_cases(st: &SampleStatistics)
    requires
        st.wf(),
    ensures
        st@.len() == 0 ==> mean_of(st@) is None && variance_of(st@) is None,
        st@.len() == 1 ==> variance_of(st@) is None,
{
}

} // verus!
