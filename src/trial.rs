use crate::drain::btree_pop_first;
use crate::drain::btree_pop_last;
use crate::drain::btree_remove_next;
use crate::drain::btree_take_first;
use crate::drain::btree_take_next;
use crate::drain::btree_take_next_back;
use crate::drain::drained_one;
use crate::drain::hash_remove_next;
use crate::drain::hash_retain;
use crate::drain::hash_take_next;
use crate::stats::SampleStatistics;
use std::collections::BTreeMap;
use std::collections::BTreeSet;
use std::collections::HashSet;
use vstd::prelude::*;
use vstd::set::fold::lemma_fold_insert;
use vstd::set::fold::lemma_fold_empty;

verus! {

/// The sample recorded for a trial whose elapsed time could not be read:
/// minus 99.9 seconds, in microseconds, well outside any real measurement.
pub const CLOCK_FAILURE_SAMPLE: i32 = -99_900_000;

/// One way of taking a single element out of a set.
#[derive(Clone, Copy, Debug, PartialEq, Eq, Structural)]
pub enum Strategy {
    BtreeRemoveNext,
    BtreeTakeNext,
    BtreeTakeNextBack,
    BtreeTakeFirst,
    BtreePopFirst,
    BtreePopLast,
    HashRemoveNext,
    HashTakeNext,
    HashRetain,
}

impl Strategy {
    /// The strategy works on a `BTreeSet` (otherwise on a `HashSet`).
    pub open spec fn spec_on_btree(self) -> bool {
        match self {
            Strategy::HashRemoveNext | Strategy::HashTakeNext | Strategy::HashRetain => false,
            _ => true,
        }
    }

    /// Position of the strategy in the registry.
    pub open spec fn spec_index(self) -> u32 {
        match self {
            Strategy::BtreeRemoveNext => 0,
            Strategy::BtreeTakeNext => 1,
            Strategy::BtreeTakeNextBack => 2,
            Strategy::BtreeTakeFirst => 3,
            Strategy::BtreePopFirst => 4,
            Strategy::BtreePopLast => 5,
            Strategy::HashRemoveNext => 6,
            Strategy::HashTakeNext => 7,
            Strategy::HashRetain => 8,
        }
    }

    /// The strategy's name, as reported.
    pub open spec fn spec_name(self) -> Seq<char> {
        match self {
            Strategy::BtreeRemoveNext => "btree_remove_next"@,
            Strategy::BtreeTakeNext => "btree_take_next"@,
            Strategy::BtreeTakeNextBack => "btree_take_next_back"@,
            Strategy::BtreeTakeFirst => "btree_take_first"@,
            Strategy::BtreePopFirst => "btree_pop_first"@,
            Strategy::BtreePopLast => "btree_pop_last"@,
            Strategy::HashRemoveNext => "hash_remove_next"@,
            Strategy::HashTakeNext => "hash_take_next"@,
            Strategy::HashRetain => "hash_retain"@,
        }
    }

    /// The strategy's name, as reported.
    pub fn name(&self) -> (r: &'static str)
        ensures
            r@ == self.spec_name(),
    {
        match self {
            Strategy::BtreeRemoveNext => "btree_remove_next",
            Strategy::BtreeTakeNext => "btree_take_next",
            Strategy::BtreeTakeNextBack => "btree_take_next_back",
            Strategy::BtreeTakeFirst => "btree_take_first",
            Strategy::BtreePopFirst => "btree_pop_first",
            Strategy::BtreePopLast => "btree_pop_last",
            Strategy::HashRemoveNext => "hash_remove_next",
            Strategy::HashTakeNext => "hash_take_next",
            Strategy::HashRetain => "hash_retain",
        }
    }

    /// The strategy works on a `BTreeSet` (otherwise on a `HashSet`).
    pub fn on_btree(&self) -> (r: bool)
        ensures
            r == self.spec_on_btree(),
    {
        match self {
            Strategy::HashRemoveNext | Strategy::HashTakeNext | Strategy::HashRetain => false,
            _ => true,
        }
    }

    /// Position of the strategy in the registry; it keys the results.
    pub fn index(&self) -> (r: u32)
        ensures
            r == self.spec_index(),
    {
        match self {
            Strategy::BtreeRemoveNext => 0,
            Strategy::BtreeTakeNext => 1,
            Strategy::BtreeTakeNextBack => 2,
            Strategy::BtreeTakeFirst => 3,
            Strategy::BtreePopFirst => 4,
            Strategy::BtreePopLast => 5,
            Strategy::HashRemoveNext => 6,
            Strategy::HashTakeNext => 7,
            Strategy::HashRetain => 8,
        }
    }

    /// Takes one element out of a `BTreeSet` with this strategy.
    pub fn drain_one_btree(&self, s: &mut BTreeSet<i32>) -> (r: Option<i32>)
        requires
            self.spec_on_btree(),
        ensures
            drained_one(old(s)@, final(s)@, r),
    {
        match self {
            Strategy::BtreeRemoveNext => btree_remove_next(s),
            Strategy::BtreeTakeNext => btree_take_next(s),
            Strategy::BtreeTakeNextBack => btree_take_next_back(s),
            Strategy::BtreeTakeFirst => btree_take_first(s),
            Strategy::BtreePopFirst => btree_pop_first(s),
            _ => btree_pop_last(s),
        }
    }

    /// Takes one element out of a `HashSet` with this strategy.
    pub fn drain_one_hash(&self, s: &mut HashSet<i32>) -> (r: Option<i32>)
        requires
            !self.spec_on_btree(),
        ensures
            drained_one(old(s)@, final(s)@, r),
    {
        match self {
            Strategy::HashRemoveNext => hash_remove_next(s),
            Strategy::HashTakeNext => hash_take_next(s),
            _ => hash_retain(s),
        }
    }
}

/// The integers `0, 1, ..., n - 1`.
pub open spec fn range_set(n: int) -> Set<i32> {
    Set::new(|x: i32| 0 <= x < n)
}

pub open spec fn add_elt() -> spec_fn(int, i32) -> int {
    |acc: int, x: i32| acc + x
}

/// Sum of the members of a finite set.
pub open spec fn set_sum(s: Set<i32>) -> int {
    s.fold(0int, add_elt())
}

/// `0 + 1 + ... + (n - 1)`.
pub open spec fn triangle(n: int) -> int {
    n * (n - 1) / 2
}

proof fn lemma_add_elt_commutes()
    ensures
        vstd::set::fold::is_fun_commutative(add_elt()),
{
}

proof fn lemma_sum_remove(s: Set<i32>, x: i32)
    requires
        s.finite(),
        s.contains(x),
    ensures
        set_sum(s) == set_sum(s.remove(x)) + x,
{
    lemma_add_elt_commutes();
    lemma_fold_insert(s.remove(x), 0int, add_elt(), x);
    assert(s.remove(x).insert(x) =~= s);
}

/// The freshly built set `0..n` is finite and its members sum to
/// `n * (n - 1) / 2`: a trial that extracts each member exactly once
/// arrives at that total.
pub proof fn lemma_range_sum(n: i32)
    requires
        n >= 0,
    ensures
        range_set(n as int).finite(),
        range_set(n as int).len() == n,
        set_sum(range_set(n as int)) == triangle(n as int),
    decreases n,
{
    if n == 0 {
        assert(range_set(0) =~= Set::<i32>::empty());
        lemma_fold_empty(0int, add_elt());
    } else {
        let m = (n - 1) as i32;
        lemma_range_sum(m);
        assert(range_set(n as int) =~= range_set(m as int).insert(m));
        assert(range_set(n as int).remove(m) =~= range_set(m as int));
        lemma_sum_remove(range_set(n as int), m);
        assert(triangle(n as int) == triangle(m as int) + m) by (nonlinear_arith)
            requires
                n == m + 1,
        ;
    }
}

/// Builds the `BTreeSet` of `0..n`.
pub fn build_btree(n: i32) -> (s: BTreeSet<i32>)
    requires
        n >= 0,
    ensures
        s@ == range_set(n as int),
        s@.finite(),
        s@.len() == n,
{
    proof {
        lemma_range_sum(n);
    }
    let mut s: BTreeSet<i32> = BTreeSet::new();
    let mut i: i32 = 0;
    while i < n
        invariant
            0 <= i <= n,
            s@ == range_set(i as int),
            s@.finite(),
        decreases n - i,
    {
        s.insert(i);
        assert(s@ =~= range_set(i + 1));
        i = i + 1;
    }
    s
}

/// Builds the `HashSet` of `0..n`.
pub fn build_hash(n: i32) -> (s: HashSet<i32>)
    requires
        n >= 0,
    ensures
        s@ == range_set(n as int),
        s@.finite(),
        s@.len() == n,
{
    proof {
        lemma_range_sum(n);
    }
    let mut s: HashSet<i32> = HashSet::new();
    let mut i: i32 = 0;
    while i < n
        invariant
            0 <= i <= n,
            s@ == range_set(i as int),
            s@.finite(),
        decreases n - i,
    {
        s.insert(i);
        assert(s@ =~= range_set(i + 1));
        i = i + 1;
    }
    s
}

/// Empties a `BTreeSet` with the strategy, one element at a time, and
/// returns the sum of what came out.
pub fn drain_btree(strategy: Strategy, s: &mut BTreeSet<i32>) -> (total: i128)
    requires
        strategy.spec_on_btree(),
        old(s)@.finite(),
    ensures
        final(s)@ == Set::<i32>::empty(),
        total == set_sum(old(s)@),
{
    let ghost start = s@;
    let len: usize = s.len();
    let mut total: i128 = 0;
    let ghost mut taken: int = 0;
    loop
        invariant_except_break
            strategy.spec_on_btree(),
            s@.finite(),
            taken + s@.len() == start.len(),
            start.len() == len,
            total + set_sum(s@) == set_sum(start),
            -taken * 0x8000_0000 <= total <= taken * 0x8000_0000,
            0 <= taken,
        ensures
            s@ == Set::<i32>::empty(),
            total == set_sum(start),
        decreases s@.len(),
    {
        let ghost before = s@;
        match strategy.drain_one_btree(s) {
            None => {
                proof {
                    lemma_fold_empty(0int, add_elt());
                }
                break;
            },
            Some(x) => {
                proof {
                    lemma_sum_remove(before, x);
                }
                total = total + x as i128;
                proof {
                    taken = taken + 1;
                }
            },
        }
    }
    total
}

/// Empties a `HashSet` with the strategy, one element at a time, and
/// returns the sum of what came out.
pub fn drain_hash(strategy: Strategy, s: &mut HashSet<i32>) -> (total: i128)
    requires
        !strategy.spec_on_btree(),
        old(s)@.finite(),
    ensures
        final(s)@ == Set::<i32>::empty(),
        total == set_sum(old(s)@),
{
    let ghost start = s@;
    let len: usize = s.len();
    let mut total: i128 = 0;
    let ghost mut taken: int = 0;
    loop
        invariant_except_break
            !strategy.spec_on_btree(),
            s@.finite(),
            taken + s@.len() == start.len(),
            start.len() == len,
            total + set_sum(s@) == set_sum(start),
            -taken * 0x8000_0000 <= total <= taken * 0x8000_0000,
            0 <= taken,
        ensures
            s@ == Set::<i32>::empty(),
            total == set_sum(start),
        decreases s@.len(),
    {
        let ghost before = s@;
        match strategy.drain_one_hash(s) {
            None => {
                proof {
                    lemma_fold_empty(0int, add_elt());
                }
                break;
            },
            Some(x) => {
                proof {
                    lemma_sum_remove(before, x);
                }
                total = total + x as i128;
                proof {
                    taken = taken + 1;
                }
            },
        }
    }
    total
}

/// Why a trial's result cannot be recorded.
#[derive(Clone, Copy, Debug, PartialEq, Eq, Structural)]
pub enum TrialError {
    /// The freshly built set of `0..size` holds `len` elements.
    WrongSize { size: i32, len: usize },
    /// The set still holds elements after draining.
    NotDrained { left: usize },
    /// The extracted values do not add up to `0 + 1 + ... + (n - 1)`.
    WrongSum { expected: i128, found: i128 },
}

/// Checks a freshly built set of `0..n`: it must hold `n` elements.
pub fn check_built(n: i32, len: usize) -> (r: Result<(), TrialError>)
    requires
        n >= 0,
    ensures
        len == n ==> r is Ok,
        len != n ==> r == Err::<(), TrialError>(TrialError::WrongSize { size: n, len }),
{
    if len as i128 == n as i128 {
        Ok(())
    } else {
        Err(TrialError::WrongSize { size: n, len })
    }
}

/// `0 + 1 + ... + (n - 1)`, computed.
pub fn triangle_of(n: i32) -> (r: i128)
    requires
        n >= 0,
    ensures
        r == triangle(n as int),
{
    let m: i128 = n as i128;
    assert(0 <= m * (m - 1) <= 0x1_0000_0000_0000_0000) by (nonlinear_arith)
        requires
            0 <= m <= i32::MAX,
    ;
    m * (m - 1) / 2
}

/// Checks a drained set of `0..n`: nothing may be left, and the extracted
/// values must add up to `0 + 1 + ... + (n - 1)`.
pub fn check_drained(n: i32, left: usize, total: i128) -> (r: Result<(), TrialError>)
    requires
        n >= 0,
    ensures
        r == check_drained_spec(n, left, total),
{
    if left != 0 {
        return Err(TrialError::NotDrained { left });
    }
    let expected = triangle_of(n);
    if total != expected {
        Err(TrialError::WrongSum { expected, found: total })
    } else {
        Ok(())
    }
}

/// Converts an elapsed time, given as whole seconds and the nanoseconds
/// past them, to whole microseconds, saturating at `i32::MAX`.
pub fn sample_micros(secs: u64, subsec_nanos: u32) -> (r: i32)
    ensures
        secs * 1_000_000 + subsec_nanos / 1000 <= i32::MAX ==> r == secs * 1_000_000
            + subsec_nanos / 1000,
        secs * 1_000_000 + subsec_nanos / 1000 > i32::MAX ==> r == i32::MAX,
{
    if secs > 2147 {
        return i32::MAX;
    }
    let micros: u64 = secs * 1_000_000 + (subsec_nanos / 1000) as u64;
    if micros > i32::MAX as u64 {
        i32::MAX
    } else {
        micros as i32
    }
}

/// The key under which a trial is recorded: the strategy's registry index
/// and the input size.
pub open spec fn key_of(strategy: Strategy, n: i32) -> (u32, i32) {
    (strategy.spec_index(), n)
}

/// The accumulated timing samples, one accumulator per strategy and size,
/// each created on first use.
pub struct Results {
    table: BTreeMap<(u32, i32), SampleStatistics>,
}

impl View for Results {
    type V = Map<(u32, i32), Seq<int>>;

    /// For every key seen so far, the samples recorded under it.
    closed spec fn view(&self) -> Map<(u32, i32), Seq<int>> {
        self.table@.map_values(|st: SampleStatistics| st@)
    }
}

/// The samples recorded under `key`, empty if none were.
pub open spec fn samples_at(m: Map<(u32, i32), Seq<int>>, key: (u32, i32)) -> Seq<int> {
    if m.contains_key(key) {
        m[key]
    } else {
        Seq::empty()
    }
}

impl Results {
    /// Every accumulator in the table is well formed.
    pub closed spec fn wf(&self) -> bool {
        forall|k: (u32, i32)| #[trigger] self.table@.contains_key(k) ==> self.table@[k].wf()
    }

    /// An empty table.
    pub fn new() -> (r: Self)
        ensures
            r.wf(),
            r@ == Map::<(u32, i32), Seq<int>>::empty(),
    {
        let r = Results { table: BTreeMap::new() };
        assert(r@ =~= Map::<(u32, i32), Seq<int>>::empty());
        r
    }

    /// Adds one sample to the accumulator of `(strategy, n)`, creating it
    /// if this key has not been seen.
    pub fn record(&mut self, strategy: Strategy, n: i32, sample: i32)
        requires
            old(self).wf(),
            samples_at(old(self)@, key_of(strategy, n)).len() < u32::MAX,
        ensures
            final(self).wf(),
            final(self)@ == old(self)@.insert(
                key_of(strategy, n),
                samples_at(old(self)@, key_of(strategy, n)).push(sample as int),
            ),
    {
        let key: (u32, i32) = (strategy.index(), n);
        let mut st = match self.table.remove(&key) {
            Some(st) => st,
            None => SampleStatistics::new(),
        };
        st.put(sample);
        self.table.insert(key, st);
        assert(self@ =~= old(self)@.insert(
            key_of(strategy, n),
            samples_at(old(self)@, key_of(strategy, n)).push(sample as int),
        ));
    }

    /// The accumulator of `(strategy, n)`, if any sample was recorded there.
    pub fn get(&self, strategy: Strategy, n: i32) -> (r: Option<&SampleStatistics>)
        requires
            self.wf(),
        ensures
            r is None <==> !self@.contains_key(key_of(strategy, n)),
            r matches Some(st) ==> st.wf() && st@ == self@[key_of(strategy, n)],
    {
        let key: (u32, i32) = (strategy.index(), n);
        self.table.get(&key)
    }

    /// Checks a drained set of `0..n` and, only if the check passes, records
    /// the sample under `(strategy, n)`. On an error nothing is recorded.
    pub fn finish_trial(
        &mut self,
        strategy: Strategy,
        n: i32,
        left: usize,
        total: i128,
        sample: i32,
    ) -> (r: Result<(), TrialError>)
        requires
            old(self).wf(),
            n >= 0,
            samples_at(old(self)@, key_of(strategy, n)).len() < u32::MAX,
        ensures
            final(self).wf(),
            r == check_drained_spec(n, left, total),
            r is Ok ==> final(self)@ == old(self)@.insert(
                key_of(strategy, n),
                samples_at(old(self)@, key_of(strategy, n)).push(sample as int),
            ),
            r is Err ==> final(self)@ == old(self)@,
    {
        let checked = check_drained(n, left, total);
        if checked.is_ok() {
            self.record(strategy, n, sample);
        }
        checked
    }
}

/// The verdict on a drained set of `0..n`: see [`check_drained`].
pub open spec fn check_drained_spec(n: i32, left: usize, total: i128) -> Result<(), TrialError> {
    if left != 0 {
        Err(TrialError::NotDrained { left })
    } else if total != triangle(n as int) {
        Err(TrialError::WrongSum { expected: triangle(n as int) as i128, found: total })
    } else {
        Ok(())
    }
}

/// A trial on the freshly built set `0..n` passes both checks, whatever
/// the strategy: the set holds `n` elements, and once a drain has emptied
/// it and handed back the sum of its members, that sum is
/// `0 + 1 + ... + (n - 1)`, so the sample is recorded.
pub proof fn lemma_fresh_trial_passes(n: i32)
    requires
        n >= 0,
    ensures
        range_set(n as int).finite(),
        range_set(n as int).len() == n,
        check_drained_spec(n, 0, set_sum(range_set(n as int)) as i128) == Ok::<(), TrialError>(()),
{
    lemma_range_sum(n);
    assert(0 <= triangle(n as int) <= 0x1_0000_0000_0000_0000) by (nonlinear_arith)
        requires
            0 <= n <= i32::MAX,
    ;
}

} // verus!
