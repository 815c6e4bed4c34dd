//! Time signatures and the duration of sequences of bars.
use vstd::prelude::*;

verus! {

/// A musical time signature: `top` beats of the note value `bottom` per bar.
#[derive(Copy, Clone, Debug, PartialEq, Eq, Hash, Structural)]
pub struct TimeSig {
    /// The number of beats per bar.
    pub top: u16,
    /// The note value of one beat.
    pub bottom: u16,
}

/// The number of ticks in one bar of the time signature `top`/`bottom` at `ppqn` pulses per
/// quarter note, as `time_calc` computes it.
pub uninterp spec fn ticks_per_bar_of(top: u16, bottom: u16, ppqn: u32) -> i64;

/// The number of `Ticks` in a single bar with the given time signature: calls
/// `time_calc::TimeSig::ticks_per_bar`, whose result depends on the signature and `ppqn` alone.
#[verifier::external_body]
fn ticks_per_bar(ts: TimeSig, ppqn: u32) -> (r: i64)
    ensures
        r == ticks_per_bar_of(ts.top, ts.bottom, ppqn),
{
    time_calc::TimeSig { top: ts.top, bottom: ts.bottom }.ticks_per_bar(ppqn).ticks()
}

/// The sum of the ticks per bar of every time signature in `bars`.
pub open spec fn sum_bar_ticks(bars: Seq<TimeSig>, ppqn: u32) -> int
    decreases bars.len(),
{
    if bars.len() == 0 {
        0
    } else {
        sum_bar_ticks(bars.drop_last(), ppqn) + ticks_per_bar_of(
            bars.last().top,
            bars.last().bottom,
            ppqn,
        )
    }
}

/// Every partial sum of the ticks per bar fits an `i64`.
pub open spec fn bar_sums_fit(bars: Seq<TimeSig>, ppqn: u32) -> bool {
    forall|k: int|
        0 <= k <= bars.len() ==> i64::MIN <= #[trigger] sum_bar_ticks(bars.subrange(0, k), ppqn)
            <= i64::MAX
}

/// The duration of a sequence of bars in ticks.
pub fn bars_duration_ticks(bars: &[TimeSig], ppqn: u32) -> (r: i64)
    requires
        bar_sums_fit(bars@, ppqn),
    ensures
        r == sum_bar_ticks(bars@, ppqn),
{
    let mut acc: i64 = 0;
    let mut k: usize = 0;
    assert(bars@.subrange(0, 0) =~= Seq::<TimeSig>::empty());
    while k < bars.len()
        invariant
            k <= bars@.len(),
            bar_sums_fit(bars@, ppqn),
            acc == sum_bar_ticks(bars@.subrange(0, k as int), ppqn),
        decreases bars@.len() - k,
    {
        let t = ticks_per_bar(bars[k], ppqn);
        proof {
            let next = bars@.subrange(0, k + 1);
            assert(next.drop_last() =~= bars@.subrange(0, k as int));
            assert(sum_bar_ticks(next, ppqn) == acc + t);
            assert(i64::MIN <= sum_bar_ticks(next, ppqn) <= i64::MAX);
        }
        acc = acc + t;
        k = k + 1;
    }
    assert(bars@.subrange(0, bars@.len() as int) =~= bars@);
    acc
}

/// The duration of a sequence of bars in ticks, or `None` where a partial sum would overflow an
/// `i64`: the sums are tested first, and the duration is computed only where they all fit.
pub fn checked_bars_duration_ticks(bars: &[TimeSig], ppqn: u32) -> (r: Option<i64>)
    ensures
        r is Some <==> bar_sums_fit(bars@, ppqn),
        r matches Some(d) ==> d == sum_bar_ticks(bars@, ppqn),
{
    let mut acc: i64 = 0;
    let mut k: usize = 0;
    assert(bars@.subrange(0, 0) =~= Seq::<TimeSig>::empty());
    while k < bars.len()
        invariant
            k <= bars@.len(),
            acc == sum_bar_ticks(bars@.subrange(0, k as int), ppqn),
            forall|j: int|
                0 <= j <= k ==> i64::MIN <= #[trigger] sum_bar_ticks(bars@.subrange(0, j), ppqn)
                    <= i64::MAX,
        decreases bars@.len() - k,
    {
        let t = ticks_per_bar(bars[k], ppqn);
        let ghost next = bars@.subrange(0, k + 1);
        proof {
            assert(next.drop_last() =~= bars@.subrange(0, k as int));
            assert(sum_bar_ticks(next, ppqn) == acc + t);
        }
        match acc.checked_add(t) {
            Some(s) => {
                acc = s;
            },
            None => {
                proof {
                    assert(!(i64::MIN <= sum_bar_ticks(bars@.subrange(0, k + 1), ppqn)
                        <= i64::MAX));
                }
                return None;
            },
        }
        k = k + 1;
    }
    assert(bars@.subrange(0, bars@.len() as int) =~= bars@);
    Some(bars_duration_ticks(bars, ppqn))
}

/// The duration of two sequences of bars played one after the other is the sum of their
/// durations.
pub proof fn lemma_duration_of_concatenation(a: Seq<TimeSig>, b: Seq<TimeSig>, ppqn: u32)
    ensures
        sum_bar_ticks(a + b, ppqn) == sum_bar_ticks(a, ppqn) + sum_bar_ticks(b, ppqn),
    decreases b.len(),
{
    if b.len() == 0 {
        assert(a + b =~= a);
    } else {
        assert((a + b).drop_last() =~= a + b.drop_last());
        lemma_duration_of_concatenation(a, b.drop_last(), ppqn);
    }
}

} // verus!
