//! A time-window rate limiter: the secondary debounce strategy, collapsing
//! bursts of change signals that arrive closer together than a configured
//! delay.

use vstd::prelude::*;

verus! {

/// The abstract state of a [`TimedLimiter`].
pub struct LimiterView {
    /// Two calls closer together than this count as too frequent.
    pub delay_millis: u64,
    /// The times of the most recent calls, newest first; `None` where the
    /// window has not been filled yet.
    pub last_changes: Seq<Option<u64>>,
}

impl LimiterView {
    /// Well-formedness: the window is nonempty, recorded times never grow
    /// toward the back, and unfilled slots sit only at the back.
    pub open spec fn wf(self) -> bool {
        &&& self.last_changes.len() >= 1
        &&& forall|i: int, j: int|
            0 <= i <= j < self.last_changes.len() && self.last_changes[j] is Some ==> {
                &&& #[trigger] self.last_changes[i] matches Some(a)
                &&& #[trigger] self.last_changes[j] matches Some(b)
                &&& b <= a
            }
    }
}

/// Whether every window slot is filled and each consecutive pair of times
/// lies closer together than `delay_millis`.
pub open spec fn all_within(s: Seq<Option<u64>>, delay_millis: u64) -> bool {
    forall|i: int|
        0 <= i < s.len() - 1 ==> (#[trigger] s[i] matches Some(a) && s[i + 1] matches Some(b)
            && a - b < delay_millis)
}

/// Records the times of its last calls. When each of the last `window`
/// calls came less than `delay_millis` after the one before it,
/// [`TimedLimiter::too_frequent`] reports true; this keeps something from
/// being invoked too frequently.
pub struct TimedLimiter {
    delay_millis: u64,
    last_changes: Vec<Option<u64>>,
}

impl View for TimedLimiter {
    type V = LimiterView;

    closed spec fn view(&self) -> LimiterView {
        LimiterView { delay_millis: self.delay_millis, last_changes: self.last_changes@ }
    }
}

impl TimedLimiter {
    /// A limiter over the last `window` calls, none recorded yet.
    pub fn new(delay_millis: u64, window: usize) -> (r: Self)
        requires
            window >= 1,
        ensures
            r@.delay_millis == delay_millis,
            r@.last_changes.len() == window,
            forall|i: int| 0 <= i < window ==> r@.last_changes[i] is None,
            r@.wf(),
    {
        let mut last_changes: Vec<Option<u64>> = Vec::new();
        let mut k: usize = 0;
        while k < window
            invariant
                k <= window,
                last_changes@.len() == k,
                forall|i: int| 0 <= i < k ==> last_changes@[i] is None,
            decreases window - k,
        {
            last_changes.push(None);
            k = k + 1;
        }
        TimedLimiter { delay_millis, last_changes }
    }

    /// Records a call at `now_millis` — which must not lie before the calls
    /// already recorded — and reports whether the window is now full of
    /// calls that each came less than the configured delay after the one
    /// before it.
    #[verifier::rlimit(60)]
    pub fn too_frequent(&mut self, now_millis: u64) -> (r: bool)
        requires
            old(self)@.wf(),
            forall|i: int|
                0 <= i < old(self)@.last_changes.len() ==> (#[trigger] old(
                    self,
                )@.last_changes[i] matches Some(t) ==> t <= now_millis),
        ensures
            final (self)@.delay_millis == old(self)@.delay_millis,
            final (self)@.last_changes == seq![Some(now_millis)]
                + old(self)@.last_changes.drop_last(),
            final (self)@.wf(),
            r == all_within(final (self)@.last_changes, old(self)@.delay_millis),
    {
        self.last_changes.insert(0, Some(now_millis));
        self.last_changes.pop();
        proof {
            assert(self.last_changes@ =~= seq![Some(now_millis)] + old(
                self,
            ).last_changes@.drop_last());
        }
        let n = self.last_changes.len();
        let mut i: usize = 0;
        while i + 1 < n
            invariant
                i <= n - 1,
                n == self.last_changes@.len(),
                self@ == (LimiterView {
                    delay_millis: old(self)@.delay_millis,
                    last_changes: seq![Some(now_millis)] + old(self)@.last_changes.drop_last(),
                }),
                self@.wf(),
                forall|k: int|
                    0 <= k < i ==> (#[trigger] self.last_changes@[k] matches Some(a)
                        && self.last_changes@[k + 1] matches Some(b) && a - b
                        < self.delay_millis),
            decreases n - i,
        {
            let earlier = self.last_changes[i + 1];
            let later = self.last_changes[i];
            match (later, earlier) {
                (Some(a), Some(b)) => {
                    if a - b >= self.delay_millis {
                        return false;
                    }
                },
                _ => {
                    return false;
                },
            }
            i = i + 1;
        }
        true
    }
}

} // verus!
