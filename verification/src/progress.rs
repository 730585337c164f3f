//! The progress bridge: threading a cancellable progress predicate through a
//! long-running operation.
//!
//! The operation itself runs outside this library; what reaches the bridge is
//! the sequence of percentages its checkpoints report and the outcome it
//! would yield. The bridge invokes the caller's predicate synchronously for
//! each checkpoint, in order, stops at the first cancellation, and passes the
//! operation's own outcome through untouched otherwise — no buffering, no
//! retry.

use vstd::prelude::*;
use crate::GfxError;

verus! {

/// The state of one bridged call: the latest reported percentage and the
/// caller's continue/cancel decision. Ephemeral — it exists only for the
/// duration of that call.
pub struct ProgressContext {
    /// The percentage most recently reported, in [0, 100].
    pub percentage: u8,
    /// Whether the caller's predicate has requested an abort.
    pub cancelled: bool,
}

impl ProgressContext {
    /// A fresh context: nothing reported, not cancelled.
    pub fn new() -> (r: ProgressContext)
        ensures
            r.percentage == 0,
            !r.cancelled,
    {
        ProgressContext { percentage: 0, cancelled: false }
    }

    /// Records one checkpoint: the reported percentage and the predicate's
    /// decision, `true` to continue and `false` to cancel.
    pub fn observe(&mut self, pct: u8, keep_going: bool)
        requires
            pct <= 100,
            !old(self).cancelled,
        ensures
            final(self).percentage == pct,
            final(self).cancelled == !keep_going,
    {
        self.percentage = pct;
        self.cancelled = !keep_going;
    }

    /// Whether the predicate has requested an abort.
    pub fn is_cancelled(&self) -> (r: bool)
        ensures
            r == self.cancelled,
    {
        self.cancelled
    }
}

/// Runs one bridged operation: for each checkpoint percentage, in order, the
/// predicate `on_progress` is invoked synchronously on this thread. If some
/// call returns `false` (cancel), no later checkpoint is observed and the
/// result is `OperationCancelled`, whatever the operation's own outcome; if
/// every call returns `true`, the operation's own outcome — its success
/// value, or a propagated `AllocationFailure` or `IoError` — is passed
/// through unchanged.
pub fn bridge<T, F: Fn(u8) -> bool>(checkpoints: &Vec<u8>, outcome: Result<T, GfxError>, on_progress: F) -> (r: Result<
    T,
    GfxError,
>)
    requires
        forall|k: int| 0 <= k < checkpoints@.len() ==> checkpoints@[k] <= 100,
        forall|p: u8| p <= 100 ==> #[trigger] call_requires(on_progress, (p,)),
        !(outcome matches Err(GfxError::OperationCancelled)),
    ensures
        r matches Err(GfxError::OperationCancelled) || r == outcome,
        r matches Err(GfxError::OperationCancelled) ==> exists|k: int|
            0 <= k < checkpoints@.len() && call_ensures(on_progress, (checkpoints@[k],), false),
        (forall|j: int, b: bool|
            0 <= j < checkpoints@.len() && #[trigger] call_ensures(
                on_progress,
                (checkpoints@[j],),
                b,
            ) ==> b) ==> r == outcome,
        forall|k: int|
            #![trigger checkpoints@[k]]
            (0 <= k < checkpoints@.len() && !call_ensures(on_progress, (checkpoints@[k],), true)
                && (forall|j: int|
                #![trigger checkpoints@[j]]
                0 <= j < k ==> !call_ensures(on_progress, (checkpoints@[j],), false))) ==> r
                matches Err(GfxError::OperationCancelled),
{
    let mut ctx = ProgressContext::new();
    let mut k: usize = 0;
    while k < checkpoints.len()
        invariant
            k <= checkpoints@.len(),
            forall|j: int| 0 <= j < checkpoints@.len() ==> checkpoints@[j] <= 100,
            forall|p: u8| p <= 100 ==> #[trigger] call_requires(on_progress, (p,)),
            forall|j: int|
                #![trigger checkpoints@[j]]
                0 <= j < k ==> call_ensures(on_progress, (checkpoints@[j],), true),
            !ctx.cancelled,
        decreases checkpoints@.len() - k,
    {
        let pct = checkpoints[k];
        let keep_going = on_progress(pct);
        ctx.observe(pct, keep_going);
        if ctx.is_cancelled() {
            return Err(GfxError::OperationCancelled);
        }
        k = k + 1;
    }
    proof {
        assert forall|j: int|
            #![trigger checkpoints@[j]]
            0 <= j < checkpoints@.len() implies call_ensures(
            on_progress,
            (checkpoints@[j],),
            true,
        ) by {}
    }
    outcome
}

} // verus!
