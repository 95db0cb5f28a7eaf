//! Scoped acquisition: pull a snapshot on acquire, expose the context for
//! the scope, and build the guaranteed outgoing snapshot on release.

use vstd::prelude::*;

use crate::codec::spec_merge;
use crate::codec::ContextSnapshot;
use crate::codec::CreateContextSnapshot;
use crate::codec::SnapshotError;
use crate::codec::SnapshotView;
use crate::delta::DeltaTracker;
use crate::delta::SnapshotDeltas;
use crate::sections::SectionSet;
use crate::state::spec_diff;
use crate::state::Context;

verus! {

/// The boundary to the remote side: exactly two state operations and one
/// diagnostic sink. The host implements this; nothing here is proved about
/// an implementation, so callers state what holds of every answer.
pub trait Egui {
    /// Pull: the remote side answers with a snapshot restricted to, or
    /// agreeing with, the requested subsections; the default delta set must
    /// yield a complete snapshot. A call that cannot complete fails
    /// outright, with no partial progress.
    fn get_snapshot(&self, deltas: SnapshotDeltas) -> Result<CreateContextSnapshot, SnapshotError>;

    /// Push: the remote side merges the provided subsections into its own
    /// state and leaves the rest untouched. A call that cannot complete
    /// fails outright, with no partial progress.
    fn set_snapshot(&self, state: CreateContextSnapshot) -> Result<(), SnapshotError>;

    /// Diagnostic side channel; no ordering guarantee relative to the state
    /// calls.
    fn print(&self, value: &str);
}

/// A transient scope-bound handle: it holds the observation point captured
/// at acquire time ("no changes yet this scope") and is consumed by
/// release, so it cannot be used afterwards.
pub struct EguiHandle {
    pub entry: Context,
}

/// The delta baseline for a pull: on the very first acquire in a process
/// the default ("everything changed") set, afterwards the set accumulated
/// since the last confirmed push.
pub fn acquire_baseline(ctx: &Context, first_init: bool) -> (r: SnapshotDeltas)
    ensures
        r == (if first_init {
            SnapshotDeltas::Full
        } else {
            ctx.tracker.pending
        }),
{
    if first_init {
        SnapshotDeltas::default()
    } else {
        ctx.snapshot_deltas()
    }
}

impl EguiHandle {
    /// Enter a scope: merge the pulled payload into the context and capture
    /// the merged state as the entry observation point.
    pub fn acquire(ctx: &mut Context, pulled: &ContextSnapshot) -> (h: EguiHandle)
        ensures
            final(ctx)@ == spec_merge(old(ctx)@, pulled@),
            final(ctx).tracker == old(ctx).tracker,
            h.entry@ == final(ctx)@,
    {
        ctx.apply_snapshot(pulled);
        EguiHandle { entry: ctx.duplicate() }
    }

    /// Leave a scope: the outgoing snapshot carries the current context,
    /// restricted to exactly the subsections that differ from the entry
    /// observation point. A scope that changed nothing releases an empty
    /// delta set.
    pub fn release(self, ctx: &Context) -> (out: CreateContextSnapshot)
        ensures
            match out {
                CreateContextSnapshot::FromContext(c, d) => c@ == ctx@ && d
                    == SnapshotDeltas::Partial(spec_diff(self.entry@, ctx@)),
                CreateContextSnapshot::Created(_) => false,
            },
    {
        let outgoing = DeltaTracker::diff(&self.entry, ctx);
        CreateContextSnapshot::FromContext(ctx.duplicate(), SnapshotDeltas::Partial(outgoing))
    }
}

/// A scope whose context is unchanged since acquire — no recorded changes
/// since the last successful release — releases an outgoing snapshot whose
/// delta set is empty.
pub proof fn lemma_clean_scope_releases_empty(h: EguiHandle, ctx: Context)
    requires
        h.entry@ == ctx@,
    ensures
        spec_diff(h.entry@, ctx@) == SectionSet::spec_empty(),
{
    crate::state::lemma_diff_reflexive(ctx@);
}

/// One acquire against the remote side: pull with the delta baseline and
/// merge the answer into the context. On success the context afterwards is
/// the old state merged with some payload; on any failure — the pull
/// failing outright, or the remote violating the pull contract by
/// answering an outbound-tagged value — nothing is touched, the error is
/// propagated, and the scope is never entered.
pub fn context<E: Egui>(remote: &E, ctx: &mut Context, first_init: bool) -> (r: Result<
    EguiHandle,
    SnapshotError,
>)
    ensures
        match r {
            Result::Ok(h) => (exists|p: SnapshotView|
                final(ctx)@ == spec_merge(old(ctx)@, p)) && h.entry@ == final(ctx)@
                && final(ctx).tracker == old(ctx).tracker,
            Result::Err(_) => final(ctx)@ == old(ctx)@ && final(ctx).tracker == old(
                ctx,
            ).tracker,
        },
{
    let deltas = acquire_baseline(ctx, first_init);
    match remote.get_snapshot(deltas) {
        Ok(CreateContextSnapshot::Created(snapshot)) => {
            let h = EguiHandle::acquire(ctx, &snapshot);
            proof {
                assert(ctx@ == spec_merge(old(ctx)@, snapshot@));
            }
            Ok(h)
        },
        Ok(CreateContextSnapshot::FromContext(_, _)) => Err(SnapshotError::ContractViolation),
        Err(e) => Err(e),
    }
}

/// One release against the remote side: push the outgoing snapshot and,
/// the push confirmed successful, reset the pending delta set. A failed
/// push must not clear pending deltas: they are retained, so the next
/// acquire resynchronizes with a baseline that still names them.
pub fn release_scope<E: Egui>(remote: &E, ctx: &mut Context, handle: EguiHandle) -> (r: Result<
    (),
    SnapshotError,
>)
    ensures
        final(ctx)@ == old(ctx)@,
        r is Ok ==> final(ctx).tracker.pending == SnapshotDeltas::Partial(
            SectionSet::spec_empty(),
        ),
        r is Err ==> final(ctx).tracker.pending == old(ctx).tracker.pending,
{
    let out = handle.release(ctx);
    match remote.set_snapshot(out) {
        Ok(_) => {
            ctx.confirm_push();
            Ok(())
        },
        Err(e) => Err(e),
    }
}

} // verus!
