//! Delta tracking: which subsections of the shared context changed since a
//! reference point.

use vstd::prelude::*;

use crate::sections::Section;
use crate::sections::SectionSet;
use crate::state::animation_vec_eq;
use crate::state::options_eq;
use crate::state::spec_diff;
use crate::state::u64_vec_eq;
use crate::state::viewport_vec_eq;
use crate::state::Context;

verus! {

/// A marker value naming which subsections changed since a reference point.
///
/// The default value means "treat everything as changed"; a `Partial` value
/// is an explicit restricted subset.
#[derive(Clone, Copy, Debug, PartialEq, Eq, Structural)]
pub enum SnapshotDeltas {
    /// Every subsection is to be treated as changed.
    Full,
    /// Exactly the named subsections changed.
    Partial(SectionSet),
}

impl SnapshotDeltas {
    pub open spec fn spec_default() -> SnapshotDeltas {
        SnapshotDeltas::Full
    }

    /// Does this delta set ask for the given subsection?
    pub open spec fn spec_covers(self, s: Section) -> bool {
        match self {
            SnapshotDeltas::Full => true,
            SnapshotDeltas::Partial(set) => set.spec_contains(s),
        }
    }

    /// Record one more changed subsection; a full set stays full.
    pub open spec fn spec_mark(self, s: Section) -> SnapshotDeltas {
        match self {
            SnapshotDeltas::Full => SnapshotDeltas::Full,
            SnapshotDeltas::Partial(set) => SnapshotDeltas::Partial(set.spec_with(s)),
        }
    }

    pub fn covers(&self, s: Section) -> (r: bool)
        ensures
            r == self.spec_covers(s),
    {
        match self {
            SnapshotDeltas::Full => true,
            SnapshotDeltas::Partial(set) => set.contains(s),
        }
    }

    /// Executable form of [`SnapshotDeltas::spec_mark`].
    pub fn mark(self, s: Section) -> (r: SnapshotDeltas)
        ensures
            r == self.spec_mark(s),
    {
        match self {
            SnapshotDeltas::Full => SnapshotDeltas::Full,
            SnapshotDeltas::Partial(set) => SnapshotDeltas::Partial(set.with(s)),
        }
    }
}

impl Default for SnapshotDeltas {
    /// The default delta set treats everything as changed.
    fn default() -> (r: Self)
        ensures
            r == SnapshotDeltas::spec_default(),
    {
        SnapshotDeltas::Full
    }
}

/// Records which subsections changed since the last confirmed push.
///
/// A fresh tracker holds the default ("everything changed") set; marks
/// accumulate within an epoch, and the set is reset only after a push has
/// been confirmed successful.
pub struct DeltaTracker {
    pub pending: SnapshotDeltas,
}

impl DeltaTracker {
    /// First use in a process: everything is treated as changed.
    pub fn new() -> (r: DeltaTracker)
        ensures
            r.pending == SnapshotDeltas::Full,
    {
        DeltaTracker { pending: SnapshotDeltas::Full }
    }

    /// The accumulated delta baseline since the last confirmed push.
    pub fn baseline(&self) -> (r: SnapshotDeltas)
        ensures
            r == self.pending,
    {
        self.pending
    }

    /// Record that a subsection differs from the last pushed baseline.
    pub fn mark_changed(&mut self, s: Section)
        ensures
            final(self).pending == old(self).pending.spec_mark(s),
    {
        self.pending = self.pending.mark(s);
    }

    /// Which subsections differ structurally between two observation
    /// points; used to build the outgoing set at release time.
    pub fn diff(before: &Context, after: &Context) -> (r: SectionSet)
        ensures
            r == spec_diff(before@, after@),
    {
        SectionSet {
            fonts: !u64_vec_eq(&before.fonts.font_ids, &after.fonts.font_ids),
            options: !options_eq(&before.options, &after.options),
            interaction: !viewport_vec_eq(&before.interaction.entries, &after.interaction.entries),
            animation: !animation_vec_eq(&before.animation.entries, &after.animation.entries),
            plugins: !u64_vec_eq(&before.plugins.on_begin_pass, &after.plugins.on_begin_pass)
                || !u64_vec_eq(&before.plugins.on_end_pass, &after.plugins.on_end_pass),
            textures: before.textures != after.textures,
        }
    }

    /// Clear the pending set. To be called only once a push has been
    /// confirmed successful: a failed push leaves the pending set as it is.
    pub fn confirm_push(&mut self)
        ensures
            final(self).pending == SnapshotDeltas::Partial(SectionSet::spec_empty()),
    {
        self.pending = SnapshotDeltas::Partial(SectionSet::empty());
    }
}

/// Marks only accumulate within an epoch: a subsection once recorded as
/// changed stays recorded until a push is confirmed, whatever is marked
/// after it.
pub proof fn lemma_mark_is_monotone(d: SnapshotDeltas, added: Section, s: Section)
    ensures
        d.spec_covers(s) ==> d.spec_mark(added).spec_covers(s),
{
}

} // verus!
