//! The mirror-safety net. A locally declared mirror type may be laid over
//! an externally defined opaque type only when the two have the same size;
//! the check is necessary but not sufficient (a same-size reordering of the
//! external type's private fields would pass it), which is the accepted
//! fragility of the technique.

use vstd::prelude::*;

use crate::codec::SnapshotError;

verus! {

/// Do the mirror type and the mirrored type have the same size?
pub fn mirror_sizes_match<M, E>() -> (r: bool)
    ensures
        r == (vstd::layout::size_of::<M>() == vstd::layout::size_of::<E>()),
{
    core::mem::size_of::<M>() == core::mem::size_of::<E>()
}

/// The test a mirrored pair must pass before any reference
/// reinterpretation: succeeds exactly when the sizes agree, and otherwise
/// reports the layout mismatch so the embedder can abort.
pub fn check_mirror_layout<M, E>() -> (r: Result<(), SnapshotError>)
    ensures
        r is Ok <==> vstd::layout::size_of::<M>() == vstd::layout::size_of::<E>(),
        r is Err ==> r->Err_0 == SnapshotError::LayoutMismatch,
{
    if mirror_sizes_match::<M, E>() {
        Ok(())
    } else {
        Err(SnapshotError::LayoutMismatch)
    }
}

} // verus!
