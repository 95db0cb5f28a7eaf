use std::cell::RefCell;

use context_sync::codec::decode_payload;
use context_sync::codec::encode_snapshot;
use context_sync::codec::ContextSnapshot;
use context_sync::codec::CreateContextSnapshot;
use context_sync::codec::SnapshotError;
use context_sync::delta::SnapshotDeltas;
use context_sync::handle::context;
use context_sync::handle::release_scope;
use context_sync::handle::Egui;
use context_sync::sections::SectionSet;
use context_sync::state::Context;

/// A remote side that answers pulls with an empty payload and records what
/// it was asked for and what was pushed to it.
struct RecordingHost {
    requested: RefCell<Vec<SnapshotDeltas>>,
    pushed: RefCell<Vec<Vec<u8>>>,
    fail_push: bool,
}

impl RecordingHost {
    fn new(fail_push: bool) -> Self {
        RecordingHost {
            requested: RefCell::new(Vec::new()),
            pushed: RefCell::new(Vec::new()),
            fail_push,
        }
    }
}

impl Egui for RecordingHost {
    fn get_snapshot(&self, deltas: SnapshotDeltas) -> Result<CreateContextSnapshot, SnapshotError> {
        self.requested.borrow_mut().push(deltas);
        Ok(CreateContextSnapshot::Created(ContextSnapshot {
            fonts: None,
            options: None,
            interaction: None,
            animation: None,
            plugins: None,
            textures: None,
        }))
    }

    fn set_snapshot(&self, state: CreateContextSnapshot) -> Result<(), SnapshotError> {
        if self.fail_push {
            return Err(SnapshotError::RemoteUnavailable);
        }
        let bytes = encode_snapshot(&state)?;
        self.pushed.borrow_mut().push(bytes);
        Ok(())
    }

    fn print(&self, _value: &str) {}
}

/// A remote side that violates the pull contract by answering with an
/// outbound-tagged value.
struct MisbehavingHost;

impl Egui for MisbehavingHost {
    fn get_snapshot(
        &self,
        _deltas: SnapshotDeltas,
    ) -> Result<CreateContextSnapshot, SnapshotError> {
        Ok(CreateContextSnapshot::FromContext(
            Context::bootstrap(),
            SnapshotDeltas::Full,
        ))
    }

    fn set_snapshot(&self, _state: CreateContextSnapshot) -> Result<(), SnapshotError> {
        Ok(())
    }

    fn print(&self, _value: &str) {}
}

#[test]
fn first_cycle_requests_the_full_baseline() {
    let host = RecordingHost::new(false);
    let mut ctx = Context::bootstrap();
    let handle = context(&host, &mut ctx, true).expect("a created pull enters the scope");
    assert_eq!(host.requested.borrow()[0], SnapshotDeltas::Full);
    release_scope(&host, &mut ctx, handle).expect("the push completes");
    assert_eq!(
        ctx.snapshot_deltas(),
        SnapshotDeltas::Partial(SectionSet::empty())
    );
    let pushed = host.pushed.borrow();
    let payload = decode_payload(&pushed[0]).expect("the pushed bytes decode");
    assert!(payload.fonts.is_none());
    assert!(payload.options.is_none());
    assert!(payload.textures.is_none());
}

#[test]
fn successful_push_resets_pending_deltas() {
    let host = RecordingHost::new(false);
    let mut ctx = Context::bootstrap();
    ctx.confirm_push();
    let handle = context(&host, &mut ctx, false).expect("a created pull enters the scope");
    ctx.set_zoom_factor(90);
    release_scope(&host, &mut ctx, handle).expect("the push completes");
    assert_eq!(
        ctx.snapshot_deltas(),
        SnapshotDeltas::Partial(SectionSet::empty())
    );
    let pushed = host.pushed.borrow();
    let payload = decode_payload(&pushed[0]).expect("the pushed bytes decode");
    assert!(payload.options.is_some());
    assert_eq!(payload.options.unwrap().zoom_factor_percent, 90);
    assert!(payload.fonts.is_none());
}

// A failed push must not clear pending deltas: the next acquire still
// names the changed subsection.
#[test]
fn failed_push_retains_pending_deltas() {
    let host = RecordingHost::new(true);
    let mut ctx = Context::bootstrap();
    ctx.confirm_push();
    let handle = context(&host, &mut ctx, false).expect("a created pull enters the scope");
    ctx.set_zoom_factor(90);
    let pending_before = ctx.snapshot_deltas();
    let outcome = release_scope(&host, &mut ctx, handle);
    assert_eq!(outcome, Err(SnapshotError::RemoteUnavailable));
    assert_eq!(ctx.snapshot_deltas(), pending_before);
    match ctx.snapshot_deltas() {
        SnapshotDeltas::Partial(set) => assert!(set.options),
        SnapshotDeltas::Full => panic!("the pending set was partial before the failed push"),
    }
}

// An outbound-tagged answer to a pull is a contract violation: the scope
// is never entered and the local state stays untouched.
#[test]
fn outbound_answer_to_a_pull_never_enters_the_scope() {
    let host = MisbehavingHost;
    let mut ctx = Context::bootstrap();
    ctx.insert_font(5);
    let fonts_before = ctx.fonts.font_ids.clone();
    let outcome = context(&host, &mut ctx, false);
    assert!(matches!(outcome, Err(SnapshotError::ContractViolation)));
    assert_eq!(ctx.fonts.font_ids, fonts_before);
}
