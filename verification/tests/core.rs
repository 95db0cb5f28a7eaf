use context_sync::codec::decode_payload;
use context_sync::codec::decode_snapshot;
use context_sync::codec::encode_payload;
use context_sync::codec::encode_snapshot;
use context_sync::codec::ContextSnapshot;
use context_sync::codec::CreateContextSnapshot;
use context_sync::codec::SnapshotError;
use context_sync::delta::DeltaTracker;
use context_sync::delta::SnapshotDeltas;
use context_sync::handle::acquire_baseline;
use context_sync::handle::EguiHandle;
use context_sync::hashing::BuildIdHasher;
use context_sync::hashing::IdHasher;
use context_sync::hit_test::WidgetHits;
use context_sync::mirror::check_mirror_layout;
use context_sync::mirror::mirror_sizes_match;
use context_sync::sections::Section;
use context_sync::sections::SectionSet;
use context_sync::state::AnimationEntry;
use context_sync::state::AnimationSection;
use context_sync::state::Context;
use context_sync::state::FontsSection;
use context_sync::state::InteractionSection;
use context_sync::state::InteractionState;
use context_sync::state::Options;
use context_sync::state::PluginsSection;
use context_sync::state::Style;
use context_sync::state::TexturesSection;
use context_sync::state::TextStyle;
use context_sync::state::Theme;
use context_sync::state::ThemePreference;
use context_sync::state::ViewportEntry;

fn sample_options() -> Options {
    Options {
        dark_style: Style {
            drag_value_text_style: TextStyle::Monospace,
            animation_time_millis: 120,
            explanation_tooltips: true,
            url_in_tooltip: false,
            compact_menu_style: true,
        },
        light_style: Style::default(),
        theme_preference: ThemePreference::Light,
        fallback_theme: Theme::Dark,
        system_theme: Some(Theme::Light),
        zoom_factor_percent: 150,
        zoom_with_keyboard: false,
        max_passes: 3,
        reduce_texture_memory: true,
    }
}

fn sample_context() -> Context {
    let mut c = Context::bootstrap();
    c.fonts = FontsSection {
        font_ids: vec![1, 2, 3],
    };
    c.options = sample_options();
    c.interaction = InteractionSection {
        entries: vec![ViewportEntry {
            viewport_id: 1,
            state: InteractionState {
                potential_click_id: Some(9),
                potential_drag_id: None,
            },
        }],
    };
    c.animation = AnimationSection {
        entries: vec![AnimationEntry {
            id: 5,
            progress_millis: 250,
        }],
    };
    c.plugins = PluginsSection {
        on_begin_pass: vec![10],
        on_end_pass: vec![20, 30],
    };
    c.textures = TexturesSection { handle_id: 42 };
    c
}

fn empty_payload() -> ContextSnapshot {
    ContextSnapshot {
        fonts: None,
        options: None,
        interaction: None,
        animation: None,
        plugins: None,
        textures: None,
    }
}

fn assert_same_sections(a: &Context, b: &Context) {
    assert_eq!(a.fonts, b.fonts);
    assert_eq!(a.options, b.options);
    assert_eq!(a.interaction, b.interaction);
    assert_eq!(a.animation, b.animation);
    assert_eq!(a.plugins, b.plugins);
    assert_eq!(a.textures, b.textures);
}

// A clean acquire/release cycle pushes an empty delta set.
#[test]
fn clean_scope_releases_empty_delta_set() {
    let mut ctx = Context::bootstrap();
    let handle = EguiHandle::acquire(&mut ctx, &empty_payload());
    let out = handle.release(&ctx);
    match out {
        CreateContextSnapshot::FromContext(_, SnapshotDeltas::Partial(set)) => {
            assert_eq!(set, SectionSet::empty());
        }
        _ => panic!("release must produce an outbound partial snapshot"),
    }
}

// Full round trip: encode with the default delta set, decode, merge into a
// fresh state, and every tracked subsection matches the source.
#[test]
fn full_round_trip_restores_every_subsection() {
    let source = sample_context();
    let outbound = CreateContextSnapshot::FromContext(source.duplicate(), SnapshotDeltas::Full);
    let bytes = encode_snapshot(&outbound).expect("outbound snapshots encode");
    let decoded = decode_snapshot(&bytes).expect("the encoding decodes");
    let payload = match decoded {
        CreateContextSnapshot::Created(p) => p,
        _ => panic!("decoding always yields the inbound shape"),
    };
    let mut fresh = Context::bootstrap();
    fresh.apply_snapshot(&payload);
    assert_same_sections(&fresh, &source);
}

// Merging the same inbound payload twice leaves the state of the first merge.
#[test]
fn merge_is_idempotent() {
    let source = sample_context();
    let payload = source.snapshot_for(SnapshotDeltas::Full);
    let mut ctx = Context::bootstrap();
    ctx.apply_snapshot(&payload);
    let after_first = ctx.duplicate();
    ctx.apply_snapshot(&payload);
    assert_same_sections(&ctx, &after_first);
}

struct MirrorPair {
    a: u64,
    b: u32,
}

struct ExternalPair {
    a: u64,
    b: u32,
}

struct MismatchedMirror {
    a: u32,
}

// Mirror safety: equal sizes pass the size test, a mismatched mirror fails it.
#[test]
fn mirror_layout_size_test() {
    assert!(mirror_sizes_match::<MirrorPair, ExternalPair>());
    assert!(check_mirror_layout::<MirrorPair, ExternalPair>().is_ok());
    assert!(!mirror_sizes_match::<MismatchedMirror, ExternalPair>());
    assert_eq!(
        check_mirror_layout::<MismatchedMirror, ExternalPair>(),
        Err(SnapshotError::LayoutMismatch)
    );
}

// The first acquire in a process uses the default baseline, and the
// resulting pull is a complete snapshot, not a restricted one.
#[test]
fn first_acquire_pulls_complete_state() {
    let ctx = Context::bootstrap();
    assert_eq!(acquire_baseline(&ctx, true), SnapshotDeltas::Full);
    assert_eq!(acquire_baseline(&ctx, false), SnapshotDeltas::Full);
    let remote = sample_context();
    let pulled = remote.snapshot_for(SnapshotDeltas::Full);
    assert!(pulled.fonts.is_some());
    assert!(pulled.options.is_some());
    assert!(pulled.interaction.is_some());
    assert!(pulled.animation.is_some());
    assert!(pulled.plugins.is_some());
    assert!(pulled.textures.is_some());
}

// Encoding an inbound-tagged snapshot is always a contract violation,
// never an empty payload.
#[test]
fn inbound_snapshot_never_encodes() {
    let inbound = CreateContextSnapshot::Created(empty_payload());
    assert_eq!(
        encode_snapshot(&inbound),
        Err(SnapshotError::ContractViolation)
    );
    let full = CreateContextSnapshot::Created(sample_context().snapshot_for(SnapshotDeltas::Full));
    assert_eq!(encode_snapshot(&full), Err(SnapshotError::ContractViolation));
}

// Two cycles where only the zoom factor changes during the second scope:
// the second outgoing snapshot names only the options subsection, and the
// remote decoder receives nothing else.
#[test]
fn second_cycle_carries_only_the_changed_subsection() {
    let mut ctx = Context::bootstrap();

    let first = EguiHandle::acquire(&mut ctx, &empty_payload());
    let out_first = first.release(&ctx);
    match &out_first {
        CreateContextSnapshot::FromContext(_, SnapshotDeltas::Partial(set)) => {
            assert_eq!(*set, SectionSet::empty());
        }
        _ => panic!("release must produce an outbound partial snapshot"),
    }
    ctx.confirm_push();

    let second = EguiHandle::acquire(&mut ctx, &empty_payload());
    ctx.set_zoom_factor(130);
    let out_second = second.release(&ctx);
    match &out_second {
        CreateContextSnapshot::FromContext(_, SnapshotDeltas::Partial(set)) => {
            assert!(set.options);
            assert!(!set.fonts);
            assert!(!set.interaction);
            assert!(!set.animation);
            assert!(!set.plugins);
            assert!(!set.textures);
        }
        _ => panic!("release must produce an outbound partial snapshot"),
    }

    let bytes = encode_snapshot(&out_second).expect("outbound snapshots encode");
    let received = decode_payload(&bytes).expect("the encoding decodes");
    assert!(received.options.is_some());
    assert_eq!(received.options.unwrap().zoom_factor_percent, 130);
    assert!(received.fonts.is_none());
    assert!(received.interaction.is_none());
    assert!(received.animation.is_none());
    assert!(received.plugins.is_none());
    assert!(received.textures.is_none());
}

// The wire format is pinned: a textures-only payload has a known encoding.
#[test]
fn textures_only_payload_bytes() {
    let mut payload = empty_payload();
    payload.textures = Some(TexturesSection { handle_id: 7 });
    let bytes = encode_payload(&payload);
    assert_eq!(bytes, vec![0, 0, 0, 0, 0, 1, 7, 0, 0, 0, 0, 0, 0, 0]);
}

#[test]
fn empty_payload_bytes() {
    let bytes = encode_payload(&empty_payload());
    assert_eq!(bytes, vec![0, 0, 0, 0, 0, 0]);
}

#[test]
fn decode_rejects_empty_input() {
    assert_eq!(decode_payload(&vec![]), Err(SnapshotError::Malformed));
}

#[test]
fn decode_rejects_bad_presence_flag() {
    assert_eq!(
        decode_payload(&vec![2, 0, 0, 0, 0, 0]),
        Err(SnapshotError::Malformed)
    );
}

#[test]
fn decode_rejects_truncated_section() {
    // Textures present, but only four of its eight bytes follow.
    assert_eq!(
        decode_payload(&vec![0, 0, 0, 0, 0, 1, 7, 0, 0]),
        Err(SnapshotError::Malformed)
    );
}

#[test]
fn decode_rejects_trailing_bytes() {
    assert_eq!(
        decode_payload(&vec![0, 0, 0, 0, 0, 0, 9]),
        Err(SnapshotError::Malformed)
    );
}

// A pass budget of zero is rejected: decoding validates the options
// invariant.
#[test]
fn decode_rejects_zero_max_passes() {
    let mut payload = empty_payload();
    payload.options = Some(sample_options());
    let mut bytes = encode_payload(&payload);
    assert_eq!(bytes.len(), 52);
    // The pass budget sits in the eight bytes before the final options
    // byte and the four trailing section flags.
    for b in bytes.iter_mut().skip(39).take(8) {
        *b = 0;
    }
    assert_eq!(decode_payload(&bytes), Err(SnapshotError::Malformed));
}

#[test]
fn tracker_accumulates_and_resets_only_on_confirm() {
    let mut tracker = DeltaTracker::new();
    assert_eq!(tracker.baseline(), SnapshotDeltas::Full);
    tracker.confirm_push();
    assert_eq!(
        tracker.baseline(),
        SnapshotDeltas::Partial(SectionSet::empty())
    );
    tracker.mark_changed(Section::Fonts);
    tracker.mark_changed(Section::Textures);
    match tracker.baseline() {
        SnapshotDeltas::Partial(set) => {
            assert!(set.fonts);
            assert!(set.textures);
            assert!(!set.options);
        }
        SnapshotDeltas::Full => panic!("marks on a partial set keep it partial"),
    }
    tracker.confirm_push();
    assert_eq!(
        tracker.baseline(),
        SnapshotDeltas::Partial(SectionSet::empty())
    );
}

#[test]
fn marking_a_full_set_keeps_it_full() {
    let mut tracker = DeltaTracker::new();
    tracker.mark_changed(Section::Options);
    assert_eq!(tracker.baseline(), SnapshotDeltas::Full);
}

#[test]
fn theme_resolution() {
    let mut o = sample_options();
    o.theme_preference = ThemePreference::Dark;
    assert_eq!(o.theme(), Theme::Dark);
    o.theme_preference = ThemePreference::Light;
    assert_eq!(o.theme(), Theme::Light);
    o.theme_preference = ThemePreference::System;
    o.system_theme = Some(Theme::Dark);
    assert_eq!(o.theme(), Theme::Dark);
    o.system_theme = None;
    o.fallback_theme = Theme::Light;
    assert_eq!(o.theme(), Theme::Light);
}

#[test]
fn style_follows_the_active_theme() {
    let mut o = sample_options();
    o.theme_preference = ThemePreference::Dark;
    assert_eq!(*o.style(), o.dark_style);
    let dark = o.dark_style;
    let light = o.light_style;
    o.style_mut().animation_time_millis = 999;
    assert_eq!(o.dark_style.animation_time_millis, 999);
    assert_eq!(o.light_style, light);
    assert_eq!(o.dark_style.drag_value_text_style, dark.drag_value_text_style);
}

#[test]
fn style_default_values() {
    let s = Style::default();
    assert_eq!(s.drag_value_text_style, TextStyle::Button);
    assert_eq!(s.animation_time_millis, 83);
    assert!(!s.explanation_tooltips);
    assert!(!s.url_in_tooltip);
    assert!(!s.compact_menu_style);
}

#[test]
fn id_hasher_passes_the_key_through() {
    let mut h = BuildIdHasher {}.build_hasher();
    assert_eq!(h.finish(), 0);
    h.write_u64(0xdead_beef_0123_4567);
    assert_eq!(h.finish(), 0xdead_beef_0123_4567);
    let d = IdHasher::default();
    assert_eq!(d.finish(), 0);
}

#[test]
fn widget_hits_default_is_empty() {
    let hits = WidgetHits::default();
    assert!(hits.close.is_empty());
    assert!(hits.contains_pointer.is_empty());
    assert!(hits.click.is_none());
    assert!(hits.drag.is_none());
}

// A partial merge overwrites only the subsections present in the payload.
#[test]
fn partial_merge_leaves_other_subsections_untouched() {
    let mut ctx = sample_context();
    let mut payload = empty_payload();
    payload.fonts = Some(FontsSection {
        font_ids: vec![77, 88],
    });
    ctx.apply_snapshot(&payload);
    assert_eq!(ctx.fonts.font_ids, vec![77, 88]);
    assert_eq!(ctx.options, sample_options());
    assert_eq!(ctx.textures, TexturesSection { handle_id: 42 });
}

// Mutators record their subsection in the tracker.
#[test]
fn mutations_mark_their_subsection() {
    let mut ctx = Context::bootstrap();
    ctx.confirm_push();
    ctx.insert_font(11);
    ctx.set_zoom_factor(140);
    match ctx.snapshot_deltas() {
        SnapshotDeltas::Partial(set) => {
            assert!(set.fonts);
            assert!(set.options);
            assert!(!set.animation);
        }
        SnapshotDeltas::Full => panic!("marks on a partial set keep it partial"),
    }
    assert_eq!(ctx.fonts.font_ids, vec![11]);
    assert_eq!(ctx.options.zoom_factor_percent, 140);
}
