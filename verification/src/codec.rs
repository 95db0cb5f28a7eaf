//! The snapshot codec: a delta-restricted view of the context is encoded as
//! one presence-flagged block per subsection; decoding always yields the
//! inbound shape, and merging applies an inbound payload subsection by
//! subsection.

use vstd::prelude::*;

use crate::delta::SnapshotDeltas;
use crate::sections::Section;
use crate::state::copy_animation_vec;
use crate::state::copy_u64_vec;
use crate::state::copy_viewport_vec;
use crate::state::AnimationEntry;
use crate::state::AnimationSection;
use crate::state::Context;
use crate::state::ContextView;
use crate::state::FontsSection;
use crate::state::InteractionSection;
use crate::state::Options;
use crate::state::PluginsSection;
use crate::state::TexturesSection;
use crate::state::ViewportEntry;
use crate::wire::dec_animation_seq;
use crate::wire::dec_options;
use crate::wire::dec_u64;
use crate::wire::dec_u64_seq;
use crate::wire::dec_viewport_seq;
use crate::wire::enc_animation_seq;
use crate::wire::enc_options;
use crate::wire::enc_u64;
use crate::wire::enc_u64_seq;
use crate::wire::enc_viewport_seq;
use crate::wire::lemma_dec_enc_animation_seq;
use crate::wire::lemma_dec_enc_options;
use crate::wire::lemma_dec_enc_u64;
use crate::wire::lemma_dec_enc_u64_seq;
use crate::wire::lemma_dec_enc_viewport_seq;
use crate::wire::read_animation_seq;
use crate::wire::read_options;
use crate::wire::read_u64;
use crate::wire::read_u64_seq;
use crate::wire::read_viewport_seq;
use crate::wire::write_animation_seq;
use crate::wire::write_options;
use crate::wire::write_u64;
use crate::wire::write_u64_seq;
use crate::wire::write_viewport_seq;

verus! {

/// The errors of this core.
#[derive(Clone, Copy, Debug, PartialEq, Eq, Structural)]
pub enum SnapshotError {
    /// An inbound-tagged snapshot was handed to the encoder, or the remote
    /// side answered a pull with an outbound-tagged value.
    ContractViolation,
    /// The bytes are not the encoding of any snapshot.
    Malformed,
    /// A mirrored type does not have the size of the type it mirrors.
    LayoutMismatch,
    /// A boundary call failed outright. Never retried here: the caller
    /// decides whether to retry the whole scope or to resynchronize from
    /// scratch with a full baseline.
    RemoteUnavailable,
}

/// A fully materialized, already-decoded snapshot payload: for each
/// subsection, either its new content or nothing.
#[derive(Clone, Debug, PartialEq)]
pub struct ContextSnapshot {
    pub fonts: Option<FontsSection>,
    pub options: Option<Options>,
    pub interaction: Option<InteractionSection>,
    pub animation: Option<AnimationSection>,
    pub plugins: Option<PluginsSection>,
    pub textures: Option<TexturesSection>,
}

/// The mathematical view of a snapshot payload.
pub ghost struct SnapshotView {
    pub fonts: Option<Seq<u64>>,
    pub options: Option<Options>,
    pub interaction: Option<Seq<ViewportEntry>>,
    pub animation: Option<Seq<AnimationEntry>>,
    pub plugins: Option<(Seq<u64>, Seq<u64>)>,
    pub textures: Option<TexturesSection>,
}

impl View for ContextSnapshot {
    type V = SnapshotView;

    open spec fn view(&self) -> SnapshotView {
        SnapshotView {
            fonts: match self.fonts {
                Some(s) => Some(s.font_ids@),
                None => None,
            },
            options: self.options,
            interaction: match self.interaction {
                Some(s) => Some(s.entries@),
                None => None,
            },
            animation: match self.animation {
                Some(s) => Some(s.entries@),
                None => None,
            },
            plugins: match self.plugins {
                Some(s) => Some((s.on_begin_pass@, s.on_end_pass@)),
                None => None,
            },
            textures: self.textures,
        }
    }
}

impl SnapshotView {
    /// A payload the encoder can be held to: section lengths fit the count
    /// prefix and an options section keeps the options invariant.
    pub open spec fn wf(self) -> bool {
        &&& match self.fonts {
            Some(s) => s.len() <= u64::MAX,
            None => true,
        }
        &&& match self.options {
            Some(o) => o.wf(),
            None => true,
        }
        &&& match self.interaction {
            Some(s) => s.len() <= u64::MAX,
            None => true,
        }
        &&& match self.animation {
            Some(s) => s.len() <= u64::MAX,
            None => true,
        }
        &&& match self.plugins {
            Some(p) => p.0.len() <= u64::MAX && p.1.len() <= u64::MAX,
            None => true,
        }
    }
}

// ---------------------------------------------------------------------
// The plugins and textures subsection bodies.
// ---------------------------------------------------------------------
pub open spec fn enc_plugins(p: (Seq<u64>, Seq<u64>)) -> Seq<u8> {
    enc_u64_seq(p.0) + enc_u64_seq(p.1)
}

pub open spec fn dec_plugins(b: Seq<u8>) -> Option<((Seq<u64>, Seq<u64>), Seq<u8>)> {
    match dec_u64_seq(b) {
        None => None,
        Some((s0, b1)) => match dec_u64_seq(b1) {
            None => None,
            Some((s1, b2)) => Some(((s0, s1), b2)),
        },
    }
}

pub proof fn lemma_dec_enc_plugins(p: (Seq<u64>, Seq<u64>), rest: Seq<u8>)
    requires
        p.0.len() <= u64::MAX,
        p.1.len() <= u64::MAX,
    ensures
        dec_plugins(enc_plugins(p) + rest) == Some((p, rest)),
{
    let r1 = enc_u64_seq(p.1) + rest;
    vstd::seq_lib::lemma_concat_associative(enc_u64_seq(p.0), enc_u64_seq(p.1), rest);
    lemma_dec_enc_u64_seq(p.0, r1);
    lemma_dec_enc_u64_seq(p.1, rest);
}

pub open spec fn enc_textures(t: TexturesSection) -> Seq<u8> {
    enc_u64(t.handle_id)
}

pub open spec fn dec_textures(b: Seq<u8>) -> Option<(TexturesSection, Seq<u8>)> {
    match dec_u64(b) {
        None => None,
        Some((x, b1)) => Some((TexturesSection { handle_id: x }, b1)),
    }
}

pub proof fn lemma_dec_enc_textures(t: TexturesSection, rest: Seq<u8>)
    ensures
        dec_textures(enc_textures(t) + rest) == Some((t, rest)),
{
    lemma_dec_enc_u64(t.handle_id, rest);
}

// ---------------------------------------------------------------------
// One presence-flagged block per subsection.
// ---------------------------------------------------------------------
pub open spec fn enc_fonts_sec(o: Option<Seq<u64>>) -> Seq<u8> {
    match o {
        None => seq![0u8],
        Some(s) => seq![1u8] + enc_u64_seq(s),
    }
}

pub open spec fn dec_fonts_sec(b: Seq<u8>) -> Option<(Option<Seq<u64>>, Seq<u8>)> {
    if b.len() < 1 {
        None
    } else if b[0] == 0 {
        Some((None, b.skip(1)))
    } else if b[0] == 1 {
        match dec_u64_seq(b.skip(1)) {
            None => None,
            Some((s, b2)) => Some((Some(s), b2)),
        }
    } else {
        None
    }
}

pub proof fn lemma_dec_enc_fonts_sec(o: Option<Seq<u64>>, rest: Seq<u8>)
    requires
        match o {
            Some(s) => s.len() <= u64::MAX,
            None => true,
        },
    ensures
        dec_fonts_sec(enc_fonts_sec(o) + rest) == Some((o, rest)),
{
    match o {
        None => {
            let e = enc_fonts_sec(o) + rest;
            assert(e[0] == 0u8);
            assert(e.skip(1) =~= rest);
        },
        Some(s) => {
            let e = enc_fonts_sec(o) + rest;
            vstd::seq_lib::lemma_concat_associative(seq![1u8], enc_u64_seq(s), rest);
            assert(e[0] == 1u8);
            assert(e.skip(1) =~= enc_u64_seq(s) + rest);
            lemma_dec_enc_u64_seq(s, rest);
        },
    }
}

pub open spec fn enc_options_sec(o: Option<Options>) -> Seq<u8> {
    match o {
        None => seq![0u8],
        Some(x) => seq![1u8] + enc_options(x),
    }
}

pub open spec fn dec_options_sec(b: Seq<u8>) -> Option<(Option<Options>, Seq<u8>)> {
    if b.len() < 1 {
        None
    } else if b[0] == 0 {
        Some((None, b.skip(1)))
    } else if b[0] == 1 {
        match dec_options(b.skip(1)) {
            None => None,
            Some((x, b2)) => Some((Some(x), b2)),
        }
    } else {
        None
    }
}

pub proof fn lemma_dec_enc_options_sec(o: Option<Options>, rest: Seq<u8>)
    requires
        match o {
            Some(x) => x.wf(),
            None => true,
        },
    ensures
        dec_options_sec(enc_options_sec(o) + rest) == Some((o, rest)),
{
    match o {
        None => {
            let e = enc_options_sec(o) + rest;
            assert(e[0] == 0u8);
            assert(e.skip(1) =~= rest);
        },
        Some(x) => {
            let e = enc_options_sec(o) + rest;
            vstd::seq_lib::lemma_concat_associative(seq![1u8], enc_options(x), rest);
            assert(e[0] == 1u8);
            assert(e.skip(1) =~= enc_options(x) + rest);
            lemma_dec_enc_options(x, rest);
        },
    }
}

pub open spec fn enc_interaction_sec(o: Option<Seq<ViewportEntry>>) -> Seq<u8> {
    match o {
        None => seq![0u8],
        Some(s) => seq![1u8] + enc_viewport_seq(s),
    }
}

pub open spec fn dec_interaction_sec(b: Seq<u8>) -> Option<(Option<Seq<ViewportEntry>>, Seq<u8>)> {
    if b.len() < 1 {
        None
    } else if b[0] == 0 {
        Some((None, b.skip(1)))
    } else if b[0] == 1 {
        match dec_viewport_seq(b.skip(1)) {
            None => None,
            Some((s, b2)) => Some((Some(s), b2)),
        }
    } else {
        None
    }
}

pub proof fn lemma_dec_enc_interaction_sec(o: Option<Seq<ViewportEntry>>, rest: Seq<u8>)
    requires
        match o {
            Some(s) => s.len() <= u64::MAX,
            None => true,
        },
    ensures
        dec_interaction_sec(enc_interaction_sec(o) + rest) == Some((o, rest)),
{
    match o {
        None => {
            let e = enc_interaction_sec(o) + rest;
            assert(e[0] == 0u8);
            assert(e.skip(1) =~= rest);
        },
        Some(s) => {
            let e = enc_interaction_sec(o) + rest;
            vstd::seq_lib::lemma_concat_associative(seq![1u8], enc_viewport_seq(s), rest);
            assert(e[0] == 1u8);
            assert(e.skip(1) =~= enc_viewport_seq(s) + rest);
            lemma_dec_enc_viewport_seq(s, rest);
        },
    }
}

pub open spec fn enc_animation_sec(o: Option<Seq<AnimationEntry>>) -> Seq<u8> {
    match o {
        None => seq![0u8],
        Some(s) => seq![1u8] + enc_animation_seq(s),
    }
}

pub open spec fn dec_animation_sec(b: Seq<u8>) -> Option<(Option<Seq<AnimationEntry>>, Seq<u8>)> {
    if b.len() < 1 {
        None
    } else if b[0] == 0 {
        Some((None, b.skip(1)))
    } else if b[0] == 1 {
        match dec_animation_seq(b.skip(1)) {
            None => None,
            Some((s, b2)) => Some((Some(s), b2)),
        }
    } else {
        None
    }
}

pub proof fn lemma_dec_enc_animation_sec(o: Option<Seq<AnimationEntry>>, rest: Seq<u8>)
    requires
        match o {
            Some(s) => s.len() <= u64::MAX,
            None => true,
        },
    ensures
        dec_animation_sec(enc_animation_sec(o) + rest) == Some((o, rest)),
{
    match o {
        None => {
            let e = enc_animation_sec(o) + rest;
            assert(e[0] == 0u8);
            assert(e.skip(1) =~= rest);
        },
        Some(s) => {
            let e = enc_animation_sec(o) + rest;
            vstd::seq_lib::lemma_concat_associative(seq![1u8], enc_animation_seq(s), rest);
            assert(e[0] == 1u8);
            assert(e.skip(1) =~= enc_animation_seq(s) + rest);
            lemma_dec_enc_animation_seq(s, rest);
        },
    }
}

pub open spec fn enc_plugins_sec(o: Option<(Seq<u64>, Seq<u64>)>) -> Seq<u8> {
    match o {
        None => seq![0u8],
        Some(p) => seq![1u8] + enc_plugins(p),
    }
}

pub open spec fn dec_plugins_sec(b: Seq<u8>) -> Option<(Option<(Seq<u64>, Seq<u64>)>, Seq<u8>)> {
    if b.len() < 1 {
        None
    } else if b[0] == 0 {
        Some((None, b.skip(1)))
    } else if b[0] == 1 {
        match dec_plugins(b.skip(1)) {
            None => None,
            Some((p, b2)) => Some((Some(p), b2)),
        }
    } else {
        None
    }
}

pub proof fn lemma_dec_enc_plugins_sec(o: Option<(Seq<u64>, Seq<u64>)>, rest: Seq<u8>)
    requires
        match o {
            Some(p) => p.0.len() <= u64::MAX && p.1.len() <= u64::MAX,
            None => true,
        },
    ensures
        dec_plugins_sec(enc_plugins_sec(o) + rest) == Some((o, rest)),
{
    match o {
        None => {
            let e = enc_plugins_sec(o) + rest;
            assert(e[0] == 0u8);
            assert(e.skip(1) =~= rest);
        },
        Some(p) => {
            let e = enc_plugins_sec(o) + rest;
            vstd::seq_lib::lemma_concat_associative(seq![1u8], enc_plugins(p), rest);
            assert(e[0] == 1u8);
            assert(e.skip(1) =~= enc_plugins(p) + rest);
            lemma_dec_enc_plugins(p, rest);
        },
    }
}

pub open spec fn enc_textures_sec(o: Option<TexturesSection>) -> Seq<u8> {
    match o {
        None => seq![0u8],
        Some(t) => seq![1u8] + enc_textures(t),
    }
}

pub open spec fn dec_textures_sec(b: Seq<u8>) -> Option<(Option<TexturesSection>, Seq<u8>)> {
    if b.len() < 1 {
        None
    } else if b[0] == 0 {
        Some((None, b.skip(1)))
    } else if b[0] == 1 {
        match dec_textures(b.skip(1)) {
            None => None,
            Some((t, b2)) => Some((Some(t), b2)),
        }
    } else {
        None
    }
}

pub proof fn lemma_dec_enc_textures_sec(o: Option<TexturesSection>, rest: Seq<u8>)
    ensures
        dec_textures_sec(enc_textures_sec(o) + rest) == Some((o, rest)),
{
    match o {
        None => {
            let e = enc_textures_sec(o) + rest;
            assert(e[0] == 0u8);
            assert(e.skip(1) =~= rest);
        },
        Some(t) => {
            let e = enc_textures_sec(o) + rest;
            vstd::seq_lib::lemma_concat_associative(seq![1u8], enc_textures(t), rest);
            assert(e[0] == 1u8);
            assert(e.skip(1) =~= enc_textures(t) + rest);
            lemma_dec_enc_textures(t, rest);
        },
    }
}

// ---------------------------------------------------------------------
// The whole snapshot: the six subsection blocks in a fixed order.
// ---------------------------------------------------------------------
pub open spec fn spec_enc_snapshot(p: SnapshotView) -> Seq<u8> {
    enc_fonts_sec(p.fonts) + enc_options_sec(p.options) + enc_interaction_sec(p.interaction)
        + enc_animation_sec(p.animation) + enc_plugins_sec(p.plugins) + enc_textures_sec(
        p.textures,
    )
}

pub open spec fn dec_snapshot_prefix(b: Seq<u8>) -> Option<(SnapshotView, Seq<u8>)> {
    match dec_fonts_sec(b) {
        None => None,
        Some((fonts, b1)) => match dec_options_sec(b1) {
            None => None,
            Some((options, b2)) => match dec_interaction_sec(b2) {
                None => None,
                Some((interaction, b3)) => match dec_animation_sec(b3) {
                    None => None,
                    Some((animation, b4)) => match dec_plugins_sec(b4) {
                        None => None,
                        Some((plugins, b5)) => match dec_textures_sec(b5) {
                            None => None,
                            Some((textures, b6)) => Some(
                                (
                                    SnapshotView {
                                        fonts,
                                        options,
                                        interaction,
                                        animation,
                                        plugins,
                                        textures,
                                    },
                                    b6,
                                ),
                            ),
                        },
                    },
                },
            },
        },
    }
}

/// The specification-level decoder: the six blocks, with nothing left over.
pub open spec fn spec_dec_snapshot(b: Seq<u8>) -> Option<SnapshotView> {
    match dec_snapshot_prefix(b) {
        None => None,
        Some((p, rest)) => if rest.len() == 0 {
            Some(p)
        } else {
            None
        },
    }
}

/// Decoding the encoding of a well-formed payload yields that payload.
pub proof fn lemma_dec_enc_snapshot_prefix(p: SnapshotView, rest: Seq<u8>)
    requires
        p.wf(),
    ensures
        dec_snapshot_prefix(spec_enc_snapshot(p) + rest) == Some((p, rest)),
{
    let e0 = enc_fonts_sec(p.fonts);
    let e1 = enc_options_sec(p.options);
    let e2 = enc_interaction_sec(p.interaction);
    let e3 = enc_animation_sec(p.animation);
    let e4 = enc_plugins_sec(p.plugins);
    let e5 = enc_textures_sec(p.textures);
    let r5 = e5 + rest;
    let r4 = e4 + r5;
    let r3 = e3 + r4;
    let r2 = e2 + r3;
    let r1 = e1 + r2;
    let p1 = e0 + e1;
    let p2 = p1 + e2;
    let p3 = p2 + e3;
    let p4 = p3 + e4;
    let p5 = p4 + e5;
    assert(spec_enc_snapshot(p) == p5);
    vstd::seq_lib::lemma_concat_associative(p4, e5, rest);
    vstd::seq_lib::lemma_concat_associative(p3, e4, r5);
    vstd::seq_lib::lemma_concat_associative(p2, e3, r4);
    vstd::seq_lib::lemma_concat_associative(p1, e2, r3);
    vstd::seq_lib::lemma_concat_associative(e0, e1, r2);
    assert(spec_enc_snapshot(p) + rest == e0 + r1);
    lemma_dec_enc_fonts_sec(p.fonts, r1);
    lemma_dec_enc_options_sec(p.options, r2);
    lemma_dec_enc_interaction_sec(p.interaction, r3);
    lemma_dec_enc_animation_sec(p.animation, r4);
    lemma_dec_enc_plugins_sec(p.plugins, r5);
    lemma_dec_enc_textures_sec(p.textures, rest);
}

/// Round trip at the specification level: every well-formed payload is
/// exactly recovered from its own encoding.
pub proof fn lemma_snapshot_round_trip(p: SnapshotView)
    requires
        p.wf(),
    ensures
        spec_dec_snapshot(spec_enc_snapshot(p)) == Some(p),
{
    lemma_dec_enc_snapshot_prefix(p, Seq::empty());
    assert(spec_enc_snapshot(p) + Seq::<u8>::empty() =~= spec_enc_snapshot(p));
}

// ---------------------------------------------------------------------
// Views of the optional subsections.
// ---------------------------------------------------------------------
pub open spec fn fonts_view(o: Option<FontsSection>) -> Option<Seq<u64>> {
    match o {
        Some(s) => Some(s.font_ids@),
        None => None,
    }
}

pub open spec fn interaction_view(o: Option<InteractionSection>) -> Option<Seq<ViewportEntry>> {
    match o {
        Some(s) => Some(s.entries@),
        None => None,
    }
}

pub open spec fn animation_view(o: Option<AnimationSection>) -> Option<Seq<AnimationEntry>> {
    match o {
        Some(s) => Some(s.entries@),
        None => None,
    }
}

pub open spec fn plugins_view(o: Option<PluginsSection>) -> Option<(Seq<u64>, Seq<u64>)> {
    match o {
        Some(s) => Some((s.on_begin_pass@, s.on_end_pass@)),
        None => None,
    }
}

// ---------------------------------------------------------------------
// Restriction and merging.
// ---------------------------------------------------------------------
/// The delta-restricted view of a context: a subsection is present exactly
/// when the delta set asks for it; the default (full) set asks for all.
pub open spec fn spec_restrict(v: ContextView, d: SnapshotDeltas) -> SnapshotView {
    SnapshotView {
        fonts: if d.spec_covers(Section::Fonts) {
            Some(v.fonts)
        } else {
            None
        },
        options: if d.spec_covers(Section::Options) {
            Some(v.options)
        } else {
            None
        },
        interaction: if d.spec_covers(Section::Interaction) {
            Some(v.interaction)
        } else {
            None
        },
        animation: if d.spec_covers(Section::Animation) {
            Some(v.animation)
        } else {
            None
        },
        plugins: if d.spec_covers(Section::Plugins) {
            Some((v.plugins_begin, v.plugins_end))
        } else {
            None
        },
        textures: if d.spec_covers(Section::Textures) {
            Some(v.textures)
        } else {
            None
        },
    }
}

/// Applying a payload: every subsection present in the payload is
/// overwritten, every other subsection is left untouched.
pub open spec fn spec_merge(v: ContextView, p: SnapshotView) -> ContextView {
    ContextView {
        fonts: match p.fonts {
            Some(s) => s,
            None => v.fonts,
        },
        options: match p.options {
            Some(o) => o,
            None => v.options,
        },
        interaction: match p.interaction {
            Some(s) => s,
            None => v.interaction,
        },
        animation: match p.animation {
            Some(s) => s,
            None => v.animation,
        },
        plugins_begin: match p.plugins {
            Some(pp) => pp.0,
            None => v.plugins_begin,
        },
        plugins_end: match p.plugins {
            Some(pp) => pp.1,
            None => v.plugins_end,
        },
        textures: match p.textures {
            Some(t) => t,
            None => v.textures,
        },
    }
}

impl Context {
    /// Build the delta-restricted snapshot of this context: the subsections
    /// the delta set names, in full, and nothing else.
    pub fn snapshot_for(&self, deltas: SnapshotDeltas) -> (r: ContextSnapshot)
        ensures
            r@ == spec_restrict(self@, deltas),
    {
        ContextSnapshot {
            fonts: if deltas.covers(Section::Fonts) {
                Some(FontsSection { font_ids: copy_u64_vec(&self.fonts.font_ids) })
            } else {
                None
            },
            options: if deltas.covers(Section::Options) {
                Some(self.options)
            } else {
                None
            },
            interaction: if deltas.covers(Section::Interaction) {
                Some(InteractionSection { entries: copy_viewport_vec(&self.interaction.entries) })
            } else {
                None
            },
            animation: if deltas.covers(Section::Animation) {
                Some(AnimationSection { entries: copy_animation_vec(&self.animation.entries) })
            } else {
                None
            },
            plugins: if deltas.covers(Section::Plugins) {
                Some(
                    PluginsSection {
                        on_begin_pass: copy_u64_vec(&self.plugins.on_begin_pass),
                        on_end_pass: copy_u64_vec(&self.plugins.on_end_pass),
                    },
                )
            } else {
                None
            },
            textures: if deltas.covers(Section::Textures) {
                Some(self.textures)
            } else {
                None
            },
        }
    }

    /// Apply a decoded payload onto this context, subsection by subsection.
    /// Merging never touches the delta tracker: inbound state is what the
    /// remote side already has, not a local change to be pushed back.
    pub fn apply_snapshot(&mut self, snapshot: &ContextSnapshot)
        ensures
            final(self)@ == spec_merge(old(self)@, snapshot@),
            final(self).tracker == old(self).tracker,
    {
        match &snapshot.fonts {
            Some(s) => {
                self.fonts = FontsSection { font_ids: copy_u64_vec(&s.font_ids) };
            },
            None => {},
        }
        match &snapshot.options {
            Some(o) => {
                self.options = *o;
            },
            None => {},
        }
        match &snapshot.interaction {
            Some(s) => {
                self.interaction = InteractionSection { entries: copy_viewport_vec(&s.entries) };
            },
            None => {},
        }
        match &snapshot.animation {
            Some(s) => {
                self.animation = AnimationSection { entries: copy_animation_vec(&s.entries) };
            },
            None => {},
        }
        match &snapshot.plugins {
            Some(s) => {
                self.plugins = PluginsSection {
                    on_begin_pass: copy_u64_vec(&s.on_begin_pass),
                    on_end_pass: copy_u64_vec(&s.on_end_pass),
                };
            },
            None => {},
        }
        match &snapshot.textures {
            Some(t) => {
                self.textures = *t;
            },
            None => {},
        }
    }
}

// ---------------------------------------------------------------------
// Executable encoding of one subsection block each.
// ---------------------------------------------------------------------
fn write_fonts_sec(out: &mut Vec<u8>, o: &Option<FontsSection>)
    ensures
        final(out)@ == old(out)@ + enc_fonts_sec(fonts_view(*o)),
{
    match o {
        None => {
            out.push(0u8);
            proof {
                assert(out@ =~= old(out)@ + enc_fonts_sec(fonts_view(*o)));
            }
        },
        Some(s) => {
            out.push(1u8);
            proof {
                assert(out@ =~= old(out)@ + seq![1u8]);
            }
            write_u64_seq(out, &s.font_ids);
            proof {
                vstd::seq_lib::lemma_concat_associative(
                    old(out)@,
                    seq![1u8],
                    enc_u64_seq(s.font_ids@),
                );
            }
        },
    }
}

fn write_options_sec(out: &mut Vec<u8>, o: &Option<Options>)
    ensures
        final(out)@ == old(out)@ + enc_options_sec(*o),
{
    match o {
        None => {
            out.push(0u8);
            proof {
                assert(out@ =~= old(out)@ + enc_options_sec(*o));
            }
        },
        Some(x) => {
            out.push(1u8);
            proof {
                assert(out@ =~= old(out)@ + seq![1u8]);
            }
            write_options(out, x);
            proof {
                vstd::seq_lib::lemma_concat_associative(old(out)@, seq![1u8], enc_options(*x));
            }
        },
    }
}

fn write_interaction_sec(out: &mut Vec<u8>, o: &Option<InteractionSection>)
    ensures
        final(out)@ == old(out)@ + enc_interaction_sec(interaction_view(*o)),
{
    match o {
        None => {
            out.push(0u8);
            proof {
                assert(out@ =~= old(out)@ + enc_interaction_sec(interaction_view(*o)));
            }
        },
        Some(s) => {
            out.push(1u8);
            proof {
                assert(out@ =~= old(out)@ + seq![1u8]);
            }
            write_viewport_seq(out, &s.entries);
            proof {
                vstd::seq_lib::lemma_concat_associative(
                    old(out)@,
                    seq![1u8],
                    enc_viewport_seq(s.entries@),
                );
            }
        },
    }
}

fn write_animation_sec(out: &mut Vec<u8>, o: &Option<AnimationSection>)
    ensures
        final(out)@ == old(out)@ + enc_animation_sec(animation_view(*o)),
{
    match o {
        None => {
            out.push(0u8);
            proof {
                assert(out@ =~= old(out)@ + enc_animation_sec(animation_view(*o)));
            }
        },
        Some(s) => {
            out.push(1u8);
            proof {
                assert(out@ =~= old(out)@ + seq![1u8]);
            }
            write_animation_seq(out, &s.entries);
            proof {
                vstd::seq_lib::lemma_concat_associative(
                    old(out)@,
                    seq![1u8],
                    enc_animation_seq(s.entries@),
                );
            }
        },
    }
}

fn write_plugins_sec(out: &mut Vec<u8>, o: &Option<PluginsSection>)
    ensures
        final(out)@ == old(out)@ + enc_plugins_sec(plugins_view(*o)),
{
    match o {
        None => {
            out.push(0u8);
            proof {
                assert(out@ =~= old(out)@ + enc_plugins_sec(plugins_view(*o)));
            }
        },
        Some(s) => {
            out.push(1u8);
            proof {
                assert(out@ =~= old(out)@ + seq![1u8]);
            }
            let ghost mid = out@;
            write_u64_seq(out, &s.on_begin_pass);
            write_u64_seq(out, &s.on_end_pass);
            proof {
                vstd::seq_lib::lemma_concat_associative(
                    mid,
                    enc_u64_seq(s.on_begin_pass@),
                    enc_u64_seq(s.on_end_pass@),
                );
                vstd::seq_lib::lemma_concat_associative(
                    old(out)@,
                    seq![1u8],
                    enc_plugins((s.on_begin_pass@, s.on_end_pass@)),
                );
            }
        },
    }
}

fn write_textures_sec(out: &mut Vec<u8>, o: &Option<TexturesSection>)
    ensures
        final(out)@ == old(out)@ + enc_textures_sec(*o),
{
    match o {
        None => {
            out.push(0u8);
            proof {
                assert(out@ =~= old(out)@ + enc_textures_sec(*o));
            }
        },
        Some(t) => {
            out.push(1u8);
            proof {
                assert(out@ =~= old(out)@ + seq![1u8]);
            }
            write_u64(out, t.handle_id);
            proof {
                vstd::seq_lib::lemma_concat_associative(
                    old(out)@,
                    seq![1u8],
                    enc_textures(*t),
                );
            }
        },
    }
}

/// Encode a payload as bytes: the six subsection blocks in order.
pub fn encode_payload(p: &ContextSnapshot) -> (out: Vec<u8>)
    ensures
        out@ == spec_enc_snapshot(p@),
{
    let mut out: Vec<u8> = Vec::new();
    let ghost base = out@;
    write_fonts_sec(&mut out, &p.fonts);
    proof {
        assert(base + enc_fonts_sec(fonts_view(p.fonts)) =~= enc_fonts_sec(fonts_view(p.fonts)));
    }
    write_options_sec(&mut out, &p.options);
    write_interaction_sec(&mut out, &p.interaction);
    write_animation_sec(&mut out, &p.animation);
    write_plugins_sec(&mut out, &p.plugins);
    write_textures_sec(&mut out, &p.textures);
    out
}

// ---------------------------------------------------------------------
// Executable decoding of one subsection block each.
// ---------------------------------------------------------------------
fn read_fonts_sec(bytes: &Vec<u8>, pos: usize) -> (r: Option<(Option<FontsSection>, usize)>)
    requires
        pos <= bytes@.len(),
    ensures
        match r {
            Some(v) => dec_fonts_sec(bytes@.skip(pos as int)) == Some(
                (fonts_view(v.0), bytes@.skip(v.1 as int)),
            ) && pos <= v.1 <= bytes@.len(),
            None => dec_fonts_sec(bytes@.skip(pos as int)) is None,
        },
{
    if bytes.len() - pos < 1 {
        return None;
    }
    proof {
        assert(bytes@.skip(pos as int)[0] == bytes@[pos as int]);
        assert(bytes@.skip(pos as int).skip(1) =~= bytes@.skip(pos as int + 1));
    }
    let t = bytes[pos];
    if t == 0 {
        Some((None, pos + 1))
    } else if t == 1 {
        match read_u64_seq(bytes, pos + 1) {
            None => None,
            Some((v, p2)) => Some((Some(FontsSection { font_ids: v }), p2)),
        }
    } else {
        None
    }
}

fn read_options_sec(bytes: &Vec<u8>, pos: usize) -> (r: Option<(Option<Options>, usize)>)
    requires
        pos <= bytes@.len(),
    ensures
        match r {
            Some(v) => dec_options_sec(bytes@.skip(pos as int)) == Some(
                (v.0, bytes@.skip(v.1 as int)),
            ) && pos <= v.1 <= bytes@.len(),
            None => dec_options_sec(bytes@.skip(pos as int)) is None,
        },
{
    if bytes.len() - pos < 1 {
        return None;
    }
    proof {
        assert(bytes@.skip(pos as int)[0] == bytes@[pos as int]);
        assert(bytes@.skip(pos as int).skip(1) =~= bytes@.skip(pos as int + 1));
    }
    let t = bytes[pos];
    if t == 0 {
        Some((None, pos + 1))
    } else if t == 1 {
        match read_options(bytes, pos + 1) {
            None => None,
            Some((v, p2)) => Some((Some(v), p2)),
        }
    } else {
        None
    }
}

fn read_interaction_sec(bytes: &Vec<u8>, pos: usize) -> (r: Option<
    (Option<InteractionSection>, usize),
>)
    requires
        pos <= bytes@.len(),
    ensures
        match r {
            Some(v) => dec_interaction_sec(bytes@.skip(pos as int)) == Some(
                (interaction_view(v.0), bytes@.skip(v.1 as int)),
            ) && pos <= v.1 <= bytes@.len(),
            None => dec_interaction_sec(bytes@.skip(pos as int)) is None,
        },
{
    if bytes.len() - pos < 1 {
        return None;
    }
    proof {
        assert(bytes@.skip(pos as int)[0] == bytes@[pos as int]);
        assert(bytes@.skip(pos as int).skip(1) =~= bytes@.skip(pos as int + 1));
    }
    let t = bytes[pos];
    if t == 0 {
        Some((None, pos + 1))
    } else if t == 1 {
        match read_viewport_seq(bytes, pos + 1) {
            None => None,
            Some((v, p2)) => Some((Some(InteractionSection { entries: v }), p2)),
        }
    } else {
        None
    }
}

fn read_animation_sec(bytes: &Vec<u8>, pos: usize) -> (r: Option<
    (Option<AnimationSection>, usize),
>)
    requires
        pos <= bytes@.len(),
    ensures
        match r {
            Some(v) => dec_animation_sec(bytes@.skip(pos as int)) == Some(
                (animation_view(v.0), bytes@.skip(v.1 as int)),
            ) && pos <= v.1 <= bytes@.len(),
            None => dec_animation_sec(bytes@.skip(pos as int)) is None,
        },
{
    if bytes.len() - pos < 1 {
        return None;
    }
    proof {
        assert(bytes@.skip(pos as int)[0] == bytes@[pos as int]);
        assert(bytes@.skip(pos as int).skip(1) =~= bytes@.skip(pos as int + 1));
    }
    let t = bytes[pos];
    if t == 0 {
        Some((None, pos + 1))
    } else if t == 1 {
        match read_animation_seq(bytes, pos + 1) {
            None => None,
            Some((v, p2)) => Some((Some(AnimationSection { entries: v }), p2)),
        }
    } else {
        None
    }
}

fn read_plugins_sec(bytes: &Vec<u8>, pos: usize) -> (r: Option<(Option<PluginsSection>, usize)>)
    requires
        pos <= bytes@.len(),
    ensures
        match r {
            Some(v) => dec_plugins_sec(bytes@.skip(pos as int)) == Some(
                (plugins_view(v.0), bytes@.skip(v.1 as int)),
            ) && pos <= v.1 <= bytes@.len(),
            None => dec_plugins_sec(bytes@.skip(pos as int)) is None,
        },
{
    if bytes.len() - pos < 1 {
        return None;
    }
    proof {
        assert(bytes@.skip(pos as int)[0] == bytes@[pos as int]);
        assert(bytes@.skip(pos as int).skip(1) =~= bytes@.skip(pos as int + 1));
    }
    let t = bytes[pos];
    if t == 0 {
        Some((None, pos + 1))
    } else if t == 1 {
        match read_u64_seq(bytes, pos + 1) {
            None => None,
            Some((v0, p2)) => match read_u64_seq(bytes, p2) {
                None => None,
                Some((v1, p3)) => Some(
                    (Some(PluginsSection { on_begin_pass: v0, on_end_pass: v1 }), p3),
                ),
            },
        }
    } else {
        None
    }
}

fn read_textures_sec(bytes: &Vec<u8>, pos: usize) -> (r: Option<(Option<TexturesSection>, usize)>)
    requires
        pos <= bytes@.len(),
    ensures
        match r {
            Some(v) => dec_textures_sec(bytes@.skip(pos as int)) == Some(
                (v.0, bytes@.skip(v.1 as int)),
            ) && pos <= v.1 <= bytes@.len(),
            None => dec_textures_sec(bytes@.skip(pos as int)) is None,
        },
{
    if bytes.len() - pos < 1 {
        return None;
    }
    proof {
        assert(bytes@.skip(pos as int)[0] == bytes@[pos as int]);
        assert(bytes@.skip(pos as int).skip(1) =~= bytes@.skip(pos as int + 1));
    }
    let t = bytes[pos];
    if t == 0 {
        Some((None, pos + 1))
    } else if t == 1 {
        match read_u64(bytes, pos + 1) {
            None => None,
            Some((x, p2)) => Some((Some(TexturesSection { handle_id: x }), p2)),
        }
    } else {
        None
    }
}

/// Decode a payload from bytes; every byte must belong to the encoding.
#[verifier::rlimit(60)]
pub fn decode_payload(bytes: &Vec<u8>) -> (r: Result<ContextSnapshot, SnapshotError>)
    ensures
        match spec_dec_snapshot(bytes@) {
            Some(pv) => match r {
                Result::Ok(p) => p@ == pv,
                Result::Err(_) => false,
            },
            None => match r {
                Result::Ok(_) => false,
                Result::Err(e) => e == SnapshotError::Malformed,
            },
        },
{
    proof {
        assert(bytes@.skip(0) =~= bytes@);
    }
    match read_fonts_sec(bytes, 0) {
        None => Err(SnapshotError::Malformed),
        Some((fonts, p1)) => match read_options_sec(bytes, p1) {
            None => Err(SnapshotError::Malformed),
            Some((options, p2)) => match read_interaction_sec(bytes, p2) {
                None => Err(SnapshotError::Malformed),
                Some((interaction, p3)) => match read_animation_sec(bytes, p3) {
                    None => Err(SnapshotError::Malformed),
                    Some((animation, p4)) => match read_plugins_sec(bytes, p4) {
                        None => Err(SnapshotError::Malformed),
                        Some((plugins, p5)) => match read_textures_sec(bytes, p5) {
                            None => Err(SnapshotError::Malformed),
                            Some((textures, p6)) => {
                                if p6 == bytes.len() {
                                    proof {
                                        assert(bytes@.skip(p6 as int).len() == 0);
                                    }
                                    Ok(
                                        ContextSnapshot {
                                            fonts,
                                            options,
                                            interaction,
                                            animation,
                                            plugins,
                                            textures,
                                        },
                                    )
                                } else {
                                    proof {
                                        assert(bytes@.skip(p6 as int).len() != 0);
                                    }
                                    Err(SnapshotError::Malformed)
                                }
                            },
                        },
                    },
                },
            },
        },
    }
}

// ---------------------------------------------------------------------
// The tagged snapshot union.
// ---------------------------------------------------------------------
/// A snapshot is either inbound (already decoded, the only decode result)
/// or outbound (a context together with the delta set to restrict it to,
/// the only encodable shape).
pub enum CreateContextSnapshot {
    /// Inbound: a materialized payload, the result of decoding.
    Created(ContextSnapshot),
    /// Outbound: a live context and a delta set, meaningful only for
    /// encoding.
    FromContext(Context, SnapshotDeltas),
}

/// Encode a snapshot. An inbound value has no serialized form: asking for
/// one is a contract violation, never an empty payload.
pub fn encode_snapshot(snap: &CreateContextSnapshot) -> (r: Result<Vec<u8>, SnapshotError>)
    ensures
        match *snap {
            CreateContextSnapshot::Created(_) => match r {
                Result::Ok(_) => false,
                Result::Err(e) => e == SnapshotError::ContractViolation,
            },
            CreateContextSnapshot::FromContext(ctx, d) => match r {
                Result::Ok(out) => out@ == spec_enc_snapshot(spec_restrict(ctx@, d)),
                Result::Err(_) => false,
            },
        },
{
    match snap {
        CreateContextSnapshot::Created(_) => Err(SnapshotError::ContractViolation),
        CreateContextSnapshot::FromContext(ctx, d) => {
            let payload = ctx.snapshot_for(*d);
            Ok(encode_payload(&payload))
        },
    }
}

/// Decode bytes into an inbound snapshot; decoding never yields the
/// outbound shape and never touches any context.
pub fn decode_snapshot(bytes: &Vec<u8>) -> (r: Result<CreateContextSnapshot, SnapshotError>)
    ensures
        match spec_dec_snapshot(bytes@) {
            Some(pv) => match r {
                Result::Ok(s) => match s {
                    CreateContextSnapshot::Created(p) => p@ == pv,
                    CreateContextSnapshot::FromContext(_, _) => false,
                },
                Result::Err(_) => false,
            },
            None => match r {
                Result::Ok(_) => false,
                Result::Err(e) => e == SnapshotError::Malformed,
            },
        },
{
    match decode_payload(bytes) {
        Ok(p) => Ok(CreateContextSnapshot::Created(p)),
        Err(e) => Err(e),
    }
}

// ---------------------------------------------------------------------
// Laws of restriction and merging.
// ---------------------------------------------------------------------
/// Merging the same payload a second time changes nothing: the state after
/// the first and the second merge is identical.
pub proof fn lemma_merge_idempotent(v: ContextView, p: SnapshotView)
    ensures
        spec_merge(spec_merge(v, p), p) == spec_merge(v, p),
{
}

/// A snapshot restricted by the default (full) delta set carries every
/// subsection, so merging it restores the source state wherever it lands.
pub proof fn lemma_merge_full_restores(w: ContextView, v: ContextView)
    ensures
        spec_merge(w, spec_restrict(v, SnapshotDeltas::Full)) == v,
{
}

/// The default ("everything changed") baseline yields a complete snapshot:
/// every subsection is present and carries the source state.
pub proof fn lemma_restrict_full_complete(v: ContextView)
    ensures
        spec_restrict(v, SnapshotDeltas::Full).fonts == Some(v.fonts),
        spec_restrict(v, SnapshotDeltas::Full).options == Some(v.options),
        spec_restrict(v, SnapshotDeltas::Full).interaction == Some(v.interaction),
        spec_restrict(v, SnapshotDeltas::Full).animation == Some(v.animation),
        spec_restrict(v, SnapshotDeltas::Full).plugins == Some((v.plugins_begin, v.plugins_end)),
        spec_restrict(v, SnapshotDeltas::Full).textures == Some(v.textures),
{
}

/// A subsection the delta set does not name is absent from the restricted
/// snapshot: the payload excludes everything unchanged.
pub proof fn lemma_restrict_excludes_unnamed(v: ContextView, d: SnapshotDeltas)
    ensures
        !d.spec_covers(Section::Fonts) ==> spec_restrict(v, d).fonts is None,
        !d.spec_covers(Section::Options) ==> spec_restrict(v, d).options is None,
        !d.spec_covers(Section::Interaction) ==> spec_restrict(v, d).interaction is None,
        !d.spec_covers(Section::Animation) ==> spec_restrict(v, d).animation is None,
        !d.spec_covers(Section::Plugins) ==> spec_restrict(v, d).plugins is None,
        !d.spec_covers(Section::Textures) ==> spec_restrict(v, d).textures is None,
{
}

impl ContextView {
    /// The section contents fit the wire format's count prefixes.
    pub open spec fn bounded(self) -> bool {
        &&& self.fonts.len() <= u64::MAX
        &&& self.interaction.len() <= u64::MAX
        &&& self.animation.len() <= u64::MAX
        &&& self.plugins_begin.len() <= u64::MAX
        &&& self.plugins_end.len() <= u64::MAX
    }
}

/// The full round trip: encoding a context with the default (full) delta
/// set, decoding the bytes, and merging the payload into any state — a
/// fresh default one included — restores the source context exactly.
pub proof fn lemma_full_state_round_trip(c: ContextView, w: ContextView)
    requires
        c.wf(),
        c.bounded(),
    ensures
        spec_dec_snapshot(spec_enc_snapshot(spec_restrict(c, SnapshotDeltas::Full))) == Some(
            spec_restrict(c, SnapshotDeltas::Full),
        ),
        spec_merge(w, spec_restrict(c, SnapshotDeltas::Full)) == c,
{
    lemma_snapshot_round_trip(spec_restrict(c, SnapshotDeltas::Full));
    lemma_merge_full_restores(w, c);
}

} // verus!
