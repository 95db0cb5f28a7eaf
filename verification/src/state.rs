//! The shared context: plain-valued models of the tracked subsections, the
//! options/style logic, and structural comparison of two observation points.

use vstd::prelude::*;

use crate::delta::DeltaTracker;
use crate::delta::SnapshotDeltas;
use crate::sections::SectionSet;

verus! {

#[derive(Clone, Copy, Debug, PartialEq, Eq, Structural)]
pub enum Theme {
    Dark,
    Light,
}

#[derive(Clone, Copy, Debug, PartialEq, Eq, Structural)]
pub enum ThemePreference {
    Dark,
    Light,
    System,
}

#[derive(Clone, Copy, Debug, PartialEq, Eq, Structural)]
pub enum TextStyle {
    Small,
    Body,
    Monospace,
    Button,
    Heading,
}

/// The style subsection of the options: plain-valued settings only.
#[derive(Clone, Copy, Debug, PartialEq, Eq, Structural)]
pub struct Style {
    pub drag_value_text_style: TextStyle,
    pub animation_time_millis: u64,
    pub explanation_tooltips: bool,
    pub url_in_tooltip: bool,
    pub compact_menu_style: bool,
}

impl Style {
    pub open spec fn spec_default() -> Style {
        Style {
            drag_value_text_style: TextStyle::Button,
            animation_time_millis: 83,
            explanation_tooltips: false,
            url_in_tooltip: false,
            compact_menu_style: false,
        }
    }
}

impl Default for Style {
    fn default() -> (r: Style)
        ensures
            r == Style::spec_default(),
    {
        Style {
            drag_value_text_style: TextStyle::Button,
            animation_time_millis: 83,
            explanation_tooltips: false,
            url_in_tooltip: false,
            compact_menu_style: false,
        }
    }
}

/// The options subsection: one style per theme plus plain settings.
#[derive(Clone, Copy, Debug, PartialEq)]
pub struct Options {
    pub dark_style: Style,
    pub light_style: Style,
    pub theme_preference: ThemePreference,
    pub fallback_theme: Theme,
    pub system_theme: Option<Theme>,
    pub zoom_factor_percent: u64,
    pub zoom_with_keyboard: bool,
    pub max_passes: u64,
    pub reduce_texture_memory: bool,
}

impl Options {
    /// Options are well formed when at least one pass is always allowed.
    pub open spec fn wf(self) -> bool {
        self.max_passes >= 1
    }

    pub open spec fn spec_initial() -> Options {
        Options {
            dark_style: Style::spec_default(),
            light_style: Style::spec_default(),
            theme_preference: ThemePreference::System,
            fallback_theme: Theme::Dark,
            system_theme: None,
            zoom_factor_percent: 100,
            zoom_with_keyboard: true,
            max_passes: 2,
            reduce_texture_memory: false,
        }
    }

    pub open spec fn spec_theme(self) -> Theme {
        match self.theme_preference {
            ThemePreference::Dark => Theme::Dark,
            ThemePreference::Light => Theme::Light,
            ThemePreference::System => match self.system_theme {
                Some(t) => t,
                None => self.fallback_theme,
            },
        }
    }

    pub open spec fn spec_style(self) -> Style {
        match self.spec_theme() {
            Theme::Dark => self.dark_style,
            Theme::Light => self.light_style,
        }
    }

    /// The theme in force: the explicit preference, or the system theme when
    /// the preference defers to it, or the fallback when none is known.
    pub fn theme(&self) -> (r: Theme)
        ensures
            r == self.spec_theme(),
    {
        match self.theme_preference {
            ThemePreference::Dark => Theme::Dark,
            ThemePreference::Light => Theme::Light,
            ThemePreference::System => match self.system_theme {
                Some(t) => t,
                None => self.fallback_theme,
            },
        }
    }

    /// The style of the theme in force.
    pub fn style(&self) -> (r: &Style)
        ensures
            *r == self.spec_style(),
    {
        match self.theme() {
            Theme::Dark => &self.dark_style,
            Theme::Light => &self.light_style,
        }
    }

    /// Mutable access to the style of the theme in force; the other theme's
    /// style and every other field stay as they are.
    pub fn style_mut(&mut self) -> (r: &mut Style)
        ensures
            *r == old(self).spec_style(),
            old(self).spec_theme() == Theme::Dark ==> *final(self) == (Options {
                dark_style: *final(r),
                ..*old(self)
            }),
            old(self).spec_theme() == Theme::Light ==> *final(self) == (Options {
                light_style: *final(r),
                ..*old(self)
            }),
    {
        match self.theme() {
            Theme::Dark => &mut self.dark_style,
            Theme::Light => &mut self.light_style,
        }
    }
}

/// Interaction state of one viewport.
#[derive(Clone, Copy, Debug, PartialEq)]
pub struct InteractionState {
    pub potential_click_id: Option<u64>,
    pub potential_drag_id: Option<u64>,
}

/// One viewport's entry in the interaction subsection.
#[derive(Clone, Copy, Debug, PartialEq)]
pub struct ViewportEntry {
    pub viewport_id: u64,
    pub state: InteractionState,
}

/// One running animation.
#[derive(Clone, Copy, Debug, PartialEq, Eq, Structural)]
pub struct AnimationEntry {
    pub id: u64,
    pub progress_millis: u64,
}

#[derive(Clone, Debug, PartialEq)]
pub struct FontsSection {
    pub font_ids: Vec<u64>,
}

#[derive(Clone, Debug, PartialEq)]
pub struct InteractionSection {
    pub entries: Vec<ViewportEntry>,
}

#[derive(Clone, Debug, PartialEq)]
pub struct AnimationSection {
    pub entries: Vec<AnimationEntry>,
}

/// Plugin callback lists, by callback identifier.
#[derive(Clone, Debug, PartialEq)]
pub struct PluginsSection {
    pub on_begin_pass: Vec<u64>,
    pub on_end_pass: Vec<u64>,
}

/// The texture-manager handle.
#[derive(Clone, Copy, Debug, PartialEq, Eq, Structural)]
pub struct TexturesSection {
    pub handle_id: u64,
}

/// The mathematical view of a context: the tracked subsections and nothing
/// else. Two contexts are observably equal exactly when their views are.
pub ghost struct ContextView {
    pub fonts: Seq<u64>,
    pub options: Options,
    pub interaction: Seq<ViewportEntry>,
    pub animation: Seq<AnimationEntry>,
    pub plugins_begin: Seq<u64>,
    pub plugins_end: Seq<u64>,
    pub textures: TexturesSection,
}

impl ContextView {
    pub open spec fn wf(self) -> bool {
        self.options.wf()
    }

    /// The state after the very first neutral processing cycle.
    pub open spec fn spec_initial() -> ContextView {
        ContextView {
            fonts: Seq::empty(),
            options: Options::spec_initial(),
            interaction: Seq::empty(),
            animation: Seq::empty(),
            plugins_begin: Seq::empty(),
            plugins_end: Seq::empty(),
            textures: TexturesSection { handle_id: 0 },
        }
    }
}

/// The one shared context: the tracked subsections plus the delta tracker
/// that records changes since the last confirmed push.
pub struct Context {
    pub fonts: FontsSection,
    pub options: Options,
    pub interaction: InteractionSection,
    pub animation: AnimationSection,
    pub plugins: PluginsSection,
    pub textures: TexturesSection,
    pub tracker: DeltaTracker,
}

impl View for Context {
    type V = ContextView;

    open spec fn view(&self) -> ContextView {
        ContextView {
            fonts: self.fonts.font_ids@,
            options: self.options,
            interaction: self.interaction.entries@,
            animation: self.animation.entries@,
            plugins_begin: self.plugins.on_begin_pass@,
            plugins_end: self.plugins.on_end_pass@,
            textures: self.textures,
        }
    }
}

/// Which subsections differ structurally between two observation points.
pub open spec fn spec_diff(a: ContextView, b: ContextView) -> SectionSet {
    SectionSet {
        fonts: a.fonts != b.fonts,
        options: a.options != b.options,
        interaction: a.interaction != b.interaction,
        animation: a.animation != b.animation,
        plugins: a.plugins_begin != b.plugins_begin || a.plugins_end != b.plugins_end,
        textures: a.textures != b.textures,
    }
}

/// An observation point differs in nothing from itself: a scope in which
/// nothing was recorded as changed releases an empty delta set.
pub proof fn lemma_diff_reflexive(v: ContextView)
    ensures
        spec_diff(v, v) == SectionSet::spec_empty(),
{
}

impl Context {
    /// One-time bootstrap: the neutral initial state, with the tracker in
    /// its first-use ("everything changed") state.
    pub fn bootstrap() -> (c: Context)
        ensures
            c@ == ContextView::spec_initial(),
            c.tracker.pending == SnapshotDeltas::Full,
    {
        let c = Context {
            fonts: FontsSection { font_ids: Vec::new() },
            options: Options {
                dark_style: Style::default(),
                light_style: Style::default(),
                theme_preference: ThemePreference::System,
                fallback_theme: Theme::Dark,
                system_theme: None,
                zoom_factor_percent: 100,
                zoom_with_keyboard: true,
                max_passes: 2,
                reduce_texture_memory: false,
            },
            interaction: InteractionSection { entries: Vec::new() },
            animation: AnimationSection { entries: Vec::new() },
            plugins: PluginsSection { on_begin_pass: Vec::new(), on_end_pass: Vec::new() },
            textures: TexturesSection { handle_id: 0 },
            tracker: DeltaTracker::new(),
        };
        proof {
            assert(c@ =~= ContextView::spec_initial());
        }
        c
    }

    /// The accumulated delta baseline since the last confirmed push.
    pub fn snapshot_deltas(&self) -> (r: SnapshotDeltas)
        ensures
            r == self.tracker.pending,
    {
        self.tracker.baseline()
    }

    /// Clear the pending delta set; to be called only once a push has been
    /// confirmed successful. The observable state is untouched.
    pub fn confirm_push(&mut self)
        ensures
            final(self)@ == old(self)@,
            final(self).tracker.pending == SnapshotDeltas::Partial(SectionSet::spec_empty()),
    {
        self.tracker.confirm_push();
    }

    /// A value-identical copy, usable as an observation point.
    pub fn duplicate(&self) -> (r: Context)
        ensures
            r@ == self@,
            r.tracker.pending == self.tracker.pending,
    {
        let r = Context {
            fonts: FontsSection { font_ids: copy_u64_vec(&self.fonts.font_ids) },
            options: self.options,
            interaction: InteractionSection { entries: copy_viewport_vec(&self.interaction.entries) },
            animation: AnimationSection { entries: copy_animation_vec(&self.animation.entries) },
            plugins: PluginsSection {
                on_begin_pass: copy_u64_vec(&self.plugins.on_begin_pass),
                on_end_pass: copy_u64_vec(&self.plugins.on_end_pass),
            },
            textures: self.textures,
            tracker: DeltaTracker { pending: self.tracker.baseline() },
        };
        proof {
            assert(r@ =~= self@);
        }
        r
    }

    /// Change the zoom factor: one numeric option. Only the options
    /// subsection changes, and the change is recorded in the tracker.
    pub fn set_zoom_factor(&mut self, percent: u64)
        ensures
            final(self)@ == (ContextView {
                options: Options { zoom_factor_percent: percent, ..old(self)@.options },
                ..old(self)@
            }),
            final(self).tracker.pending == old(self).tracker.pending.spec_mark(
                crate::sections::Section::Options,
            ),
    {
        self.options.zoom_factor_percent = percent;
        self.tracker.mark_changed(crate::sections::Section::Options);
    }

    /// Install a font: only the fonts subsection changes, and the change is
    /// recorded in the tracker.
    pub fn insert_font(&mut self, font_id: u64)
        ensures
            final(self)@ == (ContextView {
                fonts: old(self)@.fonts.push(font_id),
                ..old(self)@
            }),
            final(self).tracker.pending == old(self).tracker.pending.spec_mark(
                crate::sections::Section::Fonts,
            ),
    {
        self.fonts.font_ids.push(font_id);
        self.tracker.mark_changed(crate::sections::Section::Fonts);
        proof {
            assert(self@ =~= (ContextView { fonts: old(self)@.fonts.push(font_id), ..old(self)@ }));
        }
    }
}

/// Copy a vector of identifiers, element for element.
pub fn copy_u64_vec(v: &Vec<u64>) -> (r: Vec<u64>)
    ensures
        r@ == v@,
{
    let mut r: Vec<u64> = Vec::new();
    let mut i: usize = 0;
    while i < v.len()
        invariant
            i <= v@.len(),
            r@ == v@.take(i as int),
        decreases v@.len() - i,
    {
        r.push(v[i]);
        proof {
            assert(r@ =~= v@.take(i as int + 1));
        }
        i = i + 1;
    }
    proof {
        assert(r@ =~= v@);
    }
    r
}

/// Copy the interaction entries, element for element.
pub fn copy_viewport_vec(v: &Vec<ViewportEntry>) -> (r: Vec<ViewportEntry>)
    ensures
        r@ == v@,
{
    let mut r: Vec<ViewportEntry> = Vec::new();
    let mut i: usize = 0;
    while i < v.len()
        invariant
            i <= v@.len(),
            r@ == v@.take(i as int),
        decreases v@.len() - i,
    {
        r.push(v[i]);
        proof {
            assert(r@ =~= v@.take(i as int + 1));
        }
        i = i + 1;
    }
    proof {
        assert(r@ =~= v@);
    }
    r
}

/// Copy the animation entries, element for element.
pub fn copy_animation_vec(v: &Vec<AnimationEntry>) -> (r: Vec<AnimationEntry>)
    ensures
        r@ == v@,
{
    let mut r: Vec<AnimationEntry> = Vec::new();
    let mut i: usize = 0;
    while i < v.len()
        invariant
            i <= v@.len(),
            r@ == v@.take(i as int),
        decreases v@.len() - i,
    {
        r.push(v[i]);
        proof {
            assert(r@ =~= v@.take(i as int + 1));
        }
        i = i + 1;
    }
    proof {
        assert(r@ =~= v@);
    }
    r
}

/// Structural equality of two identifier vectors.
pub fn u64_vec_eq(a: &Vec<u64>, b: &Vec<u64>) -> (r: bool)
    ensures
        r == (a@ == b@),
{
    if a.len() != b.len() {
        return false;
    }
    let mut i: usize = 0;
    while i < a.len()
        invariant
            i <= a@.len(),
            a@.len() == b@.len(),
            forall|j: int| 0 <= j < i ==> a@[j] == b@[j],
        decreases a@.len() - i,
    {
        if a[i] != b[i] {
            return false;
        }
        i = i + 1;
    }
    proof {
        assert(a@ =~= b@);
    }
    true
}

pub fn opt_u64_eq(a: &Option<u64>, b: &Option<u64>) -> (r: bool)
    ensures
        r == (a == b),
{
    match (a, b) {
        (Some(x), Some(y)) => *x == *y,
        (None, None) => true,
        _ => false,
    }
}

pub fn opt_theme_eq(a: &Option<Theme>, b: &Option<Theme>) -> (r: bool)
    ensures
        r == (a == b),
{
    match (a, b) {
        (Some(x), Some(y)) => *x == *y,
        (None, None) => true,
        _ => false,
    }
}

/// Structural equality of two option subsections.
pub fn options_eq(a: &Options, b: &Options) -> (r: bool)
    ensures
        r == (a == b),
{
    a.dark_style == b.dark_style && a.light_style == b.light_style && a.theme_preference
        == b.theme_preference && a.fallback_theme == b.fallback_theme && opt_theme_eq(
        &a.system_theme,
        &b.system_theme,
    ) && a.zoom_factor_percent == b.zoom_factor_percent && a.zoom_with_keyboard
        == b.zoom_with_keyboard && a.max_passes == b.max_passes && a.reduce_texture_memory
        == b.reduce_texture_memory
}

pub fn viewport_entry_eq(a: &ViewportEntry, b: &ViewportEntry) -> (r: bool)
    ensures
        r == (a == b),
{
    a.viewport_id == b.viewport_id && opt_u64_eq(
        &a.state.potential_click_id,
        &b.state.potential_click_id,
    ) && opt_u64_eq(&a.state.potential_drag_id, &b.state.potential_drag_id)
}

/// Structural equality of two interaction subsections.
pub fn viewport_vec_eq(a: &Vec<ViewportEntry>, b: &Vec<ViewportEntry>) -> (r: bool)
    ensures
        r == (a@ == b@),
{
    if a.len() != b.len() {
        return false;
    }
    let mut i: usize = 0;
    while i < a.len()
        invariant
            i <= a@.len(),
            a@.len() == b@.len(),
            forall|j: int| 0 <= j < i ==> a@[j] == b@[j],
        decreases a@.len() - i,
    {
        if !viewport_entry_eq(&a[i], &b[i]) {
            return false;
        }
        i = i + 1;
    }
    proof {
        assert(a@ =~= b@);
    }
    true
}

/// Structural equality of two animation subsections.
pub fn animation_vec_eq(a: &Vec<AnimationEntry>, b: &Vec<AnimationEntry>) -> (r: bool)
    ensures
        r == (a@ == b@),
{
    if a.len() != b.len() {
        return false;
    }
    let mut i: usize = 0;
    while i < a.len()
        invariant
            i <= a@.len(),
            a@.len() == b@.len(),
            forall|j: int| 0 <= j < i ==> a@[j] == b@[j],
        decreases a@.len() - i,
    {
        if a[i] != b[i] {
            return false;
        }
        i = i + 1;
    }
    proof {
        assert(a@ =~= b@);
    }
    true
}

} // verus!
