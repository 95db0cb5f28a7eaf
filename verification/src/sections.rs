//! The independently tracked subsections of the shared context, and sets of
//! them.

use vstd::prelude::*;

verus! {

/// One independently tracked subsection of the shared context.
#[derive(Clone, Copy, Debug, PartialEq, Eq, Structural)]
pub enum Section {
    Fonts,
    Options,
    Interaction,
    Animation,
    Plugins,
    Textures,
}

/// A set of subsections, one flag for each tracked subsection.
#[derive(Clone, Copy, Debug, PartialEq, Eq, Structural)]
pub struct SectionSet {
    pub fonts: bool,
    pub options: bool,
    pub interaction: bool,
    pub animation: bool,
    pub plugins: bool,
    pub textures: bool,
}

impl SectionSet {
    /// The set that names no subsection.
    pub open spec fn spec_empty() -> SectionSet {
        SectionSet {
            fonts: false,
            options: false,
            interaction: false,
            animation: false,
            plugins: false,
            textures: false,
        }
    }

    pub open spec fn spec_contains(self, s: Section) -> bool {
        match s {
            Section::Fonts => self.fonts,
            Section::Options => self.options,
            Section::Interaction => self.interaction,
            Section::Animation => self.animation,
            Section::Plugins => self.plugins,
            Section::Textures => self.textures,
        }
    }

    pub open spec fn spec_with(self, s: Section) -> SectionSet {
        match s {
            Section::Fonts => SectionSet { fonts: true, ..self },
            Section::Options => SectionSet { options: true, ..self },
            Section::Interaction => SectionSet { interaction: true, ..self },
            Section::Animation => SectionSet { animation: true, ..self },
            Section::Plugins => SectionSet { plugins: true, ..self },
            Section::Textures => SectionSet { textures: true, ..self },
        }
    }

    pub open spec fn spec_is_empty(self) -> bool {
        self == SectionSet::spec_empty()
    }

    pub fn empty() -> (r: SectionSet)
        ensures
            r == SectionSet::spec_empty(),
    {
        SectionSet {
            fonts: false,
            options: false,
            interaction: false,
            animation: false,
            plugins: false,
            textures: false,
        }
    }

    pub fn contains(&self, s: Section) -> (r: bool)
        ensures
            r == self.spec_contains(s),
    {
        match s {
            Section::Fonts => self.fonts,
            Section::Options => self.options,
            Section::Interaction => self.interaction,
            Section::Animation => self.animation,
            Section::Plugins => self.plugins,
            Section::Textures => self.textures,
        }
    }

    pub fn with(self, s: Section) -> (r: SectionSet)
        ensures
            r == self.spec_with(s),
    {
        match s {
            Section::Fonts => SectionSet { fonts: true, ..self },
            Section::Options => SectionSet { options: true, ..self },
            Section::Interaction => SectionSet { interaction: true, ..self },
            Section::Animation => SectionSet { animation: true, ..self },
            Section::Plugins => SectionSet { plugins: true, ..self },
            Section::Textures => SectionSet { textures: true, ..self },
        }
    }

    pub fn is_empty(&self) -> (r: bool)
        ensures
            r == self.spec_is_empty(),
    {
        !(self.fonts || self.options || self.interaction || self.animation || self.plugins
            || self.textures)
    }
}

} // verus!
