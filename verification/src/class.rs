//! The five questions that the Unicode data answers of a character.
use crate::unicode::{
    emoji_component_property, emoji_modifier_base_property, emoji_modifier_property,
    emoji_presentation_property, emoji_property, load_emoji, load_emoji_component,
    load_emoji_modifier, load_emoji_modifier_base, load_emoji_presentation, set_chars,
    set_contains,
};
use icu_properties::sets::CodePointSetData;
use icu_properties::PropertiesError;
use vstd::prelude::*;

verus! {

/// What the Unicode data says of one character: five independent answers.
#[derive(Clone, Copy, Debug, PartialEq, Eq, Structural)]
pub struct CharClass {
    pub emoji: bool,
    pub component: bool,
    pub modifier: bool,
    pub modifier_base: bool,
    pub presentation: bool,
}

impl CharClass {
    /// A character may enter a cluster if at least one of the five answers is yes.
    pub open spec fn relevant(self) -> bool {
        self.emoji || self.component || self.modifier_base || self.modifier || self.presentation
    }

    /// Whether at least one of the five answers is yes.
    pub fn is_relevant(&self) -> (yes: bool)
        ensures
            yes == self.relevant(),
    {
        self.emoji || self.component || self.modifier_base || self.modifier || self.presentation
    }
}

/// The class of `c` under the built-in Unicode data.
pub open spec fn char_class(c: char) -> CharClass {
    CharClass {
        emoji: emoji_property(c),
        component: emoji_component_property(c),
        modifier: emoji_modifier_property(c),
        modifier_base: emoji_modifier_base_property(c),
        presentation: emoji_presentation_property(c),
    }
}

/// The five property sets of the built-in Unicode data, loaded once and then
/// only read.
pub struct Classifier {
    emoji: CodePointSetData,
    component: CodePointSetData,
    modifier: CodePointSetData,
    modifier_base: CodePointSetData,
    presentation: CodePointSetData,
}

impl Classifier {
    /// What this classifier answers of `c`: for each of the five properties,
    /// whether the set that it holds for the property has `c` as a member.
    pub closed spec fn answers(&self, c: char) -> CharClass {
        CharClass {
            emoji: set_chars(&self.emoji).contains(c),
            component: set_chars(&self.component).contains(c),
            modifier: set_chars(&self.modifier).contains(c),
            modifier_base: set_chars(&self.modifier_base).contains(c),
            presentation: set_chars(&self.presentation).contains(c),
        }
    }

    #[verifier::type_invariant]
    spec fn holds_the_properties(&self) -> bool {
        &&& forall|c: char| #[trigger] set_chars(&self.emoji).contains(c) == emoji_property(c)
        &&& forall|c: char| #[trigger]
            set_chars(&self.component).contains(c) == emoji_component_property(c)
        &&& forall|c: char| #[trigger]
            set_chars(&self.modifier).contains(c) == emoji_modifier_property(c)
        &&& forall|c: char| #[trigger]
            set_chars(&self.modifier_base).contains(c) == emoji_modifier_base_property(c)
        &&& forall|c: char| #[trigger]
            set_chars(&self.presentation).contains(c) == emoji_presentation_property(c)
    }

    /// Loads the five property sets from the built-in Unicode data: the
    /// classifier that comes back answers of every character what that data
    /// says of it.
    pub fn load() -> (classifier: Classifier)
        ensures
            forall|c: char| #[trigger] classifier.answers(c) == char_class(c),
    {
        Classifier {
            emoji: loaded_set(load_emoji()),
            component: loaded_set(load_emoji_component()),
            modifier: loaded_set(load_emoji_modifier()),
            modifier_base: loaded_set(load_emoji_modifier_base()),
            presentation: loaded_set(load_emoji_presentation()),
        }
    }

    /// Whether `c` has emoji presentation: the one question of the fast path.
    pub fn has_presentation(&self, c: char) -> (yes: bool)
        ensures
            yes == self.answers(c).presentation,
            yes == char_class(c).presentation,
    {
        proof {
            use_type_invariant(self);
        }
        set_contains(&self.presentation, c)
    }

    /// The four answers that are left once the fast path has asked for
    /// `presentation`.
    pub(crate) fn classify_presented(&self, c: char, presentation: bool) -> (class: CharClass)
        requires
            presentation == char_class(c).presentation,
        ensures
            class == char_class(c),
    {
        proof {
            use_type_invariant(self);
        }
        CharClass {
            emoji: set_contains(&self.emoji, c),
            component: set_contains(&self.component, c),
            modifier: set_contains(&self.modifier, c),
            modifier_base: set_contains(&self.modifier_base, c),
            presentation,
        }
    }

    /// All five answers for `c`.
    pub fn classify(&self, c: char) -> (class: CharClass)
        ensures
            class == self.answers(c),
            class == char_class(c),
    {
        proof {
            use_type_invariant(self);
        }
        let presentation = self.has_presentation(c);
        self.classify_presented(c, presentation)
    }
}

/// Takes the set out of a load that is known to have succeeded.
fn loaded_set(loaded: Result<CodePointSetData, PropertiesError>) -> (set: CodePointSetData)
    requires
        loaded is Ok,
    ensures
        set == loaded->Ok_0,
{
    match loaded {
        Ok(set) => set,
        Err(_) => vstd::pervasive::unreached(),
    }
}

} // verus!
