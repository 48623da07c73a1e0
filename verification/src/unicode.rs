//! The Unicode data: the five property sets that `icu_properties` loads from
//! the data that `icu_testdata` carries.
use icu_properties::sets::CodePointSetData;
use icu_properties::PropertiesError;
use vstd::prelude::*;

verus! {

/// A set of code points that share one binary Unicode property.
#[verifier::external_type_specification]
#[verifier::external_body]
pub struct ExCodePointSetData(CodePointSetData);

/// The error with which a property set fails to load.
#[verifier::external_type_specification]
#[verifier::external_body]
pub struct ExPropertiesError(PropertiesError);

/// The characters that a property set holds.
pub uninterp spec fn set_chars(set: &CodePointSetData) -> Set<char>;

/// Whether `c` has the property `Emoji` in the data that `icu_testdata` carries.
pub uninterp spec fn emoji_property(c: char) -> bool;

/// Whether `c` has the property `Emoji_Component` in the data that `icu_testdata`
/// carries.
pub uninterp spec fn emoji_component_property(c: char) -> bool;

/// Whether `c` has the property `Emoji_Modifier` in the data that `icu_testdata`
/// carries.
pub uninterp spec fn emoji_modifier_property(c: char) -> bool;

/// Whether `c` has the property `Emoji_Modifier_Base` in the data that `icu_testdata`
/// carries.
pub uninterp spec fn emoji_modifier_base_property(c: char) -> bool;

/// Whether `c` has the property `Emoji_Presentation` in the data that `icu_testdata`
/// carries.
pub uninterp spec fn emoji_presentation_property(c: char) -> bool;

/// `CodePointSetData::as_borrowed` followed by `CodePointSetDataBorrowed::contains`:
/// a membership test that reads the set and changes nothing.
#[verifier::external_body]
pub(crate) fn set_contains(set: &CodePointSetData, c: char) -> (held: bool)
    ensures
        held == set_chars(set).contains(c),
{
    set.as_borrowed().contains(c)
}

/// `icu_properties::sets::load_emoji` on the provider `icu_testdata::unstable()`.
///
/// The provider and its data are compiled into the binary, so nothing is read
/// at run time. The loader asks with the default request, whose locale is
/// empty. The key of the set is a singleton, for which the provider's fallback
/// layer passes the request on unchanged, and the baked data answers every
/// request with an empty locale with its one set. So the load succeeds, and
/// the set is the same on every call: its members are named `emoji_property`.
#[verifier::external_body]
pub(crate) fn load_emoji() -> (loaded: Result<CodePointSetData, PropertiesError>)
    ensures
        loaded is Ok,
        forall|c: char| #[trigger] set_chars(&loaded->Ok_0).contains(c) == emoji_property(c),
{
    icu_properties::sets::load_emoji(&icu_testdata::unstable())
}

/// `icu_properties::sets::load_emoji_component` on the provider
/// `icu_testdata::unstable()`: succeeds for the reason given at `load_emoji`;
/// its members are given the name `emoji_component_property`.
#[verifier::external_body]
pub(crate) fn load_emoji_component() -> (loaded: Result<CodePointSetData, PropertiesError>)
    ensures
        loaded is Ok,
        forall|c: char| #[trigger]
            set_chars(&loaded->Ok_0).contains(c) == emoji_component_property(c),
{
    icu_properties::sets::load_emoji_component(&icu_testdata::unstable())
}

/// `icu_properties::sets::load_emoji_modifier` on the provider
/// `icu_testdata::unstable()`: succeeds for the reason given at `load_emoji`;
/// its members are given the name `emoji_modifier_property`.
#[verifier::external_body]
pub(crate) fn load_emoji_modifier() -> (loaded: Result<CodePointSetData, PropertiesError>)
    ensures
        loaded is Ok,
        forall|c: char| #[trigger]
            set_chars(&loaded->Ok_0).contains(c) == emoji_modifier_property(c),
{
    icu_properties::sets::load_emoji_modifier(&icu_testdata::unstable())
}

/// `icu_properties::sets::load_emoji_modifier_base` on the provider
/// `icu_testdata::unstable()`: succeeds for the reason given at `load_emoji`;
/// its members are given the name `emoji_modifier_base_property`.
#[verifier::external_body]
pub(crate) fn load_emoji_modifier_base() -> (loaded: Result<CodePointSetData, PropertiesError>)
    ensures
        loaded is Ok,
        forall|c: char| #[trigger]
            set_chars(&loaded->Ok_0).contains(c) == emoji_modifier_base_property(c),
{
    icu_properties::sets::load_emoji_modifier_base(&icu_testdata::unstable())
}

/// `icu_properties::sets::load_emoji_presentation` on the provider
/// `icu_testdata::unstable()`: succeeds for the reason given at `load_emoji`;
/// its members are given the name `emoji_presentation_property`.
#[verifier::external_body]
pub(crate) fn load_emoji_presentation() -> (loaded: Result<CodePointSetData, PropertiesError>)
    ensures
        loaded is Ok,
        forall|c: char| #[trigger]
            set_chars(&loaded->Ok_0).contains(c) == emoji_presentation_property(c),
{
    icu_properties::sets::load_emoji_presentation(&icu_testdata::unstable())
}

} // verus!
