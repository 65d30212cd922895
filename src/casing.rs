//! The four casing styles a type or a scope may be held to.
use vstd::prelude::*;

verus! {

/// A casing style.
#[derive(Clone, Copy, Debug, PartialEq, Eq, Structural)]
pub enum Casing {
    /// camelCase
    Camel,
    /// kebab-case
    Kebab,
    /// PascalCase
    Pascal,
    /// snake_case
    Snake,
}

impl Default for Casing {
    fn default() -> (r: Self)
        ensures
            r == Casing::Kebab,
    {
        Casing::Kebab
    }
}

impl Casing {
    /// The name of the style, written in that style.
    pub fn name(&self) -> (r: String)
        ensures
            r@ == casing_name(*self),
    {
        match self {
            Casing::Camel => "camelCase".to_owned(),
            Casing::Kebab => "kebab-case".to_owned(),
            Casing::Pascal => "PascalCase".to_owned(),
            Casing::Snake => "snake_case".to_owned(),
        }
    }
}

pub open spec fn casing_name(c: Casing) -> Seq<char> {
    match c {
        Casing::Camel => "camelCase"@,
        Casing::Kebab => "kebab-case"@,
        Casing::Pascal => "PascalCase"@,
        Casing::Snake => "snake_case"@,
    }
}

/// Whether `cruet::is_camel_case` accepts the text.
pub uninterp spec fn cruet_camel(s: Seq<char>) -> bool;

/// Whether `cruet::is_kebab_case` accepts the text.
pub uninterp spec fn cruet_kebab(s: Seq<char>) -> bool;

/// Whether `cruet::is_pascal_case` accepts the text.
pub uninterp spec fn cruet_pascal(s: Seq<char>) -> bool;

/// Whether `cruet::is_snake_case` accepts the text.
pub uninterp spec fn cruet_snake(s: Seq<char>) -> bool;

/// Relies on `cruet::is_camel_case`: whether camel-casing the text leaves it
/// unchanged, a function of the text alone.
pub assume_specification[ cruet::is_camel_case ](test_string: &str) -> (r: bool)
    ensures
        r == cruet_camel(test_string@),
;

/// Relies on `cruet::is_kebab_case`: whether kebab-casing the text leaves it
/// unchanged, a function of the text alone.
pub assume_specification[ cruet::is_kebab_case ](test_string: &str) -> (r: bool)
    ensures
        r == cruet_kebab(test_string@),
;

/// Relies on `cruet::is_pascal_case`: whether pascal-casing the text leaves it
/// unchanged, a function of the text alone.
pub assume_specification[ cruet::is_pascal_case ](test_string: &str) -> (r: bool)
    ensures
        r == cruet_pascal(test_string@),
;

/// Relies on `cruet::is_snake_case`: whether snake-casing the text leaves it
/// unchanged, a function of the text alone.
pub assume_specification[ cruet::is_snake_case ](test_string: &str) -> (r: bool)
    ensures
        r == cruet_snake(test_string@),
;

/// Whether the text is written in the given casing style.
pub open spec fn conforms(case: Casing, s: Seq<char>) -> bool {
    match case {
        Casing::Camel => cruet_camel(s),
        Casing::Kebab => cruet_kebab(s),
        Casing::Pascal => cruet_pascal(s),
        Casing::Snake => cruet_snake(s),
    }
}

/// Classifies `s` against one casing style; the single point where the
/// style is chosen.
pub fn case_conforms(s: &str, case: Casing) -> (r: bool)
    ensures
        r == conforms(case, s@),
{
    match case {
        Casing::Camel => cruet::is_camel_case(s),
        Casing::Kebab => cruet::is_kebab_case(s),
        Casing::Pascal => cruet::is_pascal_case(s),
        Casing::Snake => cruet::is_snake_case(s),
    }
}

} // verus!
