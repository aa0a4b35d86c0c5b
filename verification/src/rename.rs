//! Case-convention renaming of field and variant names, as configured by a
//! container-wide rename rule.

use vstd::prelude::*;

verus! {

/// What `str::to_lowercase` returns: a function of the characters alone.
pub uninterp spec fn lower_of(s: Seq<char>) -> Seq<char>;

/// What `str::to_uppercase` returns: a function of the characters alone.
pub uninterp spec fn upper_of(s: Seq<char>) -> Seq<char>;

/// What heck's upper-camel-case conversion returns.
pub uninterp spec fn pascal_of(s: Seq<char>) -> Seq<char>;

/// What heck's lower-camel-case conversion returns.
pub uninterp spec fn camel_of(s: Seq<char>) -> Seq<char>;

/// What heck's snake-case conversion returns.
pub uninterp spec fn snake_of(s: Seq<char>) -> Seq<char>;

/// What heck's shouty-snake-case conversion returns.
pub uninterp spec fn shouty_snake_of(s: Seq<char>) -> Seq<char>;

/// What heck's kebab-case conversion returns.
pub uninterp spec fn kebab_of(s: Seq<char>) -> Seq<char>;

/// What heck's shouty-kebab-case conversion returns.
pub uninterp spec fn shouty_kebab_of(s: Seq<char>) -> Seq<char>;

/// Relies on str::to_lowercase: the result depends on the characters alone.
#[verifier::external_body]
fn to_lower(s: &str) -> (r: String)
    ensures
        r@ == lower_of(s@),
{
    s.to_lowercase()
}

/// Relies on str::to_uppercase: the result depends on the characters alone.
#[verifier::external_body]
fn to_upper(s: &str) -> (r: String)
    ensures
        r@ == upper_of(s@),
{
    s.to_uppercase()
}

/// Relies on heck's ToUpperCamelCase for str: the result depends on the
/// characters alone.
#[verifier::external_body]
fn to_pascal(s: &str) -> (r: String)
    ensures
        r@ == pascal_of(s@),
{
    heck::ToUpperCamelCase::to_upper_camel_case(s)
}

/// Relies on heck's ToLowerCamelCase for str: the result depends on the
/// characters alone.
#[verifier::external_body]
fn to_camel(s: &str) -> (r: String)
    ensures
        r@ == camel_of(s@),
{
    heck::ToLowerCamelCase::to_lower_camel_case(s)
}

/// Relies on heck's ToSnakeCase for str: the result depends on the
/// characters alone.
#[verifier::external_body]
fn to_snake(s: &str) -> (r: String)
    ensures
        r@ == snake_of(s@),
{
    heck::ToSnakeCase::to_snake_case(s)
}

/// Relies on heck's ToShoutySnakeCase for str: the result depends on the
/// characters alone.
#[verifier::external_body]
fn to_shouty_snake(s: &str) -> (r: String)
    ensures
        r@ == shouty_snake_of(s@),
{
    heck::ToShoutySnakeCase::to_shouty_snake_case(s)
}

/// Relies on heck's ToKebabCase for str: the result depends on the
/// characters alone.
#[verifier::external_body]
fn to_kebab(s: &str) -> (r: String)
    ensures
        r@ == kebab_of(s@),
{
    heck::ToKebabCase::to_kebab_case(s)
}

/// Relies on heck's ToShoutyKebabCase for str: the result depends on the
/// characters alone.
#[verifier::external_body]
fn to_shouty_kebab(s: &str) -> (r: String)
    ensures
        r@ == shouty_kebab_of(s@),
{
    heck::ToShoutyKebabCase::to_shouty_kebab_case(s)
}

/// A container-wide renaming convention for fields and variants.
#[derive(Clone, Copy, Debug, PartialEq, Eq, Structural)]
pub enum RenameRule {
    Lower,
    Upper,
    Pascal,
    Camel,
    Snake,
    ScreamingSnake,
    Kebab,
    ScreamingKebab,
}

/// The name `s` renamed under `rule`.
pub open spec fn renamed(rule: RenameRule, s: Seq<char>) -> Seq<char> {
    match rule {
        RenameRule::Lower => lower_of(s),
        RenameRule::Upper => upper_of(s),
        RenameRule::Pascal => pascal_of(s),
        RenameRule::Camel => camel_of(s),
        RenameRule::Snake => snake_of(s),
        RenameRule::ScreamingSnake => shouty_snake_of(s),
        RenameRule::Kebab => kebab_of(s),
        RenameRule::ScreamingKebab => shouty_kebab_of(s),
    }
}

/// Renames `name` under `rule`.
pub fn apply_rename(rule: RenameRule, name: &str) -> (r: String)
    ensures
        r@ == renamed(rule, name@),
{
    match rule {
        RenameRule::Lower => to_lower(name),
        RenameRule::Upper => to_upper(name),
        RenameRule::Pascal => to_pascal(name),
        RenameRule::Camel => to_camel(name),
        RenameRule::Snake => to_snake(name),
        RenameRule::ScreamingSnake => to_shouty_snake(name),
        RenameRule::Kebab => to_kebab(name),
        RenameRule::ScreamingKebab => to_shouty_kebab(name),
    }
}

} // verus!
