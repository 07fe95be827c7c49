/*!
The common contract of locale identifiers.

A locale identifier is comprised of a `language` code, an optional `territory`
(or country) code, an optional `code_set` (or charset) name, and an optional
free-form `modifier` string. Every identifier type offers construction from a
language code, derivation of a copy with one field replaced, and accessors for
each field; the validation each operation applies is the implementing type's
own, so the contracts stand on the implementations.
*/
use vstd::prelude::*;

use crate::LocaleResult;

verus! {

/// Common trait for different kinds of locale identifier.
pub trait LocaleIdentifier where Self: Sized {
    /// Construct a new identifier with the given language code only.
    fn new(language_code: String) -> LocaleResult<Self>;

    /// Return a new identifier based on `self` with a new language code.
    fn with_language(&self, language_code: String) -> LocaleResult<Self>;

    /// Return a new identifier based on `self` with a new territory code.
    fn with_territory(&self, territory: String) -> LocaleResult<Self>;

    /// Return a new identifier based on `self` with a new code set.
    fn with_code_set(&self, code_set: String) -> LocaleResult<Self>;

    /// Return a new identifier based on `self` with a new modifier string.
    fn with_modifier(&self, modifier: String) -> LocaleResult<Self>;

    /// Return a new identifier based on `self` whose modifier joins the given
    /// key/value pairs, each written `key=value`, separated by `;`.
    fn with_modifiers(&self, modifiers: Vec<(String, String)>) -> LocaleResult<Self>;

    /// Return the current language code.
    fn language_code(&self) -> String;

    /// Return the current territory/country code.
    fn territory(&self) -> Option<String>;

    /// Return the current code set/charset name.
    fn code_set(&self) -> Option<String>;

    /// Return the current modifier string.
    fn modifier(&self) -> Option<String>;
}

} // verus!
