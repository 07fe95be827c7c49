/*!
Idiomatic types for POSIX-style locale identifiers.

A locale identifier is a string of the form `language[_territory][.codeset][@modifier]`,
for example `en_US.UTF-8@collation=pinyin`. This crate provides the
[`LocaleIdentifier`] trait describing the operations every identifier supports,
the [`LocaleString`] type, an immutable identifier value with syntactic
(shape-only) validation, and the [`StrictLocaleString`] type, which additionally
checks each field against the reference tables of registered languages,
territories and code sets.
*/
use vstd::prelude::*;

pub mod fields;
pub mod id;
pub mod strict;
pub mod string;

pub use id::LocaleIdentifier;
pub use strict::StrictLocaleString;
pub use string::LocaleString;
pub use string::ParseError;

verus! {

/// Common error type for constructing and updating locale identifiers.
#[derive(Debug, PartialEq)]
pub enum LocaleError {
    /// The provided locale string was badly formatted.
    InvalidLocaleString,
    /// The provided language code was not valid, or was unknown.
    InvalidLanguageCode,
    /// The provided territory code was not valid, or was unknown.
    InvalidTerritoryCode,
    /// The provided code set name was not valid, or was unknown.
    InvalidCodeSet,
    /// The provided modifier string was not valid, or was unknown.
    InvalidModifier,
    /// The provided locale was unknown.
    UnknownLocale,
    /// Locale category not set, or not supported.
    UnsetCategory,
    /// Operating system could not set the specified locale.
    OSError,
    /// The operation you tried to perform was not supported.
    Unsupported,
}

/// Common result type for functions in this crate.
pub type LocaleResult<T> = Result<T, LocaleError>;

} // verus!
