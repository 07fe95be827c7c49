/*!
The strict locale identifier.

[`StrictLocaleString`] wraps a [`LocaleString`] and gates every operation that
sets a language, territory or code set behind a lookup in the reference tables
of registered codes (ISO 639 languages, ISO 3166 countries, IANA code sets).
Only a field that both has the right shape and is present in its table is
accepted; modifiers are never validated against a table. Reads and
serialization delegate to the wrapped value.
*/
use vstd::pervasive::unreached;
use vstd::prelude::*;
use vstd::string::is_ascii;

use crate::LocaleError;
use crate::LocaleResult;
use crate::fields::is_lowercase_char;
use crate::fields::is_uppercase_char;
use crate::fields::valid_code_set;
use crate::fields::valid_language;
use crate::fields::valid_territory;
use crate::id::LocaleIdentifier;
use crate::string::LocaleString;
use crate::string::LocaleView;
use crate::string::ParseError;
use crate::string::constructed_view;
use crate::string::format_of;
use crate::string::joined_modifiers;
use crate::string::parse_view;

verus! {

/// Whether the code names a language registered in the ISO 639 reference
/// data. The reference data is fixed, so this depends on the code alone.
pub uninterp spec fn language_known(code: Seq<char>) -> bool;

/// Whether the code names a country registered in the ISO 3166 reference
/// data. The reference data is fixed, so this depends on the code alone.
pub uninterp spec fn territory_known(code: Seq<char>) -> bool;

/// Whether the name is a code set registered in the IANA reference data.
/// The reference data is fixed, so this depends on the name alone.
pub uninterp spec fn code_set_known(name: Seq<char>) -> bool;

/// Relies on locale_codes::language::lookup: looks the code up in the ISO 639
/// table, by the characters of the code alone. The function asserts that its
/// argument is two or three bytes long, so other lengths stay excluded here.
#[verifier::external_body]
fn language_lookup(code: &str) -> (r: bool)
    requires
        is_ascii(code),
        code@.len() == 2 || code@.len() == 3,
    ensures
        r == language_known(code@),
{
    locale_codes::language::lookup(code).is_some()
}

/// Relies on locale_codes::country::lookup: looks the code up in the ISO 3166
/// table, by the characters of the code alone. The function asserts that its
/// argument is two or three bytes long, so other lengths stay excluded here.
#[verifier::external_body]
fn territory_lookup(code: &str) -> (r: bool)
    requires
        is_ascii(code),
        code@.len() == 2 || code@.len() == 3,
    ensures
        r == territory_known(code@),
{
    locale_codes::country::lookup(code).is_some()
}

/// Relies on locale_codes::codeset::lookup: looks the name up in the IANA
/// code set table, by the characters of the name alone. The function asserts
/// that its argument is not empty, so the empty string stays excluded here.
#[verifier::external_body]
fn code_set_lookup(name: &str) -> (r: bool)
    requires
        name@.len() > 0,
    ensures
        r == code_set_known(name@),
{
    locale_codes::codeset::lookup(name).is_some()
}

/// A two-letter code, lowercase or uppercase, holds ASCII characters only.
proof fn lemma_letters_are_ascii(s: Seq<char>)
    requires
        forall|i: int|
            0 <= i < s.len() ==> is_lowercase_char(#[trigger] s[i]) || is_uppercase_char(s[i]),
    ensures
        vstd::utf8::is_ascii_chars(s),
{
    assert forall|i: int| 0 <= i < s.len() implies '\0' <= #[trigger] s[i] <= '\u{7f}' by {
        assert(is_lowercase_char(s[i]) || is_uppercase_char(s[i]));
    }
}

/// A locale identifier that, beyond the shape rules of [`LocaleString`],
/// accepts a language, territory or code set only when it is present in the
/// corresponding reference table.
#[derive(Debug, PartialEq)]
pub struct StrictLocaleString(LocaleString);

impl View for StrictLocaleString {
    type V = LocaleView;

    closed spec fn view(&self) -> LocaleView {
        self.0@
    }
}

impl StrictLocaleString {
    /// Every field of this identifier satisfies its validity rule.
    pub open spec fn wf(&self) -> bool {
        self@.wf()
    }
}

impl LocaleIdentifier for StrictLocaleString {
    /// Succeeds with an identifier holding only the given language code iff
    /// the code is exactly two lowercase letters and names a registered
    /// language.
    fn new(language_code: String) -> (r: LocaleResult<Self>)
        ensures
            match r {
                Ok(l) => valid_language(language_code@) && language_known(language_code@) && l@
                    == constructed_view(language_code@),
                Err(e) => e == LocaleError::InvalidLanguageCode && !(valid_language(language_code@)
                    && language_known(language_code@)),
            },
    {
        let inner = match LocaleString::new(language_code) {
            Ok(l) => l,
            Err(_) => {
                return Err(LocaleError::InvalidLanguageCode);
            },
        };
        let code = inner.language_code();
        proof {
            lemma_letters_are_ascii(code@);
        }
        if language_lookup(code.as_str()) {
            Ok(StrictLocaleString(inner))
        } else {
            Err(LocaleError::InvalidLanguageCode)
        }
    }

    /// Succeeds with a copy of `self` whose language code is replaced iff the
    /// new code is exactly two lowercase letters and names a registered
    /// language; all other fields are left untouched.
    fn with_language(&self, language_code: String) -> (r: LocaleResult<Self>)
        ensures
            match r {
                Ok(l) => valid_language(language_code@) && language_known(language_code@) && l@
                    == (LocaleView { language: language_code@, ..self@ }),
                Err(e) => e == LocaleError::InvalidLanguageCode && !(valid_language(language_code@)
                    && language_known(language_code@)),
            },
    {
        let inner = match self.0.with_language(language_code) {
            Ok(l) => l,
            Err(_) => {
                return Err(LocaleError::InvalidLanguageCode);
            },
        };
        let code = inner.language_code();
        proof {
            lemma_letters_are_ascii(code@);
        }
        if language_lookup(code.as_str()) {
            Ok(StrictLocaleString(inner))
        } else {
            Err(LocaleError::InvalidLanguageCode)
        }
    }

    /// Succeeds with a copy of `self` whose territory is replaced iff the new
    /// code is exactly two uppercase letters and names a registered country;
    /// all other fields are left untouched.
    fn with_territory(&self, territory: String) -> (r: LocaleResult<Self>)
        ensures
            match r {
                Ok(l) => valid_territory(territory@) && territory_known(territory@) && l@
                    == (LocaleView { territory: Some(territory@), ..self@ }),
                Err(e) => e == LocaleError::InvalidTerritoryCode && !(valid_territory(territory@)
                    && territory_known(territory@)),
            },
    {
        let inner = match self.0.with_territory(territory) {
            Ok(l) => l,
            Err(_) => {
                return Err(LocaleError::InvalidTerritoryCode);
            },
        };
        let code = match inner.territory() {
            Some(t) => t,
            None => unreached(),
        };
        proof {
            lemma_letters_are_ascii(code@);
        }
        if territory_lookup(code.as_str()) {
            Ok(StrictLocaleString(inner))
        } else {
            Err(LocaleError::InvalidTerritoryCode)
        }
    }

    /// Succeeds with a copy of `self` whose code set is replaced iff the new
    /// name is non-blank and is a registered code set; all other fields are
    /// left untouched.
    fn with_code_set(&self, code_set: String) -> (r: LocaleResult<Self>)
        ensures
            match r {
                Ok(l) => valid_code_set(code_set@) && code_set_known(code_set@) && l@
                    == (LocaleView { code_set: Some(code_set@), ..self@ }),
                Err(e) => e == LocaleError::InvalidCodeSet && !(valid_code_set(code_set@)
                    && code_set_known(code_set@)),
            },
    {
        let inner = match self.0.with_code_set(code_set) {
            Ok(l) => l,
            Err(_) => {
                return Err(LocaleError::InvalidCodeSet);
            },
        };
        let name = match inner.code_set() {
            Some(c) => c,
            None => unreached(),
        };
        if code_set_lookup(name.as_str()) {
            Ok(StrictLocaleString(inner))
        } else {
            Err(LocaleError::InvalidCodeSet)
        }
    }

    /// Always succeeds with a copy of `self` whose modifier is replaced by the
    /// given string; modifiers are never validated against a reference table.
    fn with_modifier(&self, modifier: String) -> (r: LocaleResult<Self>)
        ensures
            r matches Ok(l) && l@ == (LocaleView { modifier: Some(modifier@), ..self@ }),
    {
        match self.0.with_modifier(modifier) {
            Ok(l) => Ok(StrictLocaleString(l)),
            Err(_) => unreached(),
        }
    }

    /// Always succeeds with a copy of `self` whose modifier joins the given
    /// key/value pairs, written `key=value` and separated by `;`, in the order
    /// given; all other fields are left untouched.
    fn with_modifiers(&self, modifiers: Vec<(String, String)>) -> (r: LocaleResult<Self>)
        ensures
            r matches Ok(l) && l@ == (LocaleView {
                modifier: Some(joined_modifiers(modifiers@)),
                ..self@
            }),
    {
        match self.0.with_modifiers(modifiers) {
            Ok(l) => Ok(StrictLocaleString(l)),
            Err(_) => unreached(),
        }
    }

    /// Returns the language code.
    fn language_code(&self) -> (r: String)
        ensures
            r@ == self@.language,
    {
        self.0.language_code()
    }

    /// Returns the territory code, or `None` when the field is absent.
    fn territory(&self) -> (r: Option<String>)
        ensures
            match r {
                Some(t) => self@.territory == Some(t@),
                None => self@.territory is None,
            },
    {
        self.0.territory()
    }

    /// Returns the code set name, or `None` when the field is absent.
    fn code_set(&self) -> (r: Option<String>)
        ensures
            match r {
                Some(c) => self@.code_set == Some(c@),
                None => self@.code_set is None,
            },
    {
        self.0.code_set()
    }

    /// Returns the modifier string, or `None` when the field is absent.
    fn modifier(&self) -> (r: Option<String>)
        ensures
            match r {
                Some(m) => self@.modifier == Some(m@),
                None => self@.modifier is None,
            },
    {
        self.0.modifier()
    }
}

impl StrictLocaleString {
    /// Serializes this identifier to its canonical string form.
    pub fn to_string(&self) -> (r: String)
        ensures
            r@ == format_of(self@),
    {
        self.0.to_string()
    }

    /// Parses a locale identifier string and re-validates every captured
    /// field against the reference tables.
    ///
    /// A permissive parse failure is surfaced unchanged; a field whose shape
    /// is fine but which is absent from its reference table turns into the
    /// corresponding field error.
    pub fn from_str(s: &str) -> (r: Result<StrictLocaleString, ParseError>)
        ensures
            match r {
                Ok(loc) => {
                    &&& parse_view(s@) == Ok::<LocaleView, ParseError>(loc@)
                    &&& loc.wf()
                    &&& language_known(loc@.language)
                    &&& match loc@.territory {
                        Some(t) => territory_known(t),
                        None => true,
                    }
                    &&& match loc@.code_set {
                        Some(c) => code_set_known(c),
                        None => true,
                    }
                },
                Err(e) => match parse_view(s@) {
                    Ok(v) => {
                        ||| (e == ParseError::InvalidLanguageCode && !language_known(v.language))
                        ||| {
                            &&& e == ParseError::InvalidTerritoryCode
                            &&& language_known(v.language)
                            &&& v.territory matches Some(t) && !territory_known(t)
                        }
                        ||| {
                            &&& e == ParseError::InvalidCodeSet
                            &&& language_known(v.language)
                            &&& (v.territory matches Some(t) ==> territory_known(t))
                            &&& v.code_set matches Some(c) && !code_set_known(c)
                        }
                    },
                    Err(pe) => e == pe,
                },
            },
    {
        let loc = match LocaleString::from_str(s) {
            Ok(l) => l,
            Err(e) => {
                return Err(e);
            },
        };
        let lang = loc.language_code();
        let strict0 = match StrictLocaleString::new(lang) {
            Ok(st) => st,
            Err(_) => {
                return Err(ParseError::InvalidLanguageCode);
            },
        };
        let strict1 = match loc.territory() {
            Some(t) => match strict0.with_territory(t) {
                Ok(st) => st,
                Err(_) => {
                    return Err(ParseError::InvalidTerritoryCode);
                },
            },
            None => strict0,
        };
        let strict2 = match loc.code_set() {
            Some(c) => match strict1.with_code_set(c) {
                Ok(st) => st,
                Err(_) => {
                    return Err(ParseError::InvalidCodeSet);
                },
            },
            None => strict1,
        };
        let strict3 = match loc.modifier() {
            Some(m) => match strict2.with_modifier(m) {
                Ok(st) => st,
                Err(_) => unreached(),
            },
            None => strict2,
        };
        proof {
            assert(strict3@ =~= loc@);
        }
        Ok(strict3)
    }
}

} // verus!
