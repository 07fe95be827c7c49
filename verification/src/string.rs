/*!
The permissive locale identifier.

[`LocaleString`] is an immutable value holding the four fields of a locale
identifier. Construction and every `with_*` operation validate only the shape
of the one field they set: the language code must be two lowercase letters,
the territory two uppercase letters, the code set non-blank, and the modifier
is free-form. Serialization writes the canonical form
`language[_territory][.codeset][@modifier]`, and [`LocaleString::from_str`]
decomposes such a string again.
*/
use vstd::pervasive::unreached;
use vstd::prelude::*;
use vstd::string::StrSliceExecFns;
use vstd::string::StringExecFns;

use crate::LocaleError;
use crate::LocaleResult;
use crate::fields::code_set_char;
use crate::fields::is_code_set_char;
use crate::fields::is_lowercase_char;
use crate::fields::is_uppercase_char;
use crate::fields::is_whitespace_char;
use crate::fields::is_word_char;
use crate::fields::lowercase_char;
use crate::fields::uppercase_char;
use crate::fields::valid_code_set;
use crate::fields::valid_language;
use crate::fields::valid_territory;
use crate::fields::whitespace_char;
use crate::fields::word_char;
use crate::id::LocaleIdentifier;

verus! {

/// Error type for parsing a locale identifier from a string.
#[derive(Debug, PartialEq)]
pub enum ParseError {
    /// The input string was empty.
    EmptyString,
    /// The input was the POSIX locale name `C` or `POSIX`, which this
    /// identifier model does not represent.
    PosixUnsupported,
    /// The input did not match the locale identifier grammar.
    RegexFailure,
    /// The language code was not valid, or was unknown.
    InvalidLanguageCode,
    /// The territory code was not valid, or was unknown.
    InvalidTerritoryCode,
    /// The code set name was not valid, or was unknown.
    InvalidCodeSet,
    /// The modifier string was not valid, or was unknown.
    InvalidModifier,
    /// The locale path was not valid.
    InvalidPath,
}

/// The mathematical value of a locale identifier: its four fields, each a
/// sequence of characters, the optional ones wrapped in `Option`.
#[verifier::ext_equal]
pub ghost struct LocaleView {
    /// The language code.
    pub language: Seq<char>,
    /// The territory code, when present.
    pub territory: Option<Seq<char>>,
    /// The code set name, when present.
    pub code_set: Option<Seq<char>>,
    /// The modifier string, when present.
    pub modifier: Option<Seq<char>>,
}

impl LocaleView {
    /// Every field of the identifier satisfies its validity rule.
    pub open spec fn wf(self) -> bool {
        &&& valid_language(self.language)
        &&& match self.territory {
            Some(t) => valid_territory(t),
            None => true,
        }
        &&& match self.code_set {
            Some(c) => valid_code_set(c),
            None => true,
        }
    }
}

/// The view of a freshly constructed identifier: the given language code and
/// no optional fields.
pub open spec fn constructed_view(language: Seq<char>) -> LocaleView {
    LocaleView { language: language, territory: None, code_set: None, modifier: None }
}

/// The serialized form of the territory field: `_` plus the code, or nothing.
pub open spec fn territory_segment(territory: Option<Seq<char>>) -> Seq<char> {
    match territory {
        Some(t) => seq!['_'] + t,
        None => Seq::empty(),
    }
}

/// The serialized form of the code set field: `.` plus the name, or nothing.
pub open spec fn code_set_segment(code_set: Option<Seq<char>>) -> Seq<char> {
    match code_set {
        Some(c) => seq!['.'] + c,
        None => Seq::empty(),
    }
}

/// The serialized form of the modifier field: `@` plus the text, or nothing.
pub open spec fn modifier_segment(modifier: Option<Seq<char>>) -> Seq<char> {
    match modifier {
        Some(m) => seq!['@'] + m,
        None => Seq::empty(),
    }
}

/// The canonical string form of an identifier:
/// `language[_territory][.codeset][@modifier]`.
pub open spec fn format_of(v: LocaleView) -> Seq<char> {
    v.language + territory_segment(v.territory) + code_set_segment(v.code_set)
        + modifier_segment(v.modifier)
}

/// A locale identifier with syntactic (shape-only) validation of its fields.
#[derive(Debug, PartialEq)]
pub struct LocaleString {
    language_code: String,
    territory: Option<String>,
    code_set: Option<String>,
    modifier: Option<String>,
}

impl View for LocaleString {
    type V = LocaleView;

    closed spec fn view(&self) -> LocaleView {
        LocaleView {
            language: self.language_code@,
            territory: match self.territory {
                Some(t) => Some(t@),
                None => None,
            },
            code_set: match self.code_set {
                Some(c) => Some(c@),
                None => None,
            },
            modifier: match self.modifier {
                Some(m) => Some(m@),
                None => None,
            },
        }
    }
}

impl LocaleString {
    /// Every field of this identifier satisfies its validity rule.
    pub open spec fn wf(&self) -> bool {
        self@.wf()
    }
}

/// Clones an optional string, field for field.
fn clone_opt_string(o: &Option<String>) -> (r: Option<String>)
    ensures
        r == *o,
{
    match o {
        Some(s) => Some(s.clone()),
        None => None,
    }
}

/// Whether `code` is a valid language code: exactly two lowercase letters.
fn check_language(code: &str) -> (r: bool)
    ensures
        r == valid_language(code@),
{
    let n = code.unicode_len();
    if n != 2 {
        return false;
    }
    let ok0 = lowercase_char(code.get_char(0));
    let ok1 = lowercase_char(code.get_char(1));
    if ok0 && ok1 {
        proof {
            assert forall|i: int| 0 <= i < code@.len() implies is_lowercase_char(
                #[trigger] code@[i],
            ) by {
                if i != 0 {
                    assert(i == 1);
                }
            }
        }
        true
    } else {
        false
    }
}

/// Whether `code` is a valid territory code: exactly two uppercase letters.
fn check_territory(code: &str) -> (r: bool)
    ensures
        r == valid_territory(code@),
{
    let n = code.unicode_len();
    if n != 2 {
        return false;
    }
    let ok0 = uppercase_char(code.get_char(0));
    let ok1 = uppercase_char(code.get_char(1));
    if ok0 && ok1 {
        proof {
            assert forall|i: int| 0 <= i < code@.len() implies is_uppercase_char(
                #[trigger] code@[i],
            ) by {
                if i != 0 {
                    assert(i == 1);
                }
            }
        }
        true
    } else {
        false
    }
}

/// Whether `code` is a valid code set: at least one character that is not
/// white space.
fn check_code_set(code: &str) -> (r: bool)
    ensures
        r == valid_code_set(code@),
{
    let n = code.unicode_len();
    let mut i: usize = 0;
    while i < n
        invariant
            0 <= i <= n,
            n == code@.len(),
            forall|j: int| 0 <= j < i ==> is_whitespace_char(#[trigger] code@[j]),
        decreases n - i,
    {
        if !whitespace_char(code.get_char(i)) {
            return true;
        }
        i += 1;
    }
    false
}

impl LocaleIdentifier for LocaleString {
    /// Succeeds with an identifier holding only the given language code iff
    /// the code is exactly two characters, all lowercase.
    fn new(language_code: String) -> (r: LocaleResult<Self>)
        ensures
            match r {
                Ok(l) => valid_language(language_code@) && l@ == constructed_view(language_code@),
                Err(e) => !valid_language(language_code@) && e == LocaleError::InvalidLanguageCode,
            },
    {
        if check_language(language_code.as_str()) {
            Ok(
                LocaleString {
                    language_code,
                    territory: None,
                    code_set: None,
                    modifier: None,
                },
            )
        } else {
            Err(LocaleError::InvalidLanguageCode)
        }
    }

    /// Succeeds with a copy of `self` whose language code is replaced iff the
    /// new code is exactly two characters, all lowercase; all other fields are
    /// left untouched.
    fn with_language(&self, language_code: String) -> (r: LocaleResult<Self>)
        ensures
            match r {
                Ok(l) => valid_language(language_code@) && l@ == (LocaleView {
                    language: language_code@,
                    ..self@
                }),
                Err(e) => !valid_language(language_code@) && e == LocaleError::InvalidLanguageCode,
            },
    {
        if check_language(language_code.as_str()) {
            Ok(
                LocaleString {
                    language_code,
                    territory: clone_opt_string(&self.territory),
                    code_set: clone_opt_string(&self.code_set),
                    modifier: clone_opt_string(&self.modifier),
                },
            )
        } else {
            Err(LocaleError::InvalidLanguageCode)
        }
    }

    /// Succeeds with a copy of `self` whose territory is replaced iff the new
    /// code is exactly two characters, all uppercase; all other fields are
    /// left untouched.
    fn with_territory(&self, territory: String) -> (r: LocaleResult<Self>)
        ensures
            match r {
                Ok(l) => valid_territory(territory@) && l@ == (LocaleView {
                    territory: Some(territory@),
                    ..self@
                }),
                Err(e) => !valid_territory(territory@) && e == LocaleError::InvalidTerritoryCode,
            },
    {
        if check_territory(territory.as_str()) {
            Ok(
                LocaleString {
                    language_code: self.language_code.clone(),
                    territory: Some(territory),
                    code_set: clone_opt_string(&self.code_set),
                    modifier: clone_opt_string(&self.modifier),
                },
            )
        } else {
            Err(LocaleError::InvalidTerritoryCode)
        }
    }

    /// Succeeds with a copy of `self` whose code set is replaced iff the new
    /// name holds at least one character that is not white space; all other
    /// fields are left untouched.
    fn with_code_set(&self, code_set: String) -> (r: LocaleResult<Self>)
        ensures
            match r {
                Ok(l) => valid_code_set(code_set@) && l@ == (LocaleView {
                    code_set: Some(code_set@),
                    ..self@
                }),
                Err(e) => !valid_code_set(code_set@) && e == LocaleError::InvalidCodeSet,
            },
    {
        if check_code_set(code_set.as_str()) {
            Ok(
                LocaleString {
                    language_code: self.language_code.clone(),
                    territory: clone_opt_string(&self.territory),
                    code_set: Some(code_set),
                    modifier: clone_opt_string(&self.modifier),
                },
            )
        } else {
            Err(LocaleError::InvalidCodeSet)
        }
    }

    /// Always succeeds with a copy of `self` whose modifier is replaced by the
    /// given string; all other fields are left untouched.
    fn with_modifier(&self, modifier: String) -> (r: LocaleResult<Self>)
        ensures
            r matches Ok(l) && l@ == (LocaleView { modifier: Some(modifier@), ..self@ }),
    {
        Ok(
            LocaleString {
                language_code: self.language_code.clone(),
                territory: clone_opt_string(&self.territory),
                code_set: clone_opt_string(&self.code_set),
                modifier: Some(modifier),
            },
        )
    }

    /// Always succeeds with a copy of `self` whose modifier joins the given
    /// key/value pairs, written `key=value` and separated by `;`, in the order
    /// given; all other fields are left untouched. The keys of the mapping are
    /// expected to be unique, as in a map.
    fn with_modifiers(&self, modifiers: Vec<(String, String)>) -> (r: LocaleResult<Self>)
        ensures
            r matches Ok(l) && l@ == (LocaleView {
                modifier: Some(joined_modifiers(modifiers@)),
                ..self@
            }),
    {
        let mut out = String::new();
        let mut i: usize = 0;
        while i < modifiers.len()
            invariant
                0 <= i <= modifiers@.len(),
                out@ == joined_modifiers(modifiers@.take(i as int)),
            decreases modifiers@.len() - i,
        {
            if i > 0 {
                out.append(";");
            }
            out.append(modifiers[i].0.as_str());
            out.append("=");
            out.append(modifiers[i].1.as_str());
            proof {
                reveal_strlit(";");
                reveal_strlit("=");
                assert(modifiers@.take(i + 1).drop_last() =~= modifiers@.take(i as int));
                assert(out@ =~= joined_modifiers(modifiers@.take(i + 1)));
            }
            i += 1;
        }
        proof {
            assert(modifiers@.take(modifiers@.len() as int) =~= modifiers@);
        }
        Ok(
            LocaleString {
                language_code: self.language_code.clone(),
                territory: clone_opt_string(&self.territory),
                code_set: clone_opt_string(&self.code_set),
                modifier: Some(out),
            },
        )
    }

    /// Returns the language code.
    fn language_code(&self) -> (r: String)
        ensures
            r@ == self@.language,
    {
        self.language_code.clone()
    }

    /// Returns the territory code, or `None` when the field is absent.
    fn territory(&self) -> (r: Option<String>)
        ensures
            match r {
                Some(t) => self@.territory == Some(t@),
                None => self@.territory is None,
            },
    {
        clone_opt_string(&self.territory)
    }

    /// Returns the code set name, or `None` when the field is absent.
    fn code_set(&self) -> (r: Option<String>)
        ensures
            match r {
                Some(c) => self@.code_set == Some(c@),
                None => self@.code_set is None,
            },
    {
        clone_opt_string(&self.code_set)
    }

    /// Returns the modifier string, or `None` when the field is absent.
    fn modifier(&self) -> (r: Option<String>)
        ensures
            match r {
                Some(m) => self@.modifier == Some(m@),
                None => self@.modifier is None,
            },
    {
        clone_opt_string(&self.modifier)
    }
}

/// The modifier string built from key/value pairs: each pair written
/// `key=value`, the pairs separated by `;`, in the order given.
pub open spec fn joined_modifiers(pairs: Seq<(String, String)>) -> Seq<char>
    decreases pairs.len(),
{
    if pairs.len() == 0 {
        Seq::empty()
    } else if pairs.len() == 1 {
        pairs[0].0@ + seq!['='] + pairs[0].1@
    } else {
        joined_modifiers(pairs.drop_last()) + seq![';'] + pairs.last().0@ + seq!['=']
            + pairs.last().1@
    }
}

/// The POSIX locale names `C` and `POSIX`, which are valid locale names but
/// fall outside this identifier model.
pub open spec fn is_posix_name(s: Seq<char>) -> bool {
    (s.len() == 1 && s[0] == 'C') || (s.len() == 5 && s[0] == 'P' && s[1] == 'O' && s[2] == 'S'
        && s[3] == 'I' && s[4] == 'X')
}

/// The position of the first `@` in `s` at or after `i`, or the length of `s`
/// when there is none.
pub open spec fn first_at(s: Seq<char>, i: int) -> int
    decreases s.len() - i,
{
    if i < 0 || i >= s.len() {
        s.len() as int
    } else if s[i] == '@' {
        i
    } else {
        first_at(s, i + 1)
    }
}

/// The code set captured from a locale string has the shape the grammar asks
/// for: an uppercase letter followed by at least one more letter, digit,
/// hyphen or underscore.
pub open spec fn code_set_shape(s: Seq<char>) -> bool {
    s.len() >= 2 && is_uppercase_char(s[0]) && (forall|j: int|
        1 <= j < s.len() ==> is_code_set_char(#[trigger] s[j]))
}

/// The modifier captured from a locale string has the shape the grammar asks
/// for: one or more word characters.
pub open spec fn modifier_shape(s: Seq<char>) -> bool {
    s.len() >= 1 && (forall|j: int| 0 <= j < s.len() ==> is_word_char(#[trigger] s[j]))
}

/// The grammar of the optional modifier, read from position `k`: either the
/// string ends there, or `@` stands at `k` and the rest is the modifier.
pub open spec fn parse_modifier(s: Seq<char>, k: int) -> Option<Option<Seq<char>>> {
    if k == s.len() {
        Some(None)
    } else if s[k] == '@' {
        let m = s.subrange(k + 1, s.len() as int);
        if modifier_shape(m) {
            Some(Some(m))
        } else {
            None
        }
    } else {
        None
    }
}

/// The grammar of the optional code set and modifier, read from position `i`:
/// either the string ends there, or `.` stands at `i` and the code set runs to
/// the first `@` or to the end, or the modifier starts at `i`.
pub open spec fn parse_tail(s: Seq<char>, i: int) -> Option<(Option<Seq<char>>, Option<Seq<char>>)> {
    if i == s.len() {
        Some((None, None))
    } else if s[i] == '.' {
        let k = first_at(s, i + 1);
        let cs = s.subrange(i + 1, k);
        if code_set_shape(cs) {
            match parse_modifier(s, k) {
                Some(m) => Some((Some(cs), m)),
                None => None,
            }
        } else {
            None
        }
    } else {
        match parse_modifier(s, i) {
            Some(m) => Some((None, m)),
            None => None,
        }
    }
}

/// The grammar of a locale identifier string: a two-letter lowercase language
/// code, then optionally `_` and a two-letter uppercase territory code, then
/// the optional code set and modifier. `None` when `s` does not match.
///
/// The language and territory groups ask for exactly two letters, the same
/// rule the field setters enforce. A looser grammar (two or more letters)
/// would accept strings whose captured fields the setters then reject; keeping
/// grammar and setter rules aligned makes that mismatch impossible, and such
/// strings fail here with an ordinary grammar failure instead.
pub open spec fn parse_fields(s: Seq<char>) -> Option<LocaleView> {
    if s.len() < 2 || !is_lowercase_char(s[0]) || !is_lowercase_char(s[1]) {
        None
    } else if s.len() > 2 && s[2] == '_' {
        if s.len() >= 5 && is_uppercase_char(s[3]) && is_uppercase_char(s[4]) {
            match parse_tail(s, 5) {
                Some(t) => Some(
                    LocaleView {
                        language: s.subrange(0, 2),
                        territory: Some(s.subrange(3, 5)),
                        code_set: t.0,
                        modifier: t.1,
                    },
                ),
                None => None,
            }
        } else {
            None
        }
    } else {
        match parse_tail(s, 2) {
            Some(t) => Some(
                LocaleView {
                    language: s.subrange(0, 2),
                    territory: None,
                    code_set: t.0,
                    modifier: t.1,
                },
            ),
            None => None,
        }
    }
}

/// What parsing a locale identifier string returns: the empty string and the
/// POSIX locale names are rejected first, then the string must match the
/// grammar. The grammar asks of each field exactly what the field setters ask,
/// so an identifier built from the captured fields always exists.
pub open spec fn parse_view(s: Seq<char>) -> Result<LocaleView, ParseError> {
    if s.len() == 0 {
        Err(ParseError::EmptyString)
    } else if is_posix_name(s) {
        Err(ParseError::PosixUnsupported)
    } else {
        match parse_fields(s) {
            Some(v) => Ok(v),
            None => Err(ParseError::RegexFailure),
        }
    }
}

/// `first_at` stays between its starting point and the end of the string.
proof fn lemma_first_at_bounds(s: Seq<char>, i: int)
    requires
        0 <= i <= s.len(),
    ensures
        i <= first_at(s, i) <= s.len(),
    decreases s.len() - i,
{
    if i < s.len() && s[i] != '@' {
        lemma_first_at_bounds(s, i + 1);
    }
}

/// When no `@` stands in `[i, k)` and `k` is the end of the string or holds
/// `@`, then `k` is the first `@` position from `i`.
proof fn lemma_first_at_is(s: Seq<char>, i: int, k: int)
    requires
        0 <= i <= k <= s.len(),
        forall|m: int| i <= m < k ==> s[m] != '@',
        k == s.len() || s[k] == '@',
    ensures
        first_at(s, i) == k,
    decreases k - i,
{
    if i < k {
        lemma_first_at_is(s, i + 1, k);
    }
}

/// When no `@` stands in `[i, j]`, the first `@` position from `i` lies past `j`.
proof fn lemma_first_at_past(s: Seq<char>, i: int, j: int)
    requires
        0 <= i <= j < s.len(),
        forall|m: int| i <= m <= j ==> s[m] != '@',
    ensures
        first_at(s, i) > j,
    decreases j - i,
{
    lemma_first_at_bounds(s, i + 1);
    if i < j {
        lemma_first_at_past(s, i + 1, j);
    }
}

/// Every field of `v` has the shape the parsing grammar captures: beyond the
/// validity rules of the field setters, the code set starts with an uppercase
/// letter and continues with letters, digits, hyphens or underscores, and the
/// modifier is one or more word characters.
pub open spec fn parseable(v: LocaleView) -> bool {
    &&& valid_language(v.language)
    &&& match v.territory {
        Some(t) => valid_territory(t),
        None => true,
    }
    &&& match v.code_set {
        Some(c) => code_set_shape(c),
        None => true,
    }
    &&& match v.modifier {
        Some(m) => modifier_shape(m),
        None => true,
    }
}

/// The shapes the grammar captures imply the validity rules of the fields:
/// every identifier the round-trip law speaks of is a well-formed identifier.
pub proof fn lemma_parseable_implies_wf(v: LocaleView)
    requires
        parseable(v),
    ensures
        v.wf(),
{
    match v.code_set {
        Some(c) => {
            assert(!is_whitespace_char(c[0]));
        },
        None => {},
    }
}

/// Reading the tail of a formatted identifier from position `p` captures the
/// code set and the modifier that were formatted.
proof fn lemma_parse_tail_of_format(
    s: Seq<char>,
    p: int,
    cs: Option<Seq<char>>,
    m: Option<Seq<char>>,
)
    requires
        0 <= p <= s.len(),
        match cs {
            Some(c) => code_set_shape(c),
            None => true,
        },
        match m {
            Some(mm) => modifier_shape(mm),
            None => true,
        },
        s.subrange(p, s.len() as int) == code_set_segment(cs) + modifier_segment(m),
    ensures
        parse_tail(s, p) == Some::<(Option<Seq<char>>, Option<Seq<char>>)>((cs, m)),
{
    let rest = code_set_segment(cs) + modifier_segment(m);
    assert forall|i: int| 0 <= i < rest.len() implies s[p + i] == #[trigger] rest[i] by {
        assert(s.subrange(p, s.len() as int)[i] == s[p + i]);
    }
    assert(s.len() == p + rest.len());
    match cs {
        Some(c) => {
            assert(rest[0] == '.');
            assert(s[p] == '.');
            let q = p + 1 + c.len();
            assert forall|i: int| p + 1 <= i < q implies s[i] != '@' by {
                assert(rest[i - p] == c[i - (p + 1)]);
                assert(s[p + (i - p)] == rest[i - p]);
                if i == p + 1 {
                    assert(is_uppercase_char(c[0]));
                } else {
                    assert(is_code_set_char(c[i - (p + 1)]));
                }
            }
            assert forall|j: int| 0 <= j < c.len() implies s.subrange(p + 1, q)[j] == c[j] by {
                assert(rest[1 + j] == c[j]);
                assert(s[p + (1 + j)] == rest[1 + j]);
            }
            assert(s.subrange(p + 1, q) =~= c);
            match m {
                Some(mm) => {
                    assert(rest[q - p] == modifier_segment(m)[0]);
                    assert(s[p + (q - p)] == rest[q - p]);
                    assert(s[q] == '@');
                    lemma_first_at_is(s, p + 1, q);
                    assert forall|j: int| 0 <= j < mm.len() implies s.subrange(
                        q + 1,
                        s.len() as int,
                    )[j] == mm[j] by {
                        assert(rest[(q + 1 - p) + j] == modifier_segment(m)[1 + j]);
                        assert(s[p + ((q + 1 - p) + j)] == rest[(q + 1 - p) + j]);
                    }
                    assert(s.subrange(q + 1, s.len() as int) =~= mm);
                },
                None => {
                    assert(q == s.len());
                    lemma_first_at_is(s, p + 1, q);
                },
            }
        },
        None => {
            match m {
                Some(mm) => {
                    assert(rest[0] == '@');
                    assert(s[p] == '@');
                    assert forall|j: int| 0 <= j < mm.len() implies s.subrange(
                        p + 1,
                        s.len() as int,
                    )[j] == mm[j] by {
                        assert(rest[1 + j] == mm[j]);
                        assert(s[p + (1 + j)] == rest[1 + j]);
                    }
                    assert(s.subrange(p + 1, s.len() as int) =~= mm);
                },
                None => {
                    assert(p == s.len());
                },
            }
        },
    }
}

/// Round-trip law: formatting an identifier whose fields have the shapes the
/// grammar captures, and parsing the result, recovers the identifier field
/// for field.
pub proof fn lemma_parse_format_round_trip(v: LocaleView)
    requires
        parseable(v),
    ensures
        parse_view(format_of(v)) == Ok::<LocaleView, ParseError>(v),
{
    let s = format_of(v);
    let lang = v.language;
    let ts = territory_segment(v.territory);
    let cseg = code_set_segment(v.code_set);
    let mseg = modifier_segment(v.modifier);
    let tail_all = ts + (cseg + mseg);
    assert(s =~= lang + tail_all);
    assert(s[0] == lang[0] && s[1] == lang[1]);
    assert forall|i: int| 0 <= i < tail_all.len() implies s[2 + i] == tail_all[i] by {
        assert((lang + tail_all)[2 + i] == tail_all[i]);
    }
    assert(is_lowercase_char(s[0]) && is_lowercase_char(s[1]));
    assert(!is_posix_name(s));
    let p = 2 + ts.len() as int;
    assert(s.subrange(p, s.len() as int) =~= cseg + mseg);
    lemma_parse_tail_of_format(s, p, v.code_set, v.modifier);
    match v.territory {
        Some(t) => {
            assert(ts.len() == 3);
            assert(s[2] == ts[0] && s[3] == ts[1] && s[4] == ts[2]);
            assert(s[2] == '_');
            assert(is_uppercase_char(s[3]) && is_uppercase_char(s[4]));
            assert(s.subrange(3, 5) =~= t);
            assert(s.subrange(0, 2) =~= lang);
            assert(parse_fields(s) == Some(v));
        },
        None => {
            assert(ts.len() == 0);
            if s.len() > 2 {
                assert(s[2] == (cseg + mseg)[0]);
                match v.code_set {
                    Some(c) => {
                        assert(s[2] == '.');
                    },
                    None => {
                        match v.modifier {
                            Some(mm) => {
                                assert(s[2] == '@');
                            },
                            None => {
                                assert(false);
                            },
                        }
                    },
                }
                assert(s[2] != '_');
            }
            assert(s.subrange(0, 2) =~= lang);
            assert(parse_fields(s) == Some(v));
        },
    }
}

/// `first_at` finds the first `@`: its result stays in bounds, points at an
/// `@` unless it is the end of the string, and skips no `@`.
proof fn lemma_first_at_props(s: Seq<char>, i: int)
    requires
        0 <= i <= s.len(),
    ensures
        i <= first_at(s, i) <= s.len(),
        first_at(s, i) < s.len() ==> s[first_at(s, i)] == '@',
        forall|m: int| i <= m < first_at(s, i) ==> s[m] != '@',
    decreases s.len() - i,
{
    if i < s.len() && s[i] != '@' {
        lemma_first_at_props(s, i + 1);
    }
}

/// Reading the tail of a string from position `p` captures a code set and a
/// modifier that, written back out, give exactly that tail.
proof fn lemma_parse_tail_sound(
    s: Seq<char>,
    p: int,
    cs: Option<Seq<char>>,
    m: Option<Seq<char>>,
)
    requires
        0 <= p <= s.len(),
        parse_tail(s, p) == Some::<(Option<Seq<char>>, Option<Seq<char>>)>((cs, m)),
    ensures
        match cs {
            Some(c) => code_set_shape(c),
            None => true,
        },
        match m {
            Some(mm) => modifier_shape(mm),
            None => true,
        },
        s.subrange(p, s.len() as int) == code_set_segment(cs) + modifier_segment(m),
{
    let sub = s.subrange(p, s.len() as int);
    if p == s.len() {
        assert(sub =~= code_set_segment(cs) + modifier_segment(m));
    } else if s[p] == '.' {
        let k = first_at(s, p + 1);
        lemma_first_at_props(s, p + 1);
        let c = s.subrange(p + 1, k);
        assert(cs == Some(c));
        let cseg = code_set_segment(cs);
        if k == s.len() {
            assert(m is None);
            assert forall|j: int| 0 <= j < sub.len() implies sub[j] == #[trigger] cseg[j] by {
                assert(sub[j] == s[p + j]);
                if j >= 1 {
                    assert(cseg[j] == c[j - 1]);
                    assert(c[j - 1] == s[p + 1 + (j - 1)]);
                }
            }
            assert(sub =~= cseg + modifier_segment(m));
        } else {
            assert(s[k] == '@');
            let mm = s.subrange(k + 1, s.len() as int);
            assert(m == Some(mm));
            let mseg = modifier_segment(m);
            let rest = cseg + mseg;
            assert forall|j: int| 0 <= j < rest.len() implies sub[j] == #[trigger] rest[j] by {
                assert(sub[j] == s[p + j]);
                if j == 0 {
                    assert(rest[0] == cseg[0]);
                } else if j < cseg.len() {
                    assert(rest[j] == cseg[j]);
                    assert(cseg[j] == c[j - 1]);
                    assert(c[j - 1] == s[p + 1 + (j - 1)]);
                } else if j == cseg.len() {
                    assert(rest[j] == mseg[0]);
                    assert(p + j == k);
                } else {
                    assert(rest[j] == mseg[j - cseg.len()]);
                    assert(mseg[j - cseg.len()] == mm[j - cseg.len() - 1]);
                    assert(mm[j - cseg.len() - 1] == s[k + 1 + (j - cseg.len() - 1)]);
                }
            }
            assert(sub =~= rest);
        }
    } else {
        assert(s[p] == '@');
        let mm = s.subrange(p + 1, s.len() as int);
        assert(cs is None && m == Some(mm));
        let mseg = modifier_segment(m);
        assert forall|j: int| 0 <= j < sub.len() implies sub[j] == #[trigger] mseg[j] by {
            assert(sub[j] == s[p + j]);
            if j >= 1 {
                assert(mseg[j] == mm[j - 1]);
                assert(mm[j - 1] == s[p + 1 + (j - 1)]);
            }
        }
        assert(sub =~= code_set_segment(cs) + mseg);
    }
}

/// Parsing is sound with respect to formatting: an identifier read from a
/// string has the field shapes the grammar asks for, and writing it back out
/// gives exactly the string that was read.
pub proof fn lemma_parse_format_sound(s: Seq<char>, v: LocaleView)
    requires
        parse_view(s) == Ok::<LocaleView, ParseError>(v),
    ensures
        parseable(v),
        format_of(v) == s,
{
    let lang = s.subrange(0, 2);
    assert(v.language == lang);
    assert forall|i: int| 0 <= i < lang.len() implies is_lowercase_char(#[trigger] lang[i]) by {
        assert(lang[i] == s[i]);
        if i != 0 {
            assert(i == 1);
        }
    }
    let ts = territory_segment(v.territory);
    let p: int = if s.len() > 2 && s[2] == '_' {
        5
    } else {
        2
    };
    if p == 5 {
        let t = s.subrange(3, 5);
        assert(v.territory == Some(t));
        assert forall|i: int| 0 <= i < t.len() implies is_uppercase_char(#[trigger] t[i]) by {
            assert(t[i] == s[3 + i]);
            if i != 0 {
                assert(i == 1);
            }
        }
        assert(valid_territory(t));
    } else {
        assert(v.territory is None);
    }
    lemma_parse_tail_sound(s, p, v.code_set, v.modifier);
    let prefix = s.subrange(0, p);
    assert forall|i: int| 0 <= i < p implies prefix[i] == #[trigger] (lang + ts)[i] by {
        assert(prefix[i] == s[i]);
        if i < 2 {
            assert((lang + ts)[i] == lang[i]);
        } else {
            assert((lang + ts)[i] == ts[i - 2]);
            if i > 2 {
                assert(ts[i - 2] == s.subrange(3, 5)[i - 3]);
            }
        }
    }
    assert(prefix =~= lang + ts);
    let rest = code_set_segment(v.code_set) + modifier_segment(v.modifier);
    assert(s.subrange(p, s.len() as int) == rest);
    assert(format_of(v) =~= (lang + ts) + rest);
    assert(s =~= prefix + s.subrange(p, s.len() as int));
    assert(format_of(v) == s);
}

impl LocaleString {
    /// Parses a locale identifier string of the form
    /// `language[_territory][.codeset][@modifier]`.
    ///
    /// Fails with `EmptyString` on empty input and with `PosixUnsupported` on
    /// the POSIX locale names `C` and `POSIX`; any other input that does not
    /// match the grammar fails with `RegexFailure`. The grammar constrains
    /// each field at least as much as the field setters do, so building the
    /// identifier from the captured fields cannot fail: the branches below
    /// that would surface such a failure are proved unreachable.
    #[verifier::loop_isolation(false)]
    pub fn from_str(s: &str) -> (r: Result<LocaleString, ParseError>)
        ensures
            match r {
                Ok(loc) => parse_view(s@) == Ok::<LocaleView, ParseError>(loc@) && loc.wf(),
                Err(e) => parse_view(s@) == Err::<LocaleView, ParseError>(e),
            },
    {
        let n = s.unicode_len();
        if n == 0 {
            return Err(ParseError::EmptyString);
        }
        if n == 1 && s.get_char(0) == 'C' {
            return Err(ParseError::PosixUnsupported);
        }
        if n == 5 && s.get_char(0) == 'P' && s.get_char(1) == 'O' && s.get_char(2) == 'S'
            && s.get_char(3) == 'I' && s.get_char(4) == 'X' {
            return Err(ParseError::PosixUnsupported);
        }
        if n < 2 {
            return Err(ParseError::RegexFailure);
        }
        if !lowercase_char(s.get_char(0)) || !lowercase_char(s.get_char(1)) {
            return Err(ParseError::RegexFailure);
        }
        let language: String = s.substring_char(0, 2).to_owned();
        let mut pos: usize = 2;
        let mut territory: Option<String> = None;
        if pos < n && s.get_char(pos) == '_' {
            if n < 5 {
                return Err(ParseError::RegexFailure);
            }
            if !uppercase_char(s.get_char(3)) || !uppercase_char(s.get_char(4)) {
                return Err(ParseError::RegexFailure);
            }
            territory = Some(s.substring_char(3, 5).to_owned());
            pos = 5;
        }
        let mut code_set: Option<String> = None;
        if pos < n && s.get_char(pos) == '.' {
            let start: usize = pos + 1;
            if start >= n {
                return Err(ParseError::RegexFailure);
            }
            if !uppercase_char(s.get_char(start)) {
                proof {
                    lemma_first_at_bounds(s@, start as int);
                    if s@[start as int] != '@' {
                        lemma_first_at_bounds(s@, start + 1);
                        assert(first_at(s@, start as int) == first_at(s@, start + 1));
                        let cs = s@.subrange(start as int, first_at(s@, start as int));
                        assert(cs[0] == s@[start as int]);
                    }
                }
                return Err(ParseError::RegexFailure);
            }
            let mut k: usize = start + 1;
            while k < n && s.get_char(k) != '@'
                invariant
                    start + 1 <= k <= n,
                    forall|m: int|
                        start + 1 <= m < k ==> s@[m] != '@' && is_code_set_char(#[trigger] s@[m]),
                decreases n - k,
            {
                if !code_set_char(s.get_char(k)) {
                    proof {
                        assert forall|m: int| start <= m <= k implies s@[m] != '@' by {
                            if m == start {
                                assert(is_uppercase_char(s@[m]));
                            }
                        }
                        lemma_first_at_past(s@, start as int, k as int);
                        lemma_first_at_bounds(s@, start as int);
                        let cs = s@.subrange(start as int, first_at(s@, start as int));
                        assert(cs[k - start] == s@[k as int]);
                        assert(!is_code_set_char(cs[k - start]));
                        assert(!code_set_shape(cs));
                    }
                    return Err(ParseError::RegexFailure);
                }
                k += 1;
            }
            proof {
                assert forall|m: int| start <= m < k implies s@[m] != '@' by {
                    if m == start {
                        assert(is_uppercase_char(s@[m]));
                    }
                }
                lemma_first_at_is(s@, start as int, k as int);
            }
            if k - start < 2 {
                return Err(ParseError::RegexFailure);
            }
            code_set = Some(s.substring_char(start, k).to_owned());
            proof {
                let cs = s@.subrange(start as int, k as int);
                assert forall|j: int| 1 <= j < cs.len() implies is_code_set_char(
                    #[trigger] cs[j],
                ) by {
                    assert(cs[j] == s@[start + j]);
                }
                assert(code_set_shape(cs));
            }
            pos = k;
        }
        let mut modifier: Option<String> = None;
        if pos < n {
            if s.get_char(pos) != '@' {
                return Err(ParseError::RegexFailure);
            }
            let mstart: usize = pos + 1;
            if mstart >= n {
                proof {
                    assert(s@.subrange(mstart as int, n as int).len() == 0);
                }
                return Err(ParseError::RegexFailure);
            }
            let mut k2: usize = mstart;
            while k2 < n
                invariant
                    mstart <= k2 <= n,
                    forall|m: int| mstart <= m < k2 ==> is_word_char(#[trigger] s@[m]),
                decreases n - k2,
            {
                if !word_char(s.get_char(k2)) {
                    proof {
                        let m = s@.subrange(mstart as int, n as int);
                        assert(m[k2 - mstart] == s@[k2 as int]);
                        assert(!is_word_char(m[k2 - mstart]));
                        assert(!modifier_shape(m));
                    }
                    return Err(ParseError::RegexFailure);
                }
                k2 += 1;
            }
            modifier = Some(s.substring_char(mstart, n).to_owned());
            proof {
                let m = s@.subrange(mstart as int, n as int);
                assert forall|j: int| 0 <= j < m.len() implies is_word_char(#[trigger] m[j]) by {
                    assert(m[j] == s@[mstart + j]);
                }
                assert(modifier_shape(m));
            }
        }
        proof {
            assert forall|i: int| 0 <= i < s@.subrange(0, 2).len() implies is_lowercase_char(
                #[trigger] s@.subrange(0, 2)[i],
            ) by {
                if i != 0 {
                    assert(i == 1);
                }
            }
        }
        let loc0 = match LocaleString::new(language) {
            Ok(l) => l,
            Err(_) => unreached(),
        };
        let loc1 = match territory {
            Some(t) => match loc0.with_territory(t) {
                Ok(l) => l,
                Err(_) => unreached(),
            },
            None => loc0,
        };
        let loc2 = match code_set {
            Some(c) => {
                proof {
                    assert(!is_whitespace_char(c@[0]));
                }
                match loc1.with_code_set(c) {
                    Ok(l) => l,
                    Err(_) => unreached(),
                }
            },
            None => loc1,
        };
        let loc3 = match modifier {
            Some(m) => match loc2.with_modifier(m) {
                Ok(l) => l,
                Err(_) => unreached(),
            },
            None => loc2,
        };
        Ok(loc3)
    }

    /// Serializes this identifier to its canonical string form.
    pub fn to_string(&self) -> (r: String)
        ensures
            r@ == format_of(self@),
    {
        proof {
            reveal_strlit("_");
            reveal_strlit(".");
            reveal_strlit("@");
        }
        let mut out = self.language_code.clone();
        if let Some(t) = &self.territory {
            out.append("_");
            out.append(t.as_str());
        }
        if let Some(c) = &self.code_set {
            out.append(".");
            out.append(c.as_str());
        }
        if let Some(m) = &self.modifier {
            out.append("@");
            out.append(m.as_str());
        }
        proof {
            assert(out@ =~= format_of(self@));
        }
        out
    }
}

} // verus!
