//! The template engine: strings with `{{ key }}` placeholders, the closed
//! set of key kinds, the error taxonomy in its borrowed and owned forms, and
//! rendering against a context of profile values, overrides, chain
//! definitions, an environment, and the record repository.
//!
//! The placeholder grammar reads "word characters" as ASCII: keys are built
//! of ASCII letters, digits, `.`, `_` and `-`, padded by ASCII whitespace,
//! and braces around anything else are literal text.

use vstd::prelude::*;

use crate::http::RecordView;
use crate::http::Repository;
use crate::http::spec_get_last;
use crate::json::json_doc_ok;
use crate::json::json_path_ok;
use crate::json::json_selected;
use crate::json::node_to_text;
use crate::json::parse_document;
use crate::json::parse_path;
use crate::json::query_exactly_one;
use crate::strutil::str_eq;
use crate::strutil::to_char_vec;
use crate::valuemap::im_get;
use crate::valuemap::im_insert;
use crate::valuemap::im_new;
use crate::valuemap::map_entries;

verus! {

/// A string that can contain templated content.
#[derive(Clone, Debug)]
pub struct TemplateString(pub String);

impl View for TemplateString {
    type V = Seq<char>;

    open spec fn view(&self) -> Seq<char> {
        self.0@
    }
}

/// A chained value definition: a binding that resolves to data extracted
/// from the most recent response of another recipe, optionally narrowed by a
/// JSON Path expression.
#[derive(Clone, Debug)]
pub struct Chain {
    pub id: String,
    pub source: String,
    pub path: Option<String>,
}

pub struct ChainView {
    pub id: Seq<char>,
    pub source: Seq<char>,
    pub path: Option<Seq<char>>,
}

impl View for Chain {
    type V = ChainView;

    open spec fn view(&self) -> ChainView {
        ChainView {
            id: self.id@,
            source: self.source@,
            path: match self.path {
                Option::Some(p) => Option::Some(p@),
                Option::None => Option::None,
            },
        }
    }
}

/// All the data that a template can draw values from during one render.
pub struct TemplateContext {
    /// Key-value mapping of the selected profile.
    pub profile: indexmap::IndexMap<String, String>,
    /// Chained value definitions.
    pub chains: Vec<Chain>,
    /// Store of past attempts, read for chained values.
    pub repository: Repository,
    /// Additional key-value overrides, shadowing the profile.
    pub overrides: indexmap::IndexMap<String, String>,
    /// The process environment, as supplied by the caller.
    pub environment: indexmap::IndexMap<String, String>,
}

pub struct ContextView {
    pub profile: Map<Seq<char>, Seq<char>>,
    pub chains: Seq<ChainView>,
    pub repository: Seq<RecordView>,
    pub overrides: Map<Seq<char>, Seq<char>>,
    pub environment: Map<Seq<char>, Seq<char>>,
}

impl View for TemplateContext {
    type V = ContextView;

    open spec fn view(&self) -> ContextView {
        ContextView {
            profile: map_entries(self.profile),
            chains: self.chains@.map_values(|c: Chain| c@),
            repository: self.repository@,
            overrides: map_entries(self.overrides),
            environment: map_entries(self.environment),
        }
    }
}

impl TemplateContext {
    /// A context with no profile values, overrides, chains, environment
    /// variables, or stored records.
    pub fn new() -> (r: TemplateContext)
        ensures
            forall|k: Seq<char>| !r@.profile.contains_key(k),
            forall|k: Seq<char>| !r@.overrides.contains_key(k),
            forall|k: Seq<char>| !r@.environment.contains_key(k),
            r@.chains == Seq::<ChainView>::empty(),
            r@.repository == Seq::<RecordView>::empty(),
    {
        let chains: Vec<Chain> = Vec::new();
        let r = TemplateContext {
            profile: im_new(),
            chains,
            repository: Repository::new(),
            overrides: im_new(),
            environment: im_new(),
        };
        proof {
            assert(r@.chains =~= Seq::<ChainView>::empty());
        }
        r
    }

    /// Add a profile value, replacing any value the key already had.
    pub fn set_profile(&mut self, key: String, value: String)
        ensures
            final(self)@ == (ContextView {
                profile: old(self)@.profile.insert(key@, value@),
                ..old(self)@
            }),
    {
        im_insert(&mut self.profile, key, value);
    }

    /// Add an override, replacing any value the key already had.
    pub fn set_override(&mut self, key: String, value: String)
        ensures
            final(self)@ == (ContextView {
                overrides: old(self)@.overrides.insert(key@, value@),
                ..old(self)@
            }),
    {
        im_insert(&mut self.overrides, key, value);
    }

    /// Add an environment variable, replacing any value the name already
    /// had.
    pub fn set_environment(&mut self, key: String, value: String)
        ensures
            final(self)@ == (ContextView {
                environment: old(self)@.environment.insert(key@, value@),
                ..old(self)@
            }),
    {
        im_insert(&mut self.environment, key, value);
    }
}

/// A parsed template key. The variant determines how the key is resolved
/// into a value; the closed set of variants is matched exhaustively, one
/// resolution routine per variant.
#[derive(Clone, Debug, PartialEq)]
pub enum TemplateKey<'a> {
    /// A plain field, which can come from the profile or an override.
    Field(&'a str),
    /// A value chained from the response of another recipe.
    Chain(&'a str),
    /// A value pulled from the process environment.
    Environment(&'a str),
}

/// The mathematical shape of a parsed key, including the rejected case.
pub enum TemplateKeyView {
    Field(Seq<char>),
    Chain(Seq<char>),
    Environment(Seq<char>),
    Invalid(Seq<char>),
}

impl<'a> View for TemplateKey<'a> {
    type V = TemplateKeyView;

    open spec fn view(&self) -> TemplateKeyView {
        match *self {
            TemplateKey::Field(s) => TemplateKeyView::Field(s@),
            TemplateKey::Chain(s) => TemplateKeyView::Chain(s@),
            TemplateKey::Environment(s) => TemplateKeyView::Environment(s@),
        }
    }
}

/// The first position at or after `i` where `c` occurs in `s`.
pub open spec fn first_index_from(s: Seq<char>, i: int, c: char) -> Option<int>
    decreases s.len() - i,
    when 0 <= i <= s.len()
{
    if i >= s.len() {
        Option::None
    } else if s[i] == c {
        Option::Some(i)
    } else {
        first_index_from(s, i + 1, c)
    }
}

proof fn lemma_first_index_from_bounds(s: Seq<char>, i: int, c: char)
    requires
        0 <= i <= s.len(),
    ensures
        first_index_from(s, i, c) matches Option::Some(d) ==> i <= d < s.len() && s[d] == c,
    decreases s.len() - i,
{
    if i < s.len() && s[i] != c {
        lemma_first_index_from_bounds(s, i + 1, c);
    }
}

/// What parsing the text inside `{{ }}` yields: one non-empty dotted
/// segment is a plain field; exactly the two segments `chains`, `<id>` a
/// chained value; exactly the two segments `env`, `<name>` an environment
/// variable. Any other shape — an empty segment included, so `chains.` and
/// `env.` as well — is invalid.
pub open spec fn spec_parse_key(key: Seq<char>) -> TemplateKeyView {
    match first_index_from(key, 0, '.') {
        Option::None => if key.len() > 0 {
            TemplateKeyView::Field(key)
        } else {
            TemplateKeyView::Invalid(key)
        },
        Option::Some(d) => match first_index_from(key, d + 1, '.') {
            Option::Some(_) => TemplateKeyView::Invalid(key),
            Option::None => {
                let head = key.subrange(0, d);
                let rest = key.subrange(d + 1, key.len() as int);
                if rest.len() == 0 {
                    TemplateKeyView::Invalid(key)
                } else if head == "chains"@ {
                    TemplateKeyView::Chain(rest)
                } else if head == "env"@ {
                    TemplateKeyView::Environment(rest)
                } else {
                    TemplateKeyView::Invalid(key)
                }
            },
        },
    }
}

/// Find the first occurrence of `c` in `s` at or after character `from`.
fn find_char(s: &str, chars: &Vec<char>, from: usize, c: char) -> (r: Option<usize>)
    requires
        chars@ == s@,
        from <= s@.len(),
    ensures
        match r {
            Option::Some(d) => Option::Some(d as int) == first_index_from(s@, from as int, c),
            Option::None => first_index_from(s@, from as int, c) is None,
        },
{
    let n = chars.len();
    let mut i: usize = from;
    while i < n
        invariant
            chars@ == s@,
            from <= i <= n,
            n == s@.len(),
            first_index_from(s@, from as int, c) == first_index_from(s@, i as int, c),
        decreases n - i,
    {
        if chars[i] == c {
            return Some(i);
        }
        i = i + 1;
    }
    None
}

impl<'a> TemplateKey<'a> {
    /// Parse the text captured inside `{{ }}` into a key.
    pub fn parse(s: &'a str) -> (r: Result<TemplateKey<'a>, TemplateError<&'a str>>)
        ensures
            match r {
                Result::Ok(key) => key@ == spec_parse_key(s@) && !(spec_parse_key(s@) is Invalid),
                Result::Err(e) => spec_parse_key(s@) is Invalid && e@
                    == (TemplateErrorView::InvalidKey { key: s@ }),
            },
    {
        let chars = to_char_vec(s);
        let n = chars.len();
        match find_char(s, &chars, 0, '.') {
            None => {
                if n > 0 {
                    Ok(TemplateKey::Field(s))
                } else {
                    Err(TemplateError::InvalidKey { key: s })
                }
            },
            Some(d) => {
                proof {
                    lemma_first_index_from_bounds(s@, 0, '.');
                }
                match find_char(s, &chars, d + 1, '.') {
                    Some(_) => Err(TemplateError::InvalidKey { key: s }),
                    None => {
                        let head = s.substring_char(0, d);
                        let rest = s.substring_char(d + 1, n);
                        if rest.is_empty() {
                            Err(TemplateError::InvalidKey { key: s })
                        } else if str_eq(head, "chains") {
                            Ok(TemplateKey::Chain(rest))
                        } else if str_eq(head, "env") {
                            Ok(TemplateKey::Environment(rest))
                        } else {
                            Err(TemplateError::InvalidKey { key: s })
                        }
                    },
                }
            },
        }
    }
}

/// Any error that can occur during template rendering. The parameter is
/// `&str` for the borrowed form, whose fields reference the template or the
/// context and which stays inside one synchronous render call, and `String`
/// for the owned form, which can cross an async boundary or be stored.
///
/// The error always carries the offending identifier, so a caller can point
/// at the exact failing span of the template.
#[derive(Debug)]
pub enum TemplateError<S> {
    /// Template key could not be parsed.
    InvalidKey { key: S },
    /// A basic field key contained an unknown field.
    FieldUnknown { field: S },
    /// No chain with this id is defined in the context.
    ChainUnknown { chain_id: S },
    /// The chain id is valid, but the source recipe has no stored attempt,
    /// or its most recent attempt did not succeed.
    ChainNoResponse { chain_id: S },
    /// The chain's JSON Path expression does not parse.
    ChainJsonPath { chain_id: S, path: S, error: serde_json_path::ParseError },
    /// The stored response body is not a valid JSON document.
    ChainParseResponse { chain_id: S, error: serde_json::Error },
    /// The stored response does not declare a JSON-compatible content type;
    /// carries the declared content type, if any.
    ChainIncorrectContentType { chain_id: S, content_type: Option<String> },
    /// The JSON Path query matched zero nodes, or two or more.
    ChainInvalidResult { chain_id: S, error: serde_json_path::ExactlyOneError },
    /// The environment variable is not set.
    EnvironmentVariable { variable: S },
    /// An error occurred accessing the request repository.
    Repository { message: String },
}

/// The mathematical shape of a template error: the variant together with the
/// offending identifiers. Payloads carried only for display are not part of
/// the shape.
pub enum TemplateErrorView {
    InvalidKey { key: Seq<char> },
    FieldUnknown { field: Seq<char> },
    ChainUnknown { chain_id: Seq<char> },
    ChainNoResponse { chain_id: Seq<char> },
    ChainJsonPath { chain_id: Seq<char>, path: Seq<char> },
    ChainParseResponse { chain_id: Seq<char> },
    ChainIncorrectContentType { chain_id: Seq<char>, content_type: Option<Seq<char>> },
    ChainInvalidResult { chain_id: Seq<char> },
    EnvironmentVariable { variable: Seq<char> },
    Repository { message: Seq<char> },
}

impl<S: View<V = Seq<char>>> View for TemplateError<S> {
    type V = TemplateErrorView;

    open spec fn view(&self) -> TemplateErrorView {
        match self {
            TemplateError::InvalidKey { key } => TemplateErrorView::InvalidKey { key: key@ },
            TemplateError::FieldUnknown { field } => TemplateErrorView::FieldUnknown {
                field: field@,
            },
            TemplateError::ChainUnknown { chain_id } => TemplateErrorView::ChainUnknown {
                chain_id: chain_id@,
            },
            TemplateError::ChainNoResponse { chain_id } => TemplateErrorView::ChainNoResponse {
                chain_id: chain_id@,
            },
            TemplateError::ChainJsonPath { chain_id, path, .. } => TemplateErrorView::ChainJsonPath {
                chain_id: chain_id@,
                path: path@,
            },
            TemplateError::ChainParseResponse { chain_id, .. } => TemplateErrorView::ChainParseResponse {
                chain_id: chain_id@,
            },
            TemplateError::ChainIncorrectContentType { chain_id, content_type } => TemplateErrorView::ChainIncorrectContentType {
                chain_id: chain_id@,
                content_type: match content_type {
                    Option::Some(c) => Option::Some(c@),
                    Option::None => Option::None,
                },
            },
            TemplateError::ChainInvalidResult { chain_id, .. } => TemplateErrorView::ChainInvalidResult {
                chain_id: chain_id@,
            },
            TemplateError::EnvironmentVariable { variable } => TemplateErrorView::EnvironmentVariable {
                variable: variable@,
            },
            TemplateError::Repository { message } => TemplateErrorView::Repository {
                message: message@,
            },
        }
    }
}

impl<'a> TemplateError<&'a str> {
    /// Convert a borrowed error into an owned one by copying every borrowed
    /// string. The conversion is lossless: the variant and every identifier
    /// carry over unchanged.
    pub fn into_owned(self) -> (r: TemplateError<String>)
        ensures
            r@ == self@,
    {
        match self {
            TemplateError::InvalidKey { key } => TemplateError::InvalidKey {
                key: key.to_owned(),
            },
            TemplateError::FieldUnknown { field } => TemplateError::FieldUnknown {
                field: field.to_owned(),
            },
            TemplateError::ChainUnknown { chain_id } => TemplateError::ChainUnknown {
                chain_id: chain_id.to_owned(),
            },
            TemplateError::ChainNoResponse { chain_id } => TemplateError::ChainNoResponse {
                chain_id: chain_id.to_owned(),
            },
            TemplateError::ChainJsonPath { chain_id, path, error } => TemplateError::ChainJsonPath {
                chain_id: chain_id.to_owned(),
                path: path.to_owned(),
                error,
            },
            TemplateError::ChainParseResponse { chain_id, error } => TemplateError::ChainParseResponse {
                chain_id: chain_id.to_owned(),
                error,
            },
            TemplateError::ChainIncorrectContentType { chain_id, content_type } => TemplateError::ChainIncorrectContentType {
                chain_id: chain_id.to_owned(),
                content_type,
            },
            TemplateError::ChainInvalidResult { chain_id, error } => TemplateError::ChainInvalidResult {
                chain_id: chain_id.to_owned(),
                error,
            },
            TemplateError::EnvironmentVariable { variable } => TemplateError::EnvironmentVariable {
                variable: variable.to_owned(),
            },
            TemplateError::Repository { message } => TemplateError::Repository { message },
        }
    }
}

// ---------------------------------------------------------------------------
// The placeholder grammar: `{{`, optional whitespace, one or more key
// characters, optional whitespace, `}}`. Literal text between matches is
// copied verbatim, and matches are taken in strict left-to-right order
// without overlap.
//
// The character classes are deliberately ASCII: a key character is an ASCII
// letter or digit, `.`, `_`, or `-`, and padding is ASCII whitespace. Braces
// enclosing any other character, a non-ASCII letter included, are not a
// placeholder and stay literal text.
// ---------------------------------------------------------------------------
/// A character that may appear inside a placeholder key: an ASCII letter,
/// an ASCII digit, `.`, `_`, or `-`, and nothing else.
pub open spec fn is_key_char(c: char) -> bool {
    (('a' as u32) <= (c as u32) && (c as u32) <= ('z' as u32)) || (('A' as u32) <= (c as u32) && (
    c as u32) <= ('Z' as u32)) || (('0' as u32) <= (c as u32) && (c as u32) <= ('9' as u32)) || c
        == '_' || c == '.' || c == '-'
}

/// A whitespace character that may pad a key inside its braces: the ASCII
/// whitespace characters, and no other.
pub open spec fn is_space_char(c: char) -> bool {
    c == ' ' || c == '\t' || c == '\n' || c == '\r' || c == '\u{b}' || c == '\u{c}'
}

/// The first position at or after `i` that does not hold padding
/// whitespace.
pub open spec fn skip_space(s: Seq<char>, i: int) -> int
    decreases s.len() - i,
    when 0 <= i <= s.len()
{
    if i < s.len() && is_space_char(s[i]) {
        skip_space(s, i + 1)
    } else {
        i
    }
}

/// The first position at or after `i` that does not hold a key character.
pub open spec fn skip_key_chars(s: Seq<char>, i: int) -> int
    decreases s.len() - i,
    when 0 <= i <= s.len()
{
    if i < s.len() && is_key_char(s[i]) {
        skip_key_chars(s, i + 1)
    } else {
        i
    }
}

proof fn lemma_skip_space_bounds(s: Seq<char>, i: int)
    requires
        0 <= i <= s.len(),
    ensures
        i <= skip_space(s, i) <= s.len(),
    decreases s.len() - i,
{
    if i < s.len() && is_space_char(s[i]) {
        lemma_skip_space_bounds(s, i + 1);
    }
}

proof fn lemma_skip_key_chars_bounds(s: Seq<char>, i: int)
    requires
        0 <= i <= s.len(),
    ensures
        i <= skip_key_chars(s, i) <= s.len(),
    decreases s.len() - i,
{
    if i < s.len() && is_key_char(s[i]) {
        lemma_skip_key_chars_bounds(s, i + 1);
    }
}

/// Whether a placeholder match starts at position `i`, and if so where its
/// key starts and ends and where the whole match ends: `Some((key_start,
/// key_end, match_end))`.
pub open spec fn match_at(s: Seq<char>, i: int) -> Option<(int, int, int)>
    recommends
        0 <= i <= s.len(),
{
    if i + 2 <= s.len() && s[i] == '{' && s[i + 1] == '{' {
        let ks = skip_space(s, i + 2);
        let ke = skip_key_chars(s, ks);
        let close = skip_space(s, ke);
        if ke > ks && close + 2 <= s.len() && s[close] == '}' && s[close + 1] == '}' {
            Option::Some((ks, ke, close + 2))
        } else {
            Option::None
        }
    } else {
        Option::None
    }
}

proof fn lemma_match_at_bounds(s: Seq<char>, i: int)
    requires
        0 <= i <= s.len(),
    ensures
        match_at(s, i) matches Option::Some(m) ==> i + 2 <= m.0 && m.0 < m.1 <= s.len() && m.1
            <= m.2 - 2 && i < m.2 <= s.len(),
{
    if i + 2 <= s.len() && s[i] == '{' && s[i + 1] == '{' {
        lemma_skip_space_bounds(s, i + 2);
        lemma_skip_key_chars_bounds(s, skip_space(s, i + 2));
        lemma_skip_space_bounds(s, skip_key_chars(s, skip_space(s, i + 2)));
    }
}

/// Whether the string holds a placeholder match anywhere.
pub open spec fn has_placeholder(s: Seq<char>) -> bool {
    exists|i: int| 0 <= i <= s.len() && match_at(s, i) is Some
}

fn is_key_char_exec(c: char) -> (r: bool)
    ensures
        r == is_key_char(c),
{
    let u = c as u32;
    (97 <= u && u <= 122) || (65 <= u && u <= 90) || (48 <= u && u <= 57) || c == '_' || c == '.'
        || c == '-'
}

fn is_space_char_exec(c: char) -> (r: bool)
    ensures
        r == is_space_char(c),
{
    c == ' ' || c == '\t' || c == '\n' || c == '\r' || c == '\u{b}' || c == '\u{c}'
}

/// Try to match a placeholder starting exactly at character `i`.
fn try_match(s: &str, chars: &Vec<char>, i: usize) -> (r: Option<(usize, usize, usize)>)
    requires
        chars@ == s@,
        i <= s@.len(),
    ensures
        match r {
            Option::Some(m) => {
                &&& match_at(s@, i as int) == Option::Some(
                    (m.0 as int, m.1 as int, m.2 as int),
                )
                &&& i + 2 <= m.0 < m.1 <= s@.len()
                &&& i < m.2 <= s@.len()
            },
            Option::None => match_at(s@, i as int) is None,
        },
{
    let n = chars.len();
    if n < 2 || i > n - 2 {
        return None;
    }
    if !(chars[i] == '{' && chars[i + 1] == '{') {
        return None;
    }
    let mut j: usize = i + 2;
    while j < n && is_space_char_exec(chars[j])
        invariant
            chars@ == s@,
            n == s@.len(),
            i + 2 <= j <= n,
            skip_space(s@, (i + 2) as int) == skip_space(s@, j as int),
        decreases n - j,
    {
        j = j + 1;
    }
    assert(skip_space(s@, j as int) == j);
    let ks = j;
    let mut k: usize = ks;
    while k < n && is_key_char_exec(chars[k])
        invariant
            chars@ == s@,
            n == s@.len(),
            ks <= k <= n,
            skip_key_chars(s@, ks as int) == skip_key_chars(s@, k as int),
        decreases n - k,
    {
        k = k + 1;
    }
    assert(skip_key_chars(s@, k as int) == k);
    let ke = k;
    if ke == ks {
        return None;
    }
    let mut m: usize = ke;
    while m < n && is_space_char_exec(chars[m])
        invariant
            chars@ == s@,
            n == s@.len(),
            ke <= m <= n,
            skip_space(s@, ke as int) == skip_space(s@, m as int),
        decreases n - m,
    {
        m = m + 1;
    }
    assert(skip_space(s@, m as int) == m);
    let close = m;
    if close <= n - 2 && chars[close] == '}' && chars[close + 1] == '}' {
        Some((ks, ke, close + 2))
    } else {
        None
    }
}

// ---------------------------------------------------------------------------
// Content type of a stored response. A chained value with a JSON Path may
// only be extracted out of a response whose declared content type is
// JSON-compatible: its media type, ignoring parameters, surrounding
// whitespace, and ASCII case, is `application/json`.
// ---------------------------------------------------------------------------
/// Optional whitespace around a header value's media type.
pub open spec fn is_ows_char(c: char) -> bool {
    c == ' ' || c == '\t'
}

/// The first position at or after `i` that does not hold optional
/// whitespace.
pub open spec fn skip_ows(s: Seq<char>, i: int) -> int
    decreases s.len() - i,
    when 0 <= i <= s.len()
{
    if i < s.len() && is_ows_char(s[i]) {
        skip_ows(s, i + 1)
    } else {
        i
    }
}

/// The position before `i` up to which optional whitespace extends
/// backwards.
pub open spec fn ows_end(s: Seq<char>, i: int) -> int
    decreases i,
    when 0 <= i <= s.len()
{
    if i > 0 && is_ows_char(s[i - 1]) {
        ows_end(s, i - 1)
    } else {
        i
    }
}

proof fn lemma_skip_ows_bounds(s: Seq<char>, i: int)
    requires
        0 <= i <= s.len(),
    ensures
        i <= skip_ows(s, i) <= s.len(),
        skip_ows(s, i) < s.len() ==> !is_ows_char(s[skip_ows(s, i)]),
    decreases s.len() - i,
{
    if i < s.len() && is_ows_char(s[i]) {
        lemma_skip_ows_bounds(s, i + 1);
    }
}

proof fn lemma_ows_end_bounds(s: Seq<char>, i: int)
    requires
        0 <= i <= s.len(),
    ensures
        0 <= ows_end(s, i) <= i,
        forall|j: int| ows_end(s, i) <= j < i ==> is_ows_char(s[j]),
        ows_end(s, i) > 0 ==> !is_ows_char(s[ows_end(s, i) - 1]),
    decreases i,
{
    if i > 0 && is_ows_char(s[i - 1]) {
        lemma_ows_end_bounds(s, i - 1);
    }
}

/// The media type of a content-type header value: the part before any `;`
/// parameters, with surrounding optional whitespace removed.
pub open spec fn mime_essence(v: Seq<char>) -> Seq<char> {
    let t = match first_index_from(v, 0, ';') {
        Option::Some(d) => v.subrange(0, d),
        Option::None => v,
    };
    let lo = skip_ows(t, 0);
    if lo == t.len() {
        Seq::empty()
    } else {
        t.subrange(lo, ows_end(t, t.len() as int))
    }
}

/// The value of the first header named `content-type`, ignoring ASCII case.
pub open spec fn spec_content_type(headers: Seq<(Seq<char>, Seq<char>)>) -> Option<Seq<char>>
    decreases headers.len(),
{
    if headers.len() == 0 {
        Option::None
    } else if crate::strutil::seq_eq_ci(headers.first().0, "content-type"@) {
        Option::Some(headers.first().1)
    } else {
        spec_content_type(headers.drop_first())
    }
}

/// Whether the headers declare a JSON-compatible content type.
pub open spec fn spec_content_type_is_json(headers: Seq<(Seq<char>, Seq<char>)>) -> bool {
    match spec_content_type(headers) {
        Option::Some(v) => crate::strutil::seq_eq_ci(mime_essence(v), "application/json"@),
        Option::None => false,
    }
}

/// Find the value of the first `content-type` header.
fn find_content_type<'a>(headers: &'a Vec<(String, String)>) -> (r: Option<&'a String>)
    ensures
        ({
            let hv = headers@.map_values(|p: (String, String)| (p.0@, p.1@));
            match r {
                Option::Some(v) => spec_content_type(hv) == Option::Some(v@),
                Option::None => spec_content_type(hv) is None,
            }
        }),
{
    let ghost hv = headers@.map_values(|p: (String, String)| (p.0@, p.1@));
    let n = headers.len();
    let mut i: usize = 0;
    proof {
        assert(hv.skip(0) =~= hv);
    }
    while i < n
        invariant
            n == headers.len(),
            i <= n,
            hv == headers@.map_values(|p: (String, String)| (p.0@, p.1@)),
            spec_content_type(hv) == spec_content_type(hv.skip(i as int)),
        decreases n - i,
    {
        proof {
            assert(hv.skip(i as int).first() == hv[i as int]);
            assert(hv.skip(i as int).drop_first() =~= hv.skip(i + 1));
        }
        if crate::strutil::str_eq_ci(headers[i].0.as_str(), "content-type") {
            return Some(&headers[i].1);
        }
        i = i + 1;
    }
    proof {
        assert(hv.skip(n as int) =~= Seq::<(Seq<char>, Seq<char>)>::empty());
    }
    None
}

/// Whether a content-type header value names a JSON-compatible media type.
fn value_is_json(value: &str) -> (r: bool)
    ensures
        r == crate::strutil::seq_eq_ci(mime_essence(value@), "application/json"@),
{
    let chars = to_char_vec(value);
    let n = chars.len();
    let t_end: usize = match find_char(value, &chars, 0, ';') {
        Some(d) => d,
        None => n,
    };
    proof {
        lemma_first_index_from_bounds(value@, 0, ';');
    }
    let ghost t: Seq<char> = if t_end < n {
        value@.subrange(0, t_end as int)
    } else {
        value@
    };
    proof {
        assert(value@.subrange(0, n as int) =~= value@);
        assert(t =~= value@.subrange(0, t_end as int));
        assert(forall|j: int| 0 <= j < t_end ==> t[j] == value@[j]);
    }
    let mut lo: usize = 0;
    while lo < t_end && is_ows_char_exec(chars[lo])
        invariant
            chars@ == value@,
            t_end <= n == value@.len(),
            lo <= t_end,
            t == value@.subrange(0, t_end as int),
            skip_ows(t, 0) == skip_ows(t, lo as int),
        decreases t_end - lo,
    {
        lo = lo + 1;
    }
    assert(skip_ows(t, lo as int) == lo);
    if lo == t_end {
        proof {
            reveal_strlit("application/json");
            assert(mime_essence(value@) =~= Seq::<char>::empty());
        }
        return false;
    }
    let mut hi: usize = t_end;
    while hi > 0 && is_ows_char_exec(chars[hi - 1])
        invariant
            chars@ == value@,
            t_end <= n == value@.len(),
            hi <= t_end,
            t == value@.subrange(0, t_end as int),
            ows_end(t, t_end as int) == ows_end(t, hi as int),
        decreases hi,
    {
        hi = hi - 1;
    }
    assert(ows_end(t, hi as int) == hi);
    proof {
        lemma_ows_end_bounds(t, t_end as int);
        if hi <= lo {
            assert(is_ows_char(t[lo as int]));
        }
    }
    let essence = value.substring_char(lo, hi);
    proof {
        assert(essence@ =~= mime_essence(value@));
    }
    crate::strutil::str_eq_ci(essence, "application/json")
}

fn is_ows_char_exec(c: char) -> (r: bool)
    ensures
        r == is_ows_char(c),
{
    c == ' ' || c == '\t'
}

/// Whether a stored response declares a JSON-compatible content type; hands
/// back the declared content type on failure, for the error report.
fn content_type_check(headers: &Vec<(String, String)>) -> (r: Result<(), Option<String>>)
    ensures
        ({
            let hv = headers@.map_values(|p: (String, String)| (p.0@, p.1@));
            match r {
                Result::Ok(()) => spec_content_type_is_json(hv),
                Result::Err(found) => !spec_content_type_is_json(hv) && (match found {
                    Option::Some(f) => spec_content_type(hv) == Option::Some(f@),
                    Option::None => spec_content_type(hv) is None,
                }),
            }
        }),
{
    match find_content_type(headers) {
        Some(value) => {
            if value_is_json(value.as_str()) {
                Ok(())
            } else {
                Err(Some(value.clone()))
            }
        },
        None => Err(None),
    }
}

// ---------------------------------------------------------------------------
// Resolution: each key kind has exactly one resolution routine. A field is
// looked up in the overrides and then in the profile; an environment
// variable in the environment the context carries; a chained value in the
// most recent stored response of the chain's source recipe, narrowed by the
// chain's JSON Path if it has one.
// ---------------------------------------------------------------------------
/// The first chain in the list with the given id.
pub open spec fn spec_find_chain(chains: Seq<ChainView>, id: Seq<char>) -> Option<ChainView>
    decreases chains.len(),
{
    if chains.len() == 0 {
        Option::None
    } else if chains.first().id == id {
        Option::Some(chains.first())
    } else {
        spec_find_chain(chains.drop_first(), id)
    }
}

/// What resolving a chained value yields: the stored body of the most
/// recent successful attempt of the source recipe, narrowed to the single
/// node a JSON Path selects when the chain carries one.
pub open spec fn spec_resolve_chain(id: Seq<char>, ctx: ContextView) -> Result<
    Seq<char>,
    TemplateErrorView,
> {
    match spec_find_chain(ctx.chains, id) {
        Option::None => Result::Err(TemplateErrorView::ChainUnknown { chain_id: id }),
        Option::Some(chain) => match spec_get_last(ctx.repository, chain.source) {
            Option::None => Result::Err(TemplateErrorView::ChainNoResponse { chain_id: id }),
            Option::Some(record) => match record.outcome {
                Result::Err(_) => Result::Err(
                    TemplateErrorView::ChainNoResponse { chain_id: id },
                ),
                Result::Ok(response) => match chain.path {
                    Option::None => Result::Ok(response.content),
                    Option::Some(path) => if !json_path_ok(path) {
                        Result::Err(TemplateErrorView::ChainJsonPath { chain_id: id, path })
                    } else if !json_doc_ok(response.content) {
                        Result::Err(TemplateErrorView::ChainParseResponse { chain_id: id })
                    } else if !spec_content_type_is_json(response.headers) {
                        Result::Err(
                            TemplateErrorView::ChainIncorrectContentType {
                                chain_id: id,
                                content_type: spec_content_type(response.headers),
                            },
                        )
                    } else {
                        match json_selected(path, response.content) {
                            Option::None => Result::Err(
                                TemplateErrorView::ChainInvalidResult { chain_id: id },
                            ),
                            Option::Some(text) => Result::Ok(text),
                        }
                    },
                },
            },
        },
    }
}

/// What resolving a parsed key yields against a context.
pub open spec fn spec_resolve(key: TemplateKeyView, ctx: ContextView) -> Result<
    Seq<char>,
    TemplateErrorView,
> {
    match key {
        TemplateKeyView::Field(field) => if ctx.overrides.contains_key(field) {
            Result::Ok(ctx.overrides[field])
        } else if ctx.profile.contains_key(field) {
            Result::Ok(ctx.profile[field])
        } else {
            Result::Err(TemplateErrorView::FieldUnknown { field })
        },
        TemplateKeyView::Environment(variable) => if ctx.environment.contains_key(variable) {
            Result::Ok(ctx.environment[variable])
        } else {
            Result::Err(TemplateErrorView::EnvironmentVariable { variable })
        },
        TemplateKeyView::Chain(id) => spec_resolve_chain(id, ctx),
        TemplateKeyView::Invalid(key) => Result::Err(TemplateErrorView::InvalidKey { key }),
    }
}

/// What resolving the raw text of a placeholder key yields: parse, then
/// resolve per kind.
pub open spec fn spec_resolve_key(key: Seq<char>, ctx: ContextView) -> Result<
    Seq<char>,
    TemplateErrorView,
> {
    spec_resolve(spec_parse_key(key), ctx)
}

/// Find the first chain definition with the given id.
fn find_chain<'a>(chains: &'a Vec<Chain>, chain_id: &str) -> (r: Option<&'a Chain>)
    ensures
        ({
            let chains_v = chains@.map_values(|c: Chain| c@);
            match r {
                Option::Some(chain) => spec_find_chain(chains_v, chain_id@) == Option::Some(
                    chain@,
                ),
                Option::None => spec_find_chain(chains_v, chain_id@) is None,
            }
        }),
{
    let ghost chains_v = chains@.map_values(|c: Chain| c@);
    let n = chains.len();
    let mut i: usize = 0;
    proof {
        assert(chains_v.skip(0) =~= chains_v);
    }
    while i < n
        invariant
            n == chains.len(),
            i <= n,
            chains_v == chains@.map_values(|c: Chain| c@),
            spec_find_chain(chains_v, chain_id@) == spec_find_chain(
                chains_v.skip(i as int),
                chain_id@,
            ),
        decreases n - i,
    {
        proof {
            assert(chains_v.skip(i as int).first() == chains_v[i as int]);
            assert(chains_v.skip(i as int).drop_first() =~= chains_v.skip(i + 1));
        }
        if str_eq(chains[i].id.as_str(), chain_id) {
            return Some(&chains[i]);
        }
        i = i + 1;
    }
    proof {
        assert(chains_v.skip(n as int) =~= Seq::<ChainView>::empty());
    }
    None
}

/// Resolve a chained value out of the context's repository.
fn resolve_chain<'a>(chain_id: &'a str, context: &'a TemplateContext) -> (r: Result<
    String,
    TemplateError<&'a str>,
>)
    ensures
        match r {
            Result::Ok(value) => spec_resolve_chain(chain_id@, context@) == Result::Ok::<
                Seq<char>,
                TemplateErrorView,
            >(value@),
            Result::Err(e) => spec_resolve_chain(chain_id@, context@) == Result::Err::<
                Seq<char>,
                TemplateErrorView,
            >(e@),
        },
{
    let chain = match find_chain(&context.chains, chain_id) {
        Some(chain) => chain,
        None => {
            return Err(TemplateError::ChainUnknown { chain_id });
        },
    };
    let record = match context.repository.get_last(chain.source.as_str()) {
        Some(record) => record,
        None => {
            return Err(TemplateError::ChainNoResponse { chain_id });
        },
    };
    let response = match &record.outcome {
        Ok(response) => response,
        Err(_) => {
            return Err(TemplateError::ChainNoResponse { chain_id });
        },
    };
    match &chain.path {
        None => Ok(response.content.clone()),
        Some(path) => {
            let path_str: &'a str = path.as_str();
            let parsed = match parse_path(path_str) {
                Ok(parsed) => parsed,
                Err(error) => {
                    return Err(
                        TemplateError::ChainJsonPath { chain_id, path: path_str, error },
                    );
                },
            };
            let doc = match parse_document(response.content.as_str()) {
                Ok(doc) => doc,
                Err(error) => {
                    return Err(TemplateError::ChainParseResponse { chain_id, error });
                },
            };
            if let Err(content_type) = content_type_check(&response.headers) {
                return Err(TemplateError::ChainIncorrectContentType { chain_id, content_type });
            }
            let node = match query_exactly_one(&parsed, &doc) {
                Ok(node) => node,
                Err(error) => {
                    return Err(TemplateError::ChainInvalidResult { chain_id, error });
                },
            };
            Ok(node_to_text(&node))
        },
    }
}

/// Resolve a parsed key against the context: the single resolution routine
/// of each key kind, dispatched over the closed set of variants.
fn resolve_key<'a>(key: TemplateKey<'a>, context: &'a TemplateContext) -> (r: Result<
    String,
    TemplateError<&'a str>,
>)
    ensures
        match r {
            Result::Ok(value) => spec_resolve(key@, context@) == Result::Ok::<
                Seq<char>,
                TemplateErrorView,
            >(value@),
            Result::Err(e) => spec_resolve(key@, context@) == Result::Err::<
                Seq<char>,
                TemplateErrorView,
            >(e@),
        },
{
    match key {
        TemplateKey::Field(field) => match im_get(&context.overrides, field) {
            Some(value) => Ok(value.clone()),
            None => match im_get(&context.profile, field) {
                Some(value) => Ok(value.clone()),
                None => Err(TemplateError::FieldUnknown { field }),
            },
        },
        TemplateKey::Environment(variable) => match im_get(&context.environment, variable) {
            Some(value) => Ok(value.clone()),
            None => Err(TemplateError::EnvironmentVariable { variable }),
        },
        TemplateKey::Chain(chain_id) => resolve_chain(chain_id, context),
    }
}

// ---------------------------------------------------------------------------
// Rendering: scan for placeholder matches in strict left-to-right order,
// copy literal text verbatim, and splice each key's resolved value over its
// placeholder span. A key that occurs twice is re-resolved independently at
// each occurrence.
// ---------------------------------------------------------------------------
/// Prefix a successful render with already-rendered output.
pub open spec fn spec_prepend(prefix: Seq<char>, r: Result<Seq<char>, TemplateErrorView>) -> Result<
    Seq<char>,
    TemplateErrorView,
> {
    match r {
        Result::Ok(rest) => Result::Ok(prefix + rest),
        Result::Err(e) => Result::Err(e),
    }
}

/// What rendering the suffix of a template from position `i` yields.
pub open spec fn spec_render_from(s: Seq<char>, ctx: ContextView, i: int) -> Result<
    Seq<char>,
    TemplateErrorView,
>
    decreases s.len() - i,
    when 0 <= i <= s.len()
    via spec_render_from_decreases
{
    if i >= s.len() {
        Result::Ok(Seq::empty())
    } else {
        match match_at(s, i) {
            Option::Some(m) => {
                let key = s.subrange(m.0, m.1);
                match spec_resolve_key(key, ctx) {
                    Result::Ok(value) => spec_prepend(value, spec_render_from(s, ctx, m.2)),
                    Result::Err(e) => Result::Err(e),
                }
            },
            Option::None => spec_prepend(seq![s[i]], spec_render_from(s, ctx, i + 1)),
        }
    }
}

#[via_fn]
proof fn spec_render_from_decreases(s: Seq<char>, ctx: ContextView, i: int) {
    if i < s.len() {
        lemma_match_at_bounds(s, i);
    }
}

/// What rendering a whole template against a context yields.
pub open spec fn spec_render(s: Seq<char>, ctx: ContextView) -> Result<
    Seq<char>,
    TemplateErrorView,
> {
    spec_render_from(s, ctx, 0)
}

impl TemplateString {
    /// Render the template against the given context. On failure the
    /// borrowed error references the failing span of this template or of
    /// the context; it is meant for inline display within one synchronous
    /// scope.
    pub fn render_borrow<'a>(&'a self, context: &'a TemplateContext) -> (r: Result<
        String,
        TemplateError<&'a str>,
    >)
        ensures
            match r {
                Result::Ok(out) => spec_render(self@, context@) == Result::Ok::<
                    Seq<char>,
                    TemplateErrorView,
                >(out@),
                Result::Err(e) => spec_render(self@, context@) == Result::Err::<
                    Seq<char>,
                    TemplateErrorView,
                >(e@),
            },
    {
        let s: &'a str = self.0.as_str();
        let chars = to_char_vec(s);
        let n = chars.len();
        let mut out = String::new();
        let mut i: usize = 0;
        while i < n
            invariant
                chars@ == s@,
                s@ == self@,
                n == s@.len(),
                i <= n,
                spec_prepend(out@, spec_render_from(s@, context@, i as int)) == spec_render(
                    self@,
                    context@,
                ),
            decreases n - i,
        {
            match try_match(s, &chars, i) {
                Some(m) => {
                    let ghost prev_out = out@;
                    let key_text: &'a str = s.substring_char(m.0, m.1);
                    let key = match TemplateKey::parse(key_text) {
                        Ok(key) => key,
                        Err(e) => {
                            return Err(e);
                        },
                    };
                    let value = match resolve_key(key, context) {
                        Ok(value) => value,
                        Err(e) => {
                            return Err(e);
                        },
                    };
                    out.append(value.as_str());
                    proof {
                        assert(out@ =~= prev_out + value@);
                        assert(forall|rest: Seq<char>|
                            (prev_out + value@) + rest =~= prev_out + (value@ + rest));
                    }
                    i = m.2;
                },
                None => {
                    let ghost prev_out = out@;
                    out.push(chars[i]);
                    proof {
                        assert(out@ =~= prev_out + seq![s@[i as int]]);
                        assert(forall|rest: Seq<char>|
                            (prev_out + seq![s@[i as int]]) + rest =~= prev_out + (seq![
                                s@[i as int],
                            ] + rest));
                    }
                    i = i + 1;
                },
            }
        }
        proof {
            assert(out@ + Seq::<char>::empty() =~= out@);
        }
        Ok(out)
    }

    /// Render the template against the given context, with any failure
    /// copied into its owned form, safe to store or to move across an async
    /// boundary.
    pub fn render(&self, context: &TemplateContext) -> (r: Result<String, TemplateError<String>>)
        ensures
            match r {
                Result::Ok(out) => spec_render(self@, context@) == Result::Ok::<
                    Seq<char>,
                    TemplateErrorView,
                >(out@),
                Result::Err(e) => spec_render(self@, context@) == Result::Err::<
                    Seq<char>,
                    TemplateErrorView,
                >(e@),
            },
    {
        match self.render_borrow(context) {
            Ok(out) => Ok(out),
            Err(e) => Err(e.into_owned()),
        }
    }
}

proof fn lemma_render_literal_from(s: Seq<char>, ctx: ContextView, i: int)
    requires
        0 <= i <= s.len(),
        !has_placeholder(s),
    ensures
        spec_render_from(s, ctx, i) == Result::Ok::<Seq<char>, TemplateErrorView>(
            s.subrange(i, s.len() as int),
        ),
    decreases s.len() - i,
{
    if i >= s.len() {
        assert(s.subrange(i, s.len() as int) =~= Seq::<char>::empty());
    } else {
        assert(match_at(s, i) is None);
        lemma_render_literal_from(s, ctx, i + 1);
        assert(seq![s[i]] + s.subrange(i + 1, s.len() as int) =~= s.subrange(i, s.len() as int));
    }
}

/// Field precedence: a field key resolves to the override's value whenever
/// the overrides define it, to the profile's value when only the profile
/// defines it, and fails naming the field when neither does.
pub proof fn lemma_field_resolution(field: Seq<char>, ctx: ContextView)
    ensures
        ctx.overrides.contains_key(field) ==> spec_resolve(TemplateKeyView::Field(field), ctx)
            == Result::Ok::<Seq<char>, TemplateErrorView>(ctx.overrides[field]),
        !ctx.overrides.contains_key(field) && ctx.profile.contains_key(field) ==> spec_resolve(
            TemplateKeyView::Field(field),
            ctx,
        ) == Result::Ok::<Seq<char>, TemplateErrorView>(ctx.profile[field]),
        !ctx.overrides.contains_key(field) && !ctx.profile.contains_key(field) ==> spec_resolve(
            TemplateKeyView::Field(field),
            ctx,
        ) == Result::Err::<Seq<char>, TemplateErrorView>(
            TemplateErrorView::FieldUnknown { field },
        ),
{
}

/// Environment resolution: a variable the context's environment defines
/// resolves to its value, and one it does not define fails naming the
/// variable.
pub proof fn lemma_environment_resolution(variable: Seq<char>, ctx: ContextView)
    ensures
        ctx.environment.contains_key(variable) ==> spec_resolve(
            TemplateKeyView::Environment(variable),
            ctx,
        ) == Result::Ok::<Seq<char>, TemplateErrorView>(ctx.environment[variable]),
        !ctx.environment.contains_key(variable) ==> spec_resolve(
            TemplateKeyView::Environment(variable),
            ctx,
        ) == Result::Err::<Seq<char>, TemplateErrorView>(
            TemplateErrorView::EnvironmentVariable { variable },
        ),
{
}

/// Unknown chain: a chain id that matches no definition in the context's
/// chain list is always unresolvable, whatever the repository holds.
pub proof fn lemma_chain_unknown(id: Seq<char>, ctx: ContextView)
    requires
        spec_find_chain(ctx.chains, id) is None,
    ensures
        spec_resolve_chain(id, ctx) == Result::Err::<Seq<char>, TemplateErrorView>(
            TemplateErrorView::ChainUnknown { chain_id: id },
        ),
{
}

/// Chain without a usable response: a defined chain whose source recipe has
/// no stored attempt, or whose most recent attempt did not succeed, fails
/// naming the chain.
pub proof fn lemma_chain_no_response(id: Seq<char>, ctx: ContextView)
    requires
        spec_find_chain(ctx.chains, id) matches Option::Some(chain) && (spec_get_last(
            ctx.repository,
            chain.source,
        ) is None || spec_get_last(ctx.repository, chain.source)->0.outcome is Err),
    ensures
        spec_resolve_chain(id, ctx) == Result::Err::<Seq<char>, TemplateErrorView>(
            TemplateErrorView::ChainNoResponse { chain_id: id },
        ),
{
}

/// Idempotence of rendering: a template without a single placeholder match
/// renders to itself, against every context.
pub proof fn lemma_render_no_placeholder(s: Seq<char>, ctx: ContextView)
    requires
        !has_placeholder(s),
    ensures
        spec_render(s, ctx) == Result::Ok::<Seq<char>, TemplateErrorView>(s),
{
    lemma_render_literal_from(s, ctx, 0);
    assert(s.subrange(0, s.len() as int) =~= s);
}

} // verus!
