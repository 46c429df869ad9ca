//! The compiled pattern: a format string translated into a matching pattern
//! with one named capture per placeholder, compiled by the `regex` crate.

use vstd::prelude::*;
use vstd::string::StringExecFns;

use crate::chars::{chars_to_string, str_to_chars};
use crate::model::{
    escape_text, has_duplicate, lemma_escape_preserves_placeholders, pattern_text, placeholders,
    resolve_format, string_views_of, views_of,
};
use crate::translate::{escape_chars, extract_names, find_duplicate, resolve_chars,
    substitute_chars};

verus! {

#[verifier::external_type_specification]
#[verifier::external_body]
pub struct ExRegex(regex::Regex);

/// Whether the pattern compiled from `pattern` finds a match in `line`.
/// The matcher is deterministic, so this is a function of the two texts.
pub uninterp spec fn regex_matches(pattern: Seq<char>, line: Seq<char>) -> bool;

/// The substring of `line` that the capture group called `name` of the
/// pattern compiled from `pattern` takes on the first match in `line`, if
/// the pattern matches and that group participates in the match.
pub uninterp spec fn regex_capture(pattern: Seq<char>, line: Seq<char>, name: Seq<char>) -> Option<
    Seq<char>,
>;

/// Whether the pattern compiler accepts `pattern` as a valid pattern. The
/// compiler is deterministic, so this is a function of the pattern text
/// alone.
pub uninterp spec fn regex_accepts(pattern: Seq<char>) -> bool;

/// The message the pattern compiler renders when it refuses `pattern`; a
/// function of the pattern text alone, for the same reason.
pub uninterp spec fn regex_error_of(pattern: Seq<char>) -> Seq<char>;

/// The one failure the builder can surface: the substituted format text is
/// not a valid pattern, a duplicate capture-group name among the causes. The
/// payload is the compiler's message.
#[derive(Debug)]
pub enum PatternError {
    Grammar(String),
}

impl PatternError {
    /// The underlying compilation error message.
    pub closed spec fn spec_message(&self) -> Seq<char> {
        match self {
            PatternError::Grammar(m) => m@,
        }
    }

    /// The underlying compilation error message.
    pub fn message(&self) -> (r: &str)
        ensures
            r@ == self.spec_message(),
    {
        match self {
            PatternError::Grammar(m) => m.as_str(),
        }
    }
}

/// Relies on `regex::Regex::new`: it compiles the pattern text, accepting or
/// refusing it as a deterministic function of that text alone, and renders a
/// refusal through the error's `Display` impl.
#[verifier::external_body]
fn compile_regex(pattern: &str) -> (r: Result<regex::Regex, String>)
    ensures
        r is Ok <==> regex_accepts(pattern@),
        r matches Err(m) ==> m@ == regex_error_of(pattern@),
{
    regex::Regex::new(pattern).map_err(|e| e.to_string())
}

/// The message `format_to_pattern` rejects a format with: its own message
/// for duplicate placeholder names, found before compilation; the compiler's
/// message for any other refusal of the translated text.
pub open spec fn rejection_message(format: Seq<char>) -> Seq<char> {
    if has_duplicate(placeholders(resolve_format(format))) {
        "duplicate placeholder name in log format"@
    } else {
        regex_error_of(pattern_text(resolve_format(format)))
    }
}

/// A format string turned into a compiled matching pattern, holding one
/// named capture per placeholder, in source order.
///
/// The `regex` field is always the pattern compiled from `source`, and
/// `names` are always the placeholder names of the format behind `source`:
/// the only constructor, `format_to_pattern`, establishes both.
pub struct CompiledPattern {
    regex: regex::Regex,
    source: String,
    names: Vec<String>,
}

impl CompiledPattern {
    /// The pattern text this pattern was compiled from.
    pub closed spec fn text(&self) -> Seq<char> {
        self.source@
    }

    /// The capture names of this pattern, in source order.
    pub closed spec fn field_names(&self) -> Seq<Seq<char>> {
        string_views_of(self.names@)
    }

    /// The pattern text this pattern was compiled from.
    pub fn source(&self) -> (r: &str)
        ensures
            r@ == self.text(),
    {
        self.source.as_str()
    }

    /// The capture names of this pattern, in source order.
    pub fn capture_names(&self) -> (r: &Vec<String>)
        ensures
            string_views_of(r@) == self.field_names(),
    {
        &self.names
    }

    /// Relies on `regex::Regex::is_match`: whether the pattern finds a match
    /// anywhere in the line. The regex held here is the one compiled from
    /// `self.text()`, so the outcome is a function of that text and the line.
    #[verifier::external_body]
    pub fn is_match(&self, line: &str) -> (r: bool)
        ensures
            r == regex_matches(self.text(), line@),
    {
        self.regex.is_match(line)
    }

    /// Relies on `regex::Regex::captures`, `regex::Captures::name` and
    /// `regex::Match::as_str`: the substring the named capture group takes on
    /// the first match of the pattern in the line, if any. The regex held
    /// here is the one compiled from `self.text()`, so the outcome is a
    /// function of the pattern text, the line and the name.
    #[verifier::external_body]
    pub fn capture(&self, line: &str, name: &str) -> (r: Option<String>)
        ensures
            r is Some <==> regex_capture(self.text(), line@, name@) is Some,
            r matches Some(s) ==> regex_capture(self.text(), line@, name@) == Some(s@),
    {
        match self.regex.captures(line) {
            Some(caps) => match caps.name(name) {
                Some(m) => Some(m.as_str().to_string()),
                None => None,
            },
            None => None,
        }
    }
}

/// Translates a format string (or the alias `"combined"`) into a compiled
/// pattern: grammar metacharacters of the literal text are escaped first,
/// then every placeholder becomes a named capture group, and the result is
/// anchored at both ends. A format whose placeholder names are not pairwise
/// distinct is rejected, as is one whose translation the pattern compiler
/// refuses; every other format is accepted.
pub fn format_to_pattern(format: &str) -> (r: Result<CompiledPattern, PatternError>)
    ensures
        r is Ok <==> (!has_duplicate(placeholders(resolve_format(format@))) && regex_accepts(
            pattern_text(resolve_format(format@)),
        )),
        r matches Ok(p) ==> p.text() == pattern_text(resolve_format(format@)),
        r matches Ok(p) ==> p.field_names() == placeholders(resolve_format(format@)),
        r matches Ok(p) ==> p.field_names() == placeholders(escape_text(resolve_format(format@))),
        r matches Err(e) ==> e.spec_message() == rejection_message(format@),
{
    proof {
        lemma_escape_preserves_placeholders(resolve_format(format@));
    }
    let chars = str_to_chars(format);
    let resolved = resolve_chars(chars);
    let name_vecs = extract_names(&resolved);
    if find_duplicate(&name_vecs) {
        return Err(
            PatternError::Grammar(String::from_str("duplicate placeholder name in log format")),
        );
    }
    let escaped = escape_chars(&resolved);
    let mut substituted = substitute_chars(&escaped);
    let mut full: Vec<char> = Vec::new();
    full.push('^');
    full.append(&mut substituted);
    full.push('$');
    assert(full@ =~= pattern_text(resolve_format(format@)));
    let source = chars_to_string(&full);
    let mut names: Vec<String> = Vec::new();
    let mut i: usize = 0;
    assert(string_views_of(names@) =~= views_of(name_vecs@).take(0));
    while i < name_vecs.len()
        invariant
            i <= name_vecs@.len(),
            string_views_of(names@) == views_of(name_vecs@).take(i as int),
        decreases name_vecs@.len() - i,
    {
        let name = chars_to_string(&name_vecs[i]);
        let ghost prev = names@;
        names.push(name);
        proof {
            assert(names@ == prev.push(name));
            assert(string_views_of(prev).len() == prev.len());
            assert(prev.len() == i);
            assert forall|k: int| 0 <= k < i + 1 implies string_views_of(names@)[k] == views_of(
                name_vecs@,
            ).take(i as int + 1)[k] by {
                if k < i {
                    assert(string_views_of(prev)[k] == views_of(name_vecs@).take(i as int)[k]);
                } else {
                    assert(names@[k] == name);
                    assert(views_of(name_vecs@)[k] == name_vecs@[k]@);
                }
            }
            assert(string_views_of(names@) =~= views_of(name_vecs@).take(i as int + 1));
        }
        i = i + 1;
    }
    assert(string_views_of(names@) =~= views_of(name_vecs@));
    match compile_regex(source.as_str()) {
        Ok(re) => Ok(CompiledPattern { regex: re, source, names }),
        Err(msg) => Err(PatternError::Grammar(msg)),
    }
}

} // verus!
