//! Mathematical model of the format-to-pattern translation: which characters
//! are placeholder characters, how literal text is escaped, how placeholders
//! become named capture groups, and which field names a format declares.

use vstd::prelude::*;

verus! {

/// Characters that may form a placeholder name: a `$` followed by a maximal
/// run of these is a placeholder.
pub open spec fn is_ident_char(c: char) -> bool {
    ('a' <= c && c <= 'z') || ('A' <= c && c <= 'Z') || ('0' <= c && c <= '9') || c == '_'
}

/// Metacharacters of the pattern grammar that must be escaped so the literal
/// parts of a format are matched verbatim.
pub open spec fn is_special_char(c: char) -> bool {
    ||| c == '.'
    ||| c == '*'
    ||| c == '+'
    ||| c == '?'
    ||| c == '|'
    ||| c == '('
    ||| c == ')'
    ||| c == '{'
    ||| c == '}'
    ||| c == '['
    ||| c == ']'
}

/// Length of the run of placeholder-name characters starting at `i`.
pub open spec fn run_len(s: Seq<char>, i: int) -> nat
    decreases s.len() - i when 0 <= i <= s.len()
{
    if i < s.len() && is_ident_char(s[i]) {
        (1 + run_len(s, i + 1)) as nat
    } else {
        0
    }
}

pub proof fn lemma_run_len_bound(s: Seq<char>, i: int)
    requires
        0 <= i <= s.len(),
    ensures
        i + run_len(s, i) <= s.len(),
    decreases s.len() - i,
{
    if i < s.len() && is_ident_char(s[i]) {
        lemma_run_len_bound(s, i + 1);
    }
}

/// The run starting at `start` has length `end - start` exactly when every
/// character before `end` is a name character and `end` is the first position
/// that is not (or the end of the text).
pub proof fn lemma_run_len_is(s: Seq<char>, start: int, end: int)
    requires
        0 <= start <= end <= s.len(),
        forall|k: int| start <= k < end ==> is_ident_char(s[k]),
        end == s.len() || !is_ident_char(s[end]),
    ensures
        run_len(s, start) == end - start,
    decreases end - start,
{
    if start < end {
        lemma_run_len_is(s, start + 1, end);
    }
}

/// The escaped form of the text from position `i` on: every grammar
/// metacharacter is prefixed with a backslash; everything else, the `$` sigil
/// included, is kept as it is.
pub open spec fn escape_from(s: Seq<char>, i: int) -> Seq<char>
    decreases s.len() - i when 0 <= i
{
    if i >= s.len() {
        seq![]
    } else if is_special_char(s[i]) {
        seq!['\\', s[i]] + escape_from(s, i + 1)
    } else {
        seq![s[i]] + escape_from(s, i + 1)
    }
}

/// The whole text, escaped.
pub open spec fn escape_text(s: Seq<char>) -> Seq<char> {
    escape_from(s, 0)
}

/// The named capture group that a placeholder named `name` turns into: it
/// matches anything, greedily, and is retrievable under `name`.
pub open spec fn capture_group(name: Seq<char>) -> Seq<char> {
    seq!['(', '?', 'P', '<'] + name + seq!['>', '.', '*', ')']
}

/// The text from position `i` on with every placeholder (a `$` followed by at
/// least one name character) replaced by its capture group; a `$` not
/// followed by a name character is escaped so the pattern grammar matches it
/// as a literal `$` rather than reading it as an anchor.
pub open spec fn substitute_from(s: Seq<char>, i: int) -> Seq<char>
    decreases s.len() - i when 0 <= i <= s.len() via substitute_from_decreases
{
    if i >= s.len() {
        seq![]
    } else if s[i] == '$' && i + 1 < s.len() && is_ident_char(s[i + 1]) {
        let k = run_len(s, i + 1);
        capture_group(s.subrange(i + 1, i + 1 + k)) + substitute_from(s, i + 1 + k)
    } else if s[i] == '$' {
        seq!['\\', '$'] + substitute_from(s, i + 1)
    } else {
        seq![s[i]] + substitute_from(s, i + 1)
    }
}

#[via_fn]
proof fn substitute_from_decreases(s: Seq<char>, i: int) {
    if 0 <= i < s.len() {
        lemma_run_len_bound(s, i + 1);
    }
}

/// The whole text with placeholders substituted.
pub open spec fn substitute_text(s: Seq<char>) -> Seq<char> {
    substitute_from(s, 0)
}

/// The ordered list of placeholder names of the text from position `i` on.
pub open spec fn placeholders_from(s: Seq<char>, i: int) -> Seq<Seq<char>>
    decreases s.len() - i when 0 <= i <= s.len() via placeholders_from_decreases
{
    if i >= s.len() {
        seq![]
    } else if s[i] == '$' && i + 1 < s.len() && is_ident_char(s[i + 1]) {
        let k = run_len(s, i + 1);
        seq![s.subrange(i + 1, i + 1 + k)] + placeholders_from(s, i + 1 + k)
    } else {
        placeholders_from(s, i + 1)
    }
}

#[via_fn]
proof fn placeholders_from_decreases(s: Seq<char>, i: int) {
    if 0 <= i < s.len() {
        lemma_run_len_bound(s, i + 1);
    }
}

/// The ordered list of placeholder names of a format, first to last.
pub open spec fn placeholders(s: Seq<char>) -> Seq<Seq<char>> {
    placeholders_from(s, 0)
}

/// The predefined combined access-log format that the alias `"combined"`
/// stands for.
pub open spec fn combined_log_format() -> Seq<char> {
    "$remote_addr - $remote_user [$time_local] \"$request\" $status $body_bytes_sent \"$http_referer\" \"$http_user_agent\""@
}

/// Alias resolution: the exact token `"combined"` stands for the predefined
/// combined format; any other text is taken as it is.
pub open spec fn resolve_format(s: Seq<char>) -> Seq<char> {
    if s == "combined"@ {
        combined_log_format()
    } else {
        s
    }
}

/// The full translation of a resolved format: escape the literal text first,
/// then substitute the placeholders, and anchor the result at both ends so
/// the pattern matches whole lines only, never a line that merely contains
/// the literal text.
pub open spec fn pattern_text(s: Seq<char>) -> Seq<char> {
    seq!['^'] + substitute_text(escape_text(s)) + seq!['$']
}

/// Every character of the run starting at `i` is a name character, and the
/// run is maximal: the position right after it is the end of the text or
/// holds a character of another kind.
pub proof fn lemma_run_len_chars(s: Seq<char>, i: int)
    requires
        0 <= i <= s.len(),
    ensures
        i + run_len(s, i) <= s.len(),
        forall|m: int| i <= m < i + run_len(s, i) ==> is_ident_char(s[m]),
        i + run_len(s, i) == s.len() || !is_ident_char(s[i + run_len(s, i)]),
    decreases s.len() - i,
{
    if i < s.len() && is_ident_char(s[i]) {
        lemma_run_len_chars(s, i + 1);
    }
}

/// The placeholders found from a position past `a` in `a + b` are the
/// placeholders found from the corresponding position of `b`: a placeholder
/// never spans backwards over the boundary.
pub proof fn lemma_placeholders_shift(a: Seq<char>, b: Seq<char>, j: int)
    requires
        a.len() <= j <= a.len() + b.len(),
    ensures
        placeholders_from(a + b, j) == placeholders_from(b, j - a.len()),
    decreases a.len() + b.len() - j,
{
    let c = a + b;
    let jb = j - a.len();
    if j >= c.len() {
        assert(placeholders_from(c, j) =~= placeholders_from(b, jb));
    } else if c[j] == '$' && j + 1 < c.len() && is_ident_char(c[j + 1]) {
        let k: int = run_len(c, j + 1) as int;
        lemma_run_len_chars(c, j + 1);
        assert forall|m: int| jb + 1 <= m < jb + 1 + k implies is_ident_char(b[m]) by {
            assert(c[m + a.len()] == b[m]);
        }
        if jb + 1 + k < b.len() {
            assert(c[j + 1 + k] == b[jb + 1 + k]);
        }
        lemma_run_len_is(b, jb + 1, jb + 1 + k);
        assert(c.subrange(j + 1, j + 1 + k) =~= b.subrange(jb + 1, jb + 1 + k));
        lemma_placeholders_shift(a, b, j + 1 + k);
        assert(placeholders_from(c, j) =~~= placeholders_from(b, jb));
    } else {
        lemma_placeholders_shift(a, b, j + 1);
        assert(placeholders_from(c, j) =~~= placeholders_from(b, jb));
    }
}

/// Escaping copies a run of name characters verbatim.
pub proof fn lemma_escape_ident_run(s: Seq<char>, i: int, j: int)
    requires
        0 <= i <= j <= s.len(),
        forall|m: int| i <= m < j ==> is_ident_char(s[m]),
    ensures
        escape_from(s, i) == s.subrange(i, j) + escape_from(s, j),
    decreases j - i,
{
    if i < j {
        assert(!is_special_char(s[i]));
        lemma_escape_ident_run(s, i + 1, j);
        assert(escape_from(s, i) =~= s.subrange(i, j) + escape_from(s, j));
    } else {
        assert(escape_from(s, i) =~= s.subrange(i, j) + escape_from(s, j));
    }
}

/// Escaping the text from `i` on neither creates nor destroys nor renames a
/// placeholder: the `$` sigil is never escaped, a backslash is never a name
/// character, and name characters are copied verbatim.
pub proof fn lemma_escape_preserves_placeholders_from(s: Seq<char>, i: int)
    requires
        0 <= i <= s.len(),
    ensures
        placeholders(escape_from(s, i)) == placeholders_from(s, i),
    decreases s.len() - i,
{
    if i >= s.len() {
        assert(placeholders(escape_from(s, i)) =~~= placeholders_from(s, i));
    } else if s[i] == '$' && i + 1 < s.len() && is_ident_char(s[i + 1]) {
        let k: int = run_len(s, i + 1) as int;
        lemma_run_len_chars(s, i + 1);
        lemma_escape_ident_run(s, i + 1, i + 1 + k);
        let pre = seq![s[i]] + s.subrange(i + 1, i + 1 + k);
        let rest = escape_from(s, i + 1 + k);
        let x = escape_from(s, i);
        assert(x =~= pre + rest);
        assert(x[0] == '$');
        // The run of the escaped text at position 1 is the run of the format:
        // what follows it is the end, a backslash, or the non-name character
        // that ended the run in the format.
        assert(forall|m: int| 1 <= m < 1 + k ==> is_ident_char(x[m]));
        if i + 1 + k < s.len() {
            if is_special_char(s[i + 1 + k]) {
                assert(x[1 + k] == '\\');
            } else {
                assert(x[1 + k] == s[i + 1 + k]);
            }
            assert(!is_ident_char(x[1 + k]));
        } else {
            assert(x.len() == 1 + k);
        }
        lemma_run_len_is(x, 1, 1 + k);
        assert(x.subrange(1, 1 + k) =~= s.subrange(i + 1, i + 1 + k));
        lemma_placeholders_shift(pre, rest, 1 + k);
        lemma_escape_preserves_placeholders_from(s, i + 1 + k);
        assert(placeholders(rest) == placeholders_from(rest, 0));
        assert(placeholders(x) =~~= placeholders_from(s, i));
    } else {
        let pre = if is_special_char(s[i]) {
            seq!['\\', s[i]]
        } else {
            seq![s[i]]
        };
        let rest = escape_from(s, i + 1);
        let x = escape_from(s, i);
        assert(x =~= pre + rest);
        lemma_escape_preserves_placeholders_from(s, i + 1);
        lemma_placeholders_shift(pre, rest, pre.len() as int);
        // No placeholder starts inside `pre`: a backslash is not a sigil, an
        // escaped metacharacter is not a sigil, and a lone `$` is not
        // followed by a name character.
        if is_special_char(s[i]) {
            assert(placeholders_from(x, 0) == placeholders_from(x, 1));
            assert(placeholders_from(x, 1) == placeholders_from(x, 2));
        } else {
            if x.len() > 1 && x[0] == '$' && is_ident_char(x[1]) {
                // The next character of the escaped text comes from position
                // i + 1 of the format (or is a backslash), so the format had
                // a placeholder here after all: contradiction.
                if i + 1 < s.len() {
                    if is_special_char(s[i + 1]) {
                        assert(x[1] == '\\');
                    } else {
                        assert(x[1] == s[i + 1]);
                    }
                }
                assert(false);
            }
            assert(placeholders_from(x, 0) == placeholders_from(x, 1));
        }
        assert(placeholders(x) =~~= placeholders_from(s, i));
    }
}

/// Escaping the literal text of a format neither creates nor destroys nor
/// renames a placeholder.
pub proof fn lemma_escape_preserves_placeholders(s: Seq<char>)
    ensures
        placeholders(escape_text(s)) == placeholders(s),
{
    lemma_escape_preserves_placeholders_from(s, 0);
}

/// The display-layer renaming of a field: three placeholder names carry
/// another name in the external schema; every other name passes through
/// unchanged. This never affects a pattern's capture names.
pub open spec fn rename_field(n: Seq<char>) -> Seq<char> {
    if n == "status"@ {
        "status_type"@
    } else if n == "body_bytes_sent"@ {
        "bytes_sent"@
    } else if n == "request"@ {
        "request_path"@
    } else {
        n
    }
}

/// The display listing of a format's fields: each placeholder name renamed
/// through the schema table, joined with `", "`, in source order.
pub open spec fn variables_listing(names: Seq<Seq<char>>) -> Seq<char>
    decreases names.len(),
{
    if names.len() == 0 {
        seq![]
    } else if names.len() == 1 {
        rename_field(names[0])
    } else {
        variables_listing(names.drop_last()) + ", "@ + rename_field(names.last())
    }
}

/// Two placeholders somewhere in the list carry the same name.
pub open spec fn has_duplicate(names: Seq<Seq<char>>) -> bool {
    exists|i: int, j: int| 0 <= i < j < names.len() && names[i] == names[j]
}

/// The views of a list of character vectors.
pub open spec fn views_of(names: Seq<Vec<char>>) -> Seq<Seq<char>> {
    names.map_values(|n: Vec<char>| n@)
}

/// The views of a list of strings.
pub open spec fn string_views_of(names: Seq<String>) -> Seq<Seq<char>> {
    names.map_values(|n: String| n@)
}

} // verus!
