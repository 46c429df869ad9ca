//! The translation passes, verified against the model: escaping the literal
//! text, substituting placeholders with named capture groups, extracting the
//! ordered placeholder names, and detecting duplicate names.

use vstd::prelude::*;

use crate::model::{
    capture_group, combined_log_format, escape_from, escape_text, has_duplicate, is_ident_char,
    is_special_char, lemma_run_len_is, placeholders, placeholders_from, resolve_format, run_len,
    substitute_from, substitute_text, views_of,
};

verus! {

/// The predefined combined access-log format that the alias `"combined"`
/// stands for.
pub fn combined_log_format_str() -> (r: &'static str)
    ensures
        r@ == combined_log_format(),
{
    "$remote_addr - $remote_user [$time_local] \"$request\" $status $body_bytes_sent \"$http_referer\" \"$http_user_agent\""
}

/// Resolves the one built-in alias: the exact token `"combined"` stands for
/// the predefined combined format; any other text is taken as it is.
pub fn resolve_chars(v: Vec<char>) -> (r: Vec<char>)
    ensures
        r@ == resolve_format(v@),
{
    let combined = crate::chars::str_to_chars("combined");
    if crate::chars::chars_eq(&v, &combined) {
        crate::chars::str_to_chars(combined_log_format_str())
    } else {
        v
    }
}

/// Whether `c` may stand in a placeholder name.
pub fn is_ident(c: char) -> (r: bool)
    ensures
        r == is_ident_char(c),
{
    ('a' <= c && c <= 'z') || ('A' <= c && c <= 'Z') || ('0' <= c && c <= '9') || c == '_'
}

/// Whether `c` is a metacharacter of the pattern grammar.
pub fn is_special(c: char) -> (r: bool)
    ensures
        r == is_special_char(c),
{
    c == '.' || c == '*' || c == '+' || c == '?' || c == '|' || c == '(' || c == ')' || c == '{'
        || c == '}' || c == '[' || c == ']'
}

/// Escapes every grammar metacharacter of the text with a backslash, leaving
/// everything else, the `$` sigil included, untouched.
pub fn escape_chars(v: &Vec<char>) -> (out: Vec<char>)
    ensures
        out@ == escape_text(v@),
{
    let n = v.len();
    let mut out: Vec<char> = Vec::new();
    let mut i: usize = 0;
    assert(escape_text(v@) =~= out@ + escape_from(v@, 0));
    while i < n
        invariant
            i <= n,
            n == v@.len(),
            escape_text(v@) == out@ + escape_from(v@, i as int),
        decreases n - i,
    {
        let ghost prev = out@;
        let c = v[i];
        if is_special(c) {
            out.push('\\');
            out.push(c);
            assert(out@ =~= prev + seq!['\\', c]);
        } else {
            out.push(c);
            assert(out@ =~= prev + seq![c]);
        }
        proof {
            assert(escape_text(v@) =~= out@ + escape_from(v@, i as int + 1));
        }
        i = i + 1;
    }
    assert(escape_text(v@) =~= out@);
    out
}

/// The first position at or after `start` that does not hold a
/// placeholder-name character; equivalently, `start` plus the run length.
pub fn scan_ident_run(v: &Vec<char>, start: usize) -> (end: usize)
    requires
        start <= v@.len(),
    ensures
        start <= end <= v@.len(),
        end - start == run_len(v@, start as int),
        forall|k: int| start <= k < end ==> is_ident_char(v@[k]),
        end == v@.len() || !is_ident_char(v@[end as int]),
{
    let n = v.len();
    let mut j = start;
    while j < n && is_ident(v[j])
        invariant
            start <= j <= n,
            n == v@.len(),
            forall|k: int| start <= k < j ==> is_ident_char(v@[k]),
        decreases n - j,
    {
        j = j + 1;
    }
    proof {
        lemma_run_len_is(v@, start as int, j as int);
    }
    j
}

/// The characters of `v` from `from` (inclusive) to `to` (exclusive).
pub fn copy_range(v: &Vec<char>, from: usize, to: usize) -> (out: Vec<char>)
    requires
        from <= to <= v@.len(),
    ensures
        out@ == v@.subrange(from as int, to as int),
{
    let mut out: Vec<char> = Vec::new();
    let mut k = from;
    while k < to
        invariant
            from <= k <= to <= v@.len(),
            out@ == v@.subrange(from as int, k as int),
        decreases to - k,
    {
        out.push(v[k]);
        assert(out@ =~= v@.subrange(from as int, k as int + 1));
        k = k + 1;
    }
    out
}

/// Replaces every placeholder of the text with its named capture group; a `$`
/// not followed by a name character is escaped so it is matched literally.
pub fn substitute_chars(v: &Vec<char>) -> (out: Vec<char>)
    ensures
        out@ == substitute_text(v@),
{
    let n = v.len();
    let mut out: Vec<char> = Vec::new();
    let mut i: usize = 0;
    assert(substitute_text(v@) =~= out@ + substitute_from(v@, 0));
    while i < n
        invariant
            i <= n,
            n == v@.len(),
            substitute_text(v@) == out@ + substitute_from(v@, i as int),
        decreases n - i,
    {
        let ghost prev = out@;
        if v[i] == '$' && i + 1 < n && is_ident(v[i + 1]) {
            let j = scan_ident_run(v, i + 1);
            let ghost name = v@.subrange(i as int + 1, j as int);
            out.push('(');
            out.push('?');
            out.push('P');
            out.push('<');
            let mut k = i + 1;
            while k < j
                invariant
                    i + 1 <= k <= j <= n,
                    n == v@.len(),
                    out@ == prev + seq!['(', '?', 'P', '<'] + v@.subrange(
                        i as int + 1,
                        k as int,
                    ),
                decreases j - k,
            {
                out.push(v[k]);
                assert(out@ =~= prev + seq!['(', '?', 'P', '<'] + v@.subrange(
                    i as int + 1,
                    k as int + 1,
                ));
                k = k + 1;
            }
            out.push('>');
            out.push('.');
            out.push('*');
            out.push(')');
            proof {
                assert(out@ =~= prev + capture_group(name));
                assert(substitute_from(v@, i as int) == capture_group(name) + substitute_from(
                    v@,
                    j as int,
                ));
                assert(substitute_text(v@) =~= out@ + substitute_from(v@, j as int));
            }
            i = j;
        } else {
            let c = v[i];
            if c == '$' {
                out.push('\\');
                out.push('$');
                assert(out@ =~= prev + seq!['\\', '$']);
            } else {
                out.push(c);
                assert(out@ =~= prev + seq![c]);
            }
            proof {
                assert(substitute_text(v@) =~= out@ + substitute_from(v@, i as int + 1));
            }
            i = i + 1;
        }
    }
    assert(substitute_text(v@) =~= out@);
    out
}

/// The placeholder names of the text, first to last.
pub fn extract_names(v: &Vec<char>) -> (out: Vec<Vec<char>>)
    ensures
        views_of(out@) == placeholders(v@),
{
    let n = v.len();
    let mut out: Vec<Vec<char>> = Vec::new();
    let mut i: usize = 0;
    assert(placeholders(v@) =~= views_of(out@) + placeholders_from(v@, 0));
    while i < n
        invariant
            i <= n,
            n == v@.len(),
            placeholders(v@) == views_of(out@) + placeholders_from(v@, i as int),
        decreases n - i,
    {
        let ghost prev = out@;
        if v[i] == '$' && i + 1 < n && is_ident(v[i + 1]) {
            let j = scan_ident_run(v, i + 1);
            let name = copy_range(v, i + 1, j);
            out.push(name);
            proof {
                assert(views_of(out@) =~= views_of(prev) + seq![name@]);
                assert(placeholders(v@) =~= views_of(out@) + placeholders_from(v@, j as int));
            }
            i = j;
        } else {
            proof {
                assert(placeholders(v@) =~= views_of(out@) + placeholders_from(v@, i as int + 1));
            }
            i = i + 1;
        }
    }
    assert(placeholders(v@) =~= views_of(out@));
    out
}

/// Whether two placeholders of the list carry the same name.
pub fn find_duplicate(names: &Vec<Vec<char>>) -> (r: bool)
    ensures
        r == has_duplicate(views_of(names@)),
{
    let n = names.len();
    let mut j: usize = 1;
    while j < n
        invariant
            1 <= j <= n || n == 0,
            n == names@.len(),
            forall|x: int, y: int|
                0 <= x < y < j ==> views_of(names@)[x] != views_of(names@)[y],
        decreases n - j,
    {
        let mut x: usize = 0;
        while x < j
            invariant
                0 <= x <= j < n,
                n == names@.len(),
                forall|k: int| 0 <= k < x ==> views_of(names@)[k] != views_of(names@)[j as int],
            decreases j - x,
        {
            if crate::chars::chars_eq(&names[x], &names[j]) {
                assert(views_of(names@)[x as int] == views_of(names@)[j as int]);
                assert(has_duplicate(views_of(names@)));
                return true;
            }
            x = x + 1;
        }
        j = j + 1;
    }
    assert(!has_duplicate(views_of(names@)));
    false
}

} // verus!
