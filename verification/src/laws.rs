//! Laws relating the library's operations to one another.

use vstd::prelude::*;

use crate::model::{combined_log_format, pattern_text, placeholders, resolve_format};
use crate::pattern::{regex_accepts, regex_capture, regex_matches};

verus! {

/// Law: building a pattern from the alias `"combined"` and building one from
/// the predefined combined log format itself give behaviorally identical
/// patterns: the compiler accepts both or refuses both, and on success they
/// carry the same pattern text and the same capture names, and hence the
/// same match outcome and the same captured field on every line and name.
pub proof fn lemma_alias_equivalence(line: Seq<char>, name: Seq<char>)
    ensures
        resolve_format("combined"@) == combined_log_format(),
        regex_accepts(pattern_text(resolve_format("combined"@))) == regex_accepts(
            pattern_text(resolve_format(combined_log_format())),
        ),
        pattern_text(resolve_format("combined"@)) == pattern_text(
            resolve_format(combined_log_format()),
        ),
        placeholders(resolve_format("combined"@)) == placeholders(
            resolve_format(combined_log_format()),
        ),
        regex_matches(pattern_text(resolve_format("combined"@)), line) == regex_matches(
            pattern_text(resolve_format(combined_log_format())),
            line,
        ),
        regex_capture(pattern_text(resolve_format("combined"@)), line, name) == regex_capture(
            pattern_text(resolve_format(combined_log_format())),
            line,
            name,
        ),
{
    reveal_strlit("combined");
    reveal_strlit(
        "$remote_addr - $remote_user [$time_local] \"$request\" $status $body_bytes_sent \"$http_referer\" \"$http_user_agent\"",
    );
    assert(combined_log_format().len() != "combined"@.len());
}

} // verus!
