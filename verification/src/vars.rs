//! The variable lister: the ordered, comma-joined listing of the field names
//! a consumer of a log format can expect to extract.

use vstd::prelude::*;
use vstd::string::StringExecFns;

use crate::model::{
    has_duplicate, pattern_text, placeholders, rename_field, resolve_format, string_views_of,
    variables_listing,
};
use crate::pattern::{format_to_pattern, regex_accepts, rejection_message, PatternError};

verus! {

/// Lists the fields the given format (or the alias `"combined"`) declares:
/// the capture names of its compiled pattern, each renamed through the schema
/// table, joined with `", "`, in source order. It succeeds exactly when the
/// pattern builder succeeds, and a format the builder rejects is rejected
/// here with the builder's own error, unchanged.
pub fn available_variables(format: &str) -> (r: Result<String, PatternError>)
    ensures
        r is Ok <==> (!has_duplicate(placeholders(resolve_format(format@))) && regex_accepts(
            pattern_text(resolve_format(format@)),
        )),
        r matches Ok(s) ==> s@ == variables_listing(placeholders(resolve_format(format@))),
        r matches Err(e) ==> e.spec_message() == rejection_message(format@),
{
    let pattern = match format_to_pattern(format) {
        Ok(p) => p,
        Err(e) => { return Err(e); },
    };
    let names = pattern.capture_names();
    let status = String::from_str("status");
    let body_bytes_sent = String::from_str("body_bytes_sent");
    let request = String::from_str("request");
    let ghost all = pattern.field_names();
    let mut out = String::new();
    let mut i: usize = 0;
    assert(out@ =~= variables_listing(all.take(0)));
    while i < names.len()
        invariant
            i <= names@.len(),
            string_views_of(names@) == all,
            all.len() == names@.len(),
            out@ == variables_listing(all.take(i as int)),
            status@ == "status"@,
            body_bytes_sent@ == "body_bytes_sent"@,
            request@ == "request"@,
        decreases names@.len() - i,
    {
        let n = &names[i];
        proof {
            assert(all[i as int] == names@[i as int]@);
        }
        let renamed: &str = if *n == status {
            "status_type"
        } else if *n == body_bytes_sent {
            "bytes_sent"
        } else if *n == request {
            "request_path"
        } else {
            n.as_str()
        };
        proof {
            assert(renamed@ == rename_field(all[i as int]));
        }
        if i > 0 {
            out.append(", ");
        }
        out.append(renamed);
        proof {
            if i == 0 {
                assert(all.take(1)[0] == all[0]);
                assert(variables_listing(all.take(1)) == rename_field(all.take(1)[0]));
                assert(out@ =~= variables_listing(all.take(1)));
            } else {
                assert(all.take(i as int + 1).drop_last() =~= all.take(i as int));
                assert(all.take(i as int + 1).last() == all[i as int]);
                assert(variables_listing(all.take(i as int + 1)) == variables_listing(
                    all.take(i as int),
                ) + ", "@ + rename_field(all[i as int]));
                assert(out@ =~= variables_listing(all.take(i as int + 1)));
            }
        }
        i = i + 1;
    }
    assert(all.take(all.len() as int) =~= all);
    Ok(out)
}

} // verus!
