use nginx_log_pattern::{available_variables, format_to_pattern, PatternError};

const COMBINED_FORMAT: &str = "$remote_addr - $remote_user [$time_local] \"$request\" $status $body_bytes_sent \"$http_referer\" \"$http_user_agent\"";

const SAMPLE_LINE: &str =
    "172.17.0.1 - - [06/Jun/2020:23:16:43 +0000] \"GET / HTTP/1.1\" 403 153 \"-\" \"curl/7.54.0\"";

#[test]
fn combined_matches() {
    let line = SAMPLE_LINE;
    let pattern = format_to_pattern(COMBINED_FORMAT).unwrap();
    assert!(pattern.is_match(line));
}

#[test]
fn alias_builds_the_combined_pattern() {
    let by_alias = format_to_pattern("combined").unwrap();
    let by_format = format_to_pattern(COMBINED_FORMAT).unwrap();
    assert_eq!(by_alias.source(), by_format.source());
    assert_eq!(by_alias.capture_names(), by_format.capture_names());
    assert_eq!(by_alias.is_match(SAMPLE_LINE), by_format.is_match(SAMPLE_LINE));
    assert!(by_alias.is_match(SAMPLE_LINE));
    assert_eq!(
        by_alias.capture(SAMPLE_LINE, "status"),
        by_format.capture(SAMPLE_LINE, "status")
    );
}

#[test]
fn combined_field_extraction() {
    let pattern = format_to_pattern("combined").unwrap();
    assert_eq!(pattern.capture(SAMPLE_LINE, "status").as_deref(), Some("403"));
    assert_eq!(pattern.capture(SAMPLE_LINE, "body_bytes_sent").as_deref(), Some("153"));
    assert_eq!(pattern.capture(SAMPLE_LINE, "request").as_deref(), Some("GET / HTTP/1.1"));
    assert_eq!(pattern.capture(SAMPLE_LINE, "remote_addr").as_deref(), Some("172.17.0.1"));
}

#[test]
fn literal_dot_is_escaped_before_substitution() {
    let pattern = format_to_pattern("a.b$field").unwrap();
    assert!(pattern.is_match("a.bXYZ"));
    assert_eq!(pattern.capture("a.bXYZ", "field").as_deref(), Some("XYZ"));
    assert!(!pattern.is_match("aXb XYZ"));
    assert_eq!(pattern.capture("aXb XYZ", "field"), None);
}

#[test]
fn placeholder_order_is_source_order() {
    let pattern = format_to_pattern("$a-$b-$c").unwrap();
    assert_eq!(pattern.capture_names(), &["a", "b", "c"]);
    assert_eq!(pattern.source(), "^(?P<a>.*)-(?P<b>.*)-(?P<c>.*)$");
}

#[test]
fn rename_mapping_in_source_order() {
    let listing = available_variables("$status $body_bytes_sent $request $remote_addr").unwrap();
    assert_eq!(listing, "status_type, bytes_sent, request_path, remote_addr");
}

#[test]
fn available_variables_of_combined() {
    let listing = available_variables("combined").unwrap();
    assert_eq!(
        listing,
        "remote_addr, remote_user, time_local, request_path, status_type, bytes_sent, http_referer, http_user_agent"
    );
}

#[test]
fn plain_text_format_builds_and_matches_itself() {
    let pattern = format_to_pattern("plain text").unwrap();
    assert!(pattern.capture_names().is_empty());
    assert!(pattern.is_match("plain text"));
    assert!(!pattern.is_match("plain-text"));
    assert!(!pattern.is_match("plain"));
    assert!(!pattern.is_match("Xplain textY"));
    assert!(!pattern.is_match("plain text "));
    assert_eq!(pattern.capture("plain text", "field"), None);
}

#[test]
fn duplicate_placeholder_is_a_grammar_error() {
    let result = format_to_pattern("$a $a");
    assert!(result.is_err());
    match result {
        Err(PatternError::Grammar(message)) => assert!(!message.is_empty()),
        Ok(_) => panic!("a duplicate capture name must not compile"),
    }
}

#[test]
fn duplicate_placeholder_fails_the_listing_too() {
    assert!(available_variables("$a $a").is_err());
}

#[test]
fn invalid_pattern_text_is_a_grammar_error() {
    // A capture-group name may not start with a digit, so the compiler
    // refuses the translated text; its error is passed through.
    let result = format_to_pattern("$9field");
    assert!(result.is_err());
    match result {
        Err(PatternError::Grammar(message)) => assert!(!message.is_empty()),
        Ok(_) => panic!("a group name starting with a digit must not compile"),
    }
}

#[test]
fn metacharacters_are_escaped_in_the_pattern() {
    let pattern = format_to_pattern("[(a+b)]$x").unwrap();
    assert_eq!(pattern.source(), "^\\[\\(a\\+b\\)\\](?P<x>.*)$");
    assert_eq!(pattern.capture_names(), &["x"]);
}

#[test]
fn dollar_without_name_is_literal() {
    let pattern = format_to_pattern("a$ b").unwrap();
    assert!(pattern.capture_names().is_empty());
    assert_eq!(pattern.source(), "^a\\$ b$");
    assert!(pattern.is_match("a$ b"));
    assert!(!pattern.is_match("a b"));
    assert!(!pattern.is_match("xa$ bx"));
}

#[test]
fn empty_format_builds_an_empty_pattern() {
    let pattern = format_to_pattern("").unwrap();
    assert_eq!(pattern.source(), "^$");
    assert!(pattern.capture_names().is_empty());
    assert!(pattern.is_match(""));
    assert!(!pattern.is_match("x"));
    assert_eq!(available_variables("").unwrap(), "");
}

#[test]
fn error_message_is_reachable() {
    let result = format_to_pattern("$dup $dup");
    let error = result.err().unwrap();
    assert!(!error.message().is_empty());
}
