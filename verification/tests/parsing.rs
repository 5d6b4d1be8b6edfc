use mdpre::CallParseError;
use mdpre::MarkdownPart;
use mdpre::Value;

fn seg(text: &str) -> Vec<MarkdownPart> {
    mdpre::segment(text, "doc.md").expect("segmenting failed")
}

#[test]
fn plain_text_round_trips_unchanged() {
    let parts = seg("Hello, world! No calls here.");
    assert_eq!(parts.len(), 1);
    assert!(mdpre::all_text_parts(&parts));
    let out = mdpre::rebuild(parts);
    assert_eq!(out, "Hello, world! No calls here.");
}

#[test]
fn single_brace_is_not_a_delimiter() {
    let parts = seg("{");
    assert_eq!(parts.len(), 1);
    match &parts[0] {
        MarkdownPart::Text { content, source } => {
            assert_eq!(content, "{");
            assert_eq!(source, "doc.md");
        },
        _ => panic!("expected a text node"),
    }
}

#[test]
fn lone_open_pair_transitions_once() {
    let parts = seg("{{");
    assert_eq!(parts.len(), 2);
    assert!(matches!(&parts[0], MarkdownPart::Text { content, .. } if content.is_empty()));
    assert!(matches!(&parts[1], MarkdownPart::Text { content, .. } if content.is_empty()));
}

#[test]
fn braces_inside_text_round_trip() {
    let parts = seg("a { b } c {x} d");
    assert!(mdpre::all_text_parts(&parts));
    assert_eq!(mdpre::rebuild(parts), "a { b } c {x} d");
}

#[test]
fn well_formed_call_parses_name_and_arguments() {
    let (name, args) = mdpre::parse_call("f(#a#, \"b\", 3)").expect("call should parse");
    assert_eq!(name, "f");
    assert_eq!(args.len(), 3);
    assert!(matches!(&args[0], Value::Path(p) if p == "a"));
    assert!(matches!(&args[1], Value::String(s) if s == "b"));
    assert!(matches!(&args[2], Value::Number(3)));
}

#[test]
fn call_site_inside_text_segments() {
    let parts = seg("before {{f(1)}} after");
    assert_eq!(parts.len(), 3);
    assert!(matches!(&parts[0], MarkdownPart::Text { content, .. } if content == "before "));
    match &parts[1] {
        MarkdownPart::Call { function, arguments, source } => {
            assert_eq!(function, "f");
            assert_eq!(arguments.len(), 1);
            assert!(matches!(&arguments[0], Value::Number(1)));
            assert_eq!(source, "doc.md");
        },
        _ => panic!("expected a call node"),
    }
    assert!(matches!(&parts[2], MarkdownPart::Text { content, .. } if content == " after"));
}

#[test]
fn leading_whitespace_before_name_is_skipped() {
    let (name, args) = mdpre::parse_call("  f(1)").expect("call should parse");
    assert_eq!(name, "f");
    assert_eq!(args.len(), 1);
}

#[test]
fn empty_argument_list_is_accepted() {
    let (name, args) = mdpre::parse_call("nope()").expect("call should parse");
    assert_eq!(name, "nope");
    assert!(args.is_empty());
}

#[test]
fn whitespace_only_argument_is_empty_argument() {
    assert_eq!(mdpre::parse_arg("   "), Err(CallParseError::EmptyArgument));
    assert_eq!(mdpre::parse_call("f( )"), Err(CallParseError::EmptyArgument));
    assert_eq!(mdpre::parse_call("f(1, )"), Err(CallParseError::EmptyArgument));
}

#[test]
fn unclosed_literals_are_rejected() {
    assert_eq!(mdpre::parse_arg("#abc"), Err(CallParseError::UnclosedLiteral));
    assert_eq!(mdpre::parse_arg("\"abc"), Err(CallParseError::UnclosedLiteral));
    assert_eq!(mdpre::parse_arg("#"), Err(CallParseError::UnclosedLiteral));
    // a buffer that starts a path literal but ends outside one
    assert_eq!(mdpre::parse_call("f( #a# x)"), Err(CallParseError::UnclosedLiteral));
    // an unclosed literal swallows `)`, so the call itself never closes
    assert_eq!(mdpre::parse_call("f(#abc)"), Ok(("f".to_string(), vec![])));
}

#[test]
fn bare_non_numeric_argument_fails_integer_parse() {
    assert_eq!(mdpre::parse_arg("xyz"), Err(CallParseError::ParseIntError));
    assert_eq!(mdpre::parse_call("f(xyz)"), Err(CallParseError::ParseIntError));
}

#[test]
fn invalid_symbol_before_parenthesis_is_rejected() {
    assert_eq!(mdpre::parse_call("a-b(1)"), Err(CallParseError::InvalidSymbol('-')));
}

#[test]
fn body_without_parenthesis_yields_empty_name() {
    let (name, args) = mdpre::parse_call("noparen").expect("should not error");
    assert_eq!(name, "");
    assert!(args.is_empty());
}

#[test]
fn literal_delimiters_shield_commas() {
    let (_, args) = mdpre::parse_call("f(\"a,b\", #c,d#)").expect("call should parse");
    assert!(matches!(&args[0], Value::String(s) if s == "a,b"));
    assert!(matches!(&args[1], Value::Path(p) if p == "c,d"));
}

#[test]
fn integer_arguments_cover_signs_and_bounds() {
    assert!(matches!(mdpre::parse_arg("42"), Ok(Value::Number(42))));
    assert!(matches!(mdpre::parse_arg("-7"), Ok(Value::Number(-7))));
    assert!(matches!(mdpre::parse_arg("+5"), Ok(Value::Number(5))));
    assert!(matches!(mdpre::parse_arg(" 13 "), Ok(Value::Number(13))));
    assert!(
        matches!(mdpre::parse_arg("9223372036854775807"), Ok(Value::Number(i64::MAX)))
    );
    assert!(
        matches!(mdpre::parse_arg("-9223372036854775808"), Ok(Value::Number(i64::MIN)))
    );
    assert_eq!(mdpre::parse_arg("9223372036854775808"), Err(CallParseError::ParseIntError));
    assert_eq!(mdpre::parse_arg("--4"), Err(CallParseError::ParseIntError));
    assert_eq!(mdpre::parse_arg("-"), Err(CallParseError::ParseIntError));
}

#[test]
fn parse_i64_handles_plain_tokens() {
    assert_eq!(mdpre::parse_i64("0"), Some(0));
    assert_eq!(mdpre::parse_i64("007"), Some(7));
    assert_eq!(mdpre::parse_i64(""), None);
    assert_eq!(mdpre::parse_i64("1 2"), None);
}

#[test]
fn trim_strips_both_ends() {
    assert_eq!(mdpre::trim("  x y\t"), "x y");
    assert_eq!(mdpre::trim(""), "");
    assert_eq!(mdpre::trim(" \t "), "");
}

#[test]
fn path_helpers_resolve_directories() {
    assert_eq!(mdpre::path_parent("docs/x.md"), "docs");
    assert_eq!(mdpre::path_parent("x.md"), "");
    assert_eq!(mdpre::path_parent("a/b/c.md"), "a/b");
    assert_eq!(mdpre::path_join("docs", "y.md"), "docs/y.md");
    assert_eq!(mdpre::path_join("", "y.md"), "y.md");
    assert_eq!(mdpre::path_join("docs/", "y.md"), "docs/y.md");
    assert_eq!(mdpre::path_join("docs", "/abs.md"), "/abs.md");
}

#[test]
fn capability_name_is_spelled_as_expected() {
    let expected = format!("{}{}", "incl", "ude");
    assert_eq!(mdpre::capability_name(), expected);
}

#[test]
fn unicode_text_round_trips() {
    let parts = seg("héllo ∀x {{f(\"λ\")}}");
    match &parts[1] {
        MarkdownPart::Call { arguments, .. } => {
            assert!(matches!(&arguments[0], Value::String(s) if s == "λ"));
        },
        _ => panic!("expected a call node"),
    }
}
