use cache_diff::annotation::{known_attributes, parse_block, Annotation, Key, Scope, Token, TokenKind};
use cache_diff::container::{RecordDecl, TypeDescriptor};
use cache_diff::diagnostic::{Diagnostic, ErrorKind};
use cache_diff::field::{DeclaredType, FieldDescriptor, FormatRef, PathSegment, RawField};
use cache_diff::lookup::attribute_lookup;
use proc_macro2::{TokenStream, TokenTree};

/// Splits annotation text into tokens the way the compiler hands them over, numbering spans
/// from `first_span`.
fn tokens_from(src: &str, first_span: usize) -> Vec<Token> {
    let stream: TokenStream = src.parse().unwrap();
    let mut out = Vec::new();
    let mut span = first_span;
    for tree in stream {
        let token = match tree {
            TokenTree::Ident(i) => Token { kind: TokenKind::Ident, text: i.to_string(), span },
            TokenTree::Punct(p) => Token {
                kind: TokenKind::Punct(p.as_char()),
                text: p.as_char().to_string(),
                span,
            },
            TokenTree::Literal(l) => {
                let text = l.to_string();
                match syn::parse_str::<syn::LitStr>(&text) {
                    Ok(lit) => Token { kind: TokenKind::Str, text: lit.value(), span },
                    Err(_) => Token { kind: TokenKind::Other, text, span },
                }
            }
            TokenTree::Group(g) => Token { kind: TokenKind::Other, text: g.to_string(), span },
        };
        out.push(token);
        span += 1;
    }
    out
}

fn tokens(src: &str) -> Vec<Token> {
    tokens_from(src, 0)
}

fn path_type(segments: &[&str]) -> DeclaredType {
    DeclaredType::Path(
        segments
            .iter()
            .map(|s| PathSegment { ident: s.to_string(), has_arguments: false })
            .collect(),
    )
}

fn field_with(name: &str, ty: DeclaredType, attrs: &[&str]) -> RawField {
    RawField {
        name: name.to_string(),
        span: 1000,
        ty,
        attrs: attrs.iter().enumerate().map(|(i, a)| tokens_from(a, 100 * (i + 1))).collect(),
    }
}

fn string_field(name: &str, attrs: &[&str]) -> RawField {
    field_with(name, path_type(&["String"]), attrs)
}

fn record(name: &str, attrs: &[&str], fields: Vec<RawField>) -> RecordDecl {
    RecordDecl {
        name: name.to_string(),
        span: 2000,
        attrs: attrs.iter().map(|a| tokens_from(a, 3000)).collect(),
        named: true,
        fields,
    }
}

fn active(r: Result<FieldDescriptor, Vec<Diagnostic>>) -> (String, FormatRef, String) {
    match r {
        Ok(FieldDescriptor::Active(a)) => (a.label, a.format, a.ident),
        Ok(FieldDescriptor::IgnoredCustom) => panic!("ignored as custom"),
        Ok(FieldDescriptor::IgnoredOther) => panic!("ignored"),
        Err(e) => panic!("{}", e[0].message),
    }
}

fn function_name(f: &FormatRef) -> String {
    match f {
        FormatRef::Identity => "::std::convert::identity".to_string(),
        FormatRef::PathDisplay => "::std::path::Path::display".to_string(),
        FormatRef::Function(p) => p.clone(),
    }
}

fn first_message(r: &Result<TypeDescriptor, Vec<Diagnostic>>) -> String {
    match r {
        Ok(_) => panic!("Expected an error"),
        Err(e) => e[0].message.clone(),
    }
}

fn messages(e: &[Diagnostic]) -> Vec<String> {
    e.iter().map(|d| d.message.clone()).collect()
}

fn kinds(e: &[Diagnostic]) -> Vec<ErrorKind> {
    e.iter().map(|d| d.kind).collect()
}

fn field_error(r: Result<FieldDescriptor, Vec<Diagnostic>>) -> Vec<Diagnostic> {
    match r {
        Ok(_) => panic!("Expected an error"),
        Err(e) => e,
    }
}

fn annotation_value(a: &Annotation) -> Option<String> {
    a.value.clone()
}

// Record resolution

#[test]
fn test_custom_all_ignored() {
    let input = record("Metadata", &[], vec![string_field("version", &["ignore"])]);
    let result = TypeDescriptor::from_ast(&input);
    assert!(result.is_err(), "Expected an error");
    assert_eq!(
        first_message(&result),
        r#"No fields to compare for CacheDiff, ensure struct has at least one named field that isn't `cache_diff(ignore)`-d"#
    );
}

#[test]
fn cache_diff_container_test_no_fields() {
    let input = record("Metadata", &[], vec![]);
    let result = TypeDescriptor::from_ast(&input);
    assert!(result.is_err(), "Expected an error");
    assert_eq!(
        first_message(&result),
        r#"No fields to compare for CacheDiff, ensure struct has at least one named field that isn't `cache_diff(ignore)`-d"#
    );
}

#[test]
fn test_custom_missing_on_container() {
    let input = record("Metadata", &[], vec![string_field("version", &[r#"ignore = "custom""#])]);
    let result = TypeDescriptor::from_ast(&input);
    assert!(result.is_err(), "Expected an error");
    assert_eq!(
        first_message(&result),
        r#"field `version` on Metadata marked ignored as custom, but no `#[cache_diff(custom = <function>)]` found on `Metadata`"#
    );
}

#[test]
fn test_custom_on_container() {
    let input = record("Metadata", &["custom = my_function"], vec![string_field("version", &[])]);
    let container = TypeDescriptor::from_ast(&input).unwrap();
    assert!(container.custom.is_some());
}

#[test]
fn test_no_custom_on_container() {
    let input = record("Metadata", &[], vec![string_field("version", &[])]);
    let container = TypeDescriptor::from_ast(&input).unwrap();
    assert!(container.custom.is_none());
}

// Field resolution

#[test]
fn test_parse_all_rename() {
    let input = string_field("version", &[r#"rename="Ruby version""#]);
    let (label, format, ident) = active(FieldDescriptor::from_field(&input, 0));
    assert_eq!(
        ("Ruby version".to_string(), "::std::convert::identity".to_string(), "version".to_string()),
        (label, function_name(&format), ident)
    );
}

#[test]
fn test_parse_all_display() {
    let input = string_field("version", &["display = my_function"]);
    let (label, format, ident) = active(FieldDescriptor::from_field(&input, 0));
    assert_eq!(
        ("version".to_string(), "my_function".to_string(), "version".to_string()),
        (label, function_name(&format), ident)
    );
}

#[test]
fn test_ignore_with_value() {
    let input = string_field("version", &[r#"ignore = "value""#]);
    assert!(matches!(FieldDescriptor::from_field(&input, 0), Ok(FieldDescriptor::IgnoredOther)));
}

#[test]
fn test_parse_all_ignore_no_value() {
    let input = string_field("version", &["ignore"]);
    assert!(matches!(FieldDescriptor::from_field(&input, 0), Ok(FieldDescriptor::IgnoredOther)));
}

#[test]
fn test_parse_all_ignore_custom() {
    let input = string_field("version", &[r#"ignore = "custom""#]);
    assert!(matches!(FieldDescriptor::from_field(&input, 0), Ok(FieldDescriptor::IgnoredCustom)));
}

#[test]
fn test_parse_accidental_custom() {
    let input = string_field("version", &[r#"custom = "IDK""#]);
    let result = FieldDescriptor::from_field(&input, 0);
    assert!(result.is_err(), "Expected an error");
    let e = field_error(result);
    assert_eq!(
        e[0].message.trim(),
        "Unknown cache_diff attribute: `custom`. Must be one of `rename`, `display`, `ignore`\nThe cache_diff attribute `custom` is available on the struct, not the field"
    );
}

#[test]
fn test_parse_all_unknown() {
    let input = string_field("version", &[r#"unknown = "IDK""#]);
    let result = FieldDescriptor::from_field(&input, 0);
    assert!(result.is_err(), "Expected an error");
    assert_eq!(
        field_error(result)[0].message,
        r#"Unknown cache_diff attribute: `unknown`. Must be one of `rename`, `display`, `ignore`"#
    );
}

#[test]
fn test_ignored_other_attributes() {
    let input = string_field("version", &[r#"ignore = "reasons", display = my_function"#]);
    let result = FieldDescriptor::from_field(&input, 0);
    assert!(result.is_err(), "Expected an error");
    assert_eq!(
        field_error(result)[0].message,
        r#"The cache_diff attribute `ignore` renders other attributes useless, remove additional attributes"#
    );

    let input = string_field("version", &[r#"display = my_function, ignore = "reasons""#]);
    let result = FieldDescriptor::from_field(&input, 0);
    assert!(result.is_err(), "Expected an error");
    assert_eq!(
        field_error(result)[0].message,
        r#"The cache_diff attribute `ignore` renders other attributes useless, remove additional attributes"#
    );
}

// Record annotations

#[test]
fn parse_container_test_known_attributes() {
    assert_eq!(Some(Key::Custom), Key::from_name(&"custom".to_string()));
    assert_eq!(known_attributes(Scope::Container), "`custom`");
}

#[test]
fn test_parse_attribute() {
    let parsed = parse_block(&tokens("custom = my_function"), Scope::Container).unwrap();
    assert!(matches!(parsed[0].key, Key::Custom));

    let result = parse_block(&tokens("unknown"), Scope::Container);
    assert!(result.is_err(), "Expected an error");
    assert_eq!(
        r"Unknown cache_diff attribute: `unknown`. Must be one of `custom`",
        result.err().unwrap().message,
    );
}

#[test]
fn test_custom_parse_attribute() {
    let attrs = vec![tokens("custom = my_function")];
    let found = attribute_lookup(&attrs, Scope::Container).unwrap();
    assert!(matches!(found.iter().find(|a| a.key == Key::Custom), Some(Annotation { key: Key::Custom, value: Some(_), .. })));
}

#[test]
fn test_parses() {
    let container =
        TypeDescriptor::from_ast(&record("Metadata", &[], vec![string_field("version", &[])]))
            .unwrap();
    assert_eq!(1, container.fields.len());

    let container = TypeDescriptor::from_ast(&record(
        "Metadata",
        &[],
        vec![string_field("version", &[]), string_field("checksum", &[])],
    ))
    .unwrap();
    assert_eq!(2, container.fields.len());
}

#[test]
fn parse_container_test_no_fields() {
    let result = TypeDescriptor::from_ast(&record("Metadata", &[], vec![]));
    assert!(result.is_err(), "Expected an error");
    assert_eq!(
        first_message(&result),
        r#"No fields to compare for CacheDiff, ensure struct has at least one named field that isn't `cache_diff(ignore)`-d"#
    );
}

#[test]
fn test_all_ignored() {
    let result =
        TypeDescriptor::from_ast(&record("Metadata", &[], vec![string_field("version", &["ignore"])]));
    assert!(result.is_err(), "Expected an error");
    assert_eq!(
        first_message(&result),
        r#"No fields to compare for CacheDiff, ensure struct has at least one named field that isn't `cache_diff(ignore)`-d"#
    );
}

// Field annotations

#[test]
fn lol() {
    let attrs = vec![tokens(r#"rename="Ruby version", rename = "oops""#)];
    let result = attribute_lookup(&attrs, Scope::Field);
    assert!(result.is_err(), "Expected an error");
    assert_eq!(
        "CacheDiff duplicate attribute: `rename`".to_string(),
        result.err().unwrap()[0].message
    );
}

#[test]
fn parse_field_test_known_attributes() {
    assert_eq!(Some(Key::Rename), Key::from_name(&"rename".to_string()));
    assert_eq!(Some(Key::Ignore), Key::from_name(&"ignore".to_string()));
    assert_eq!(Some(Key::Display), Key::from_name(&"display".to_string()));

    let result = parse_block(&tokens("unknown"), Scope::Field);
    assert!(result.is_err(), "Expected an error");
    assert_eq!(
        result.err().unwrap().message,
        r#"Unknown cache_diff attribute: `unknown`. Must be one of `rename`, `display`, `ignore`"#
    );
}

#[test]
fn test_parse_rename_attribute() {
    let parsed = parse_block(&tokens(r#"rename="Ruby version""#), Scope::Field).unwrap();
    assert_eq!(parsed.len(), 1);
    assert_eq!(parsed[0].key, Key::Rename);
    assert_eq!(annotation_value(&parsed[0]), Some("Ruby version".to_string()));
}

#[test]
fn test_parse_rename_ignore_attribute() {
    let attrs = vec![tokens(r#"rename="Ruby version", ignore"#)];
    let lookup = attribute_lookup(&attrs, Scope::Field).unwrap();
    let rename = lookup.iter().find(|a| a.key == Key::Rename).unwrap();
    assert_eq!(annotation_value(rename), Some("Ruby version".to_string()));
    let ignore = lookup.iter().find(|a| a.key == Key::Ignore).unwrap();
    assert_eq!(annotation_value(ignore), None);
}

#[test]
fn test_requires_named_struct() {
    let mut input = record("Metadata", &[], vec![]);
    input.named = false;
    let result = TypeDescriptor::from_ast(&input);
    assert!(result.is_err(), "Expected an error");
    assert_eq!(first_message(&result), r#"CacheDiff can only be used on structs with named fields"#);
}

#[test]
fn test_parse_field_rename_ignore_attribute() {
    let input = string_field("name", &[r#"rename="Ruby version", ignore"#]);
    let lookup = attribute_lookup(&input.attrs, Scope::Field).unwrap();
    let rename = lookup.iter().find(|a| a.key == Key::Rename).unwrap();
    assert_eq!(Some("Ruby version".to_string()), annotation_value(rename));
    assert!(lookup.iter().any(|a| a.key == Key::Ignore));
    let e = field_error(FieldDescriptor::from_field(&input, 0));
    assert_eq!(kinds(&e), vec![ErrorKind::ConflictingAttributes]);
}

// Further cases

#[test]
fn path_buffer_defaults_to_path_display() {
    let input = field_with("path", path_type(&["std", "path", "PathBuf"]), &[]);
    let (label, format, _) = active(FieldDescriptor::from_field(&input, 0));
    assert_eq!(label, "path");
    assert_eq!(function_name(&format), "::std::path::Path::display");

    let generic = field_with(
        "path",
        DeclaredType::Path(vec![PathSegment { ident: "PathBuf".to_string(), has_arguments: true }]),
        &[],
    );
    let (_, format, _) = active(FieldDescriptor::from_field(&generic, 0));
    assert_eq!(function_name(&format), "::std::convert::identity");

    let displayed = field_with("path", path_type(&["PathBuf"]), &["display = show"]);
    let (_, format, _) = active(FieldDescriptor::from_field(&displayed, 0));
    assert_eq!(function_name(&format), "show");
}

#[test]
fn underscores_become_spaces() {
    let input = string_field("ruby_version__x", &[]);
    let (label, _, ident) = active(FieldDescriptor::from_field(&input, 3));
    assert_eq!(label, "ruby version  x");
    assert_eq!(ident, "ruby_version__x");
}

#[test]
fn duplicate_reports_both_spans() {
    let attrs = vec![tokens(r#"rename = "a", ignore, rename = "b""#)];
    let e = attribute_lookup(&attrs, Scope::Field).err().unwrap();
    assert_eq!(
        messages(&e),
        vec!["CacheDiff duplicate attribute: `rename`", "previously `rename` defined here"]
    );
    assert_eq!(kinds(&e), vec![ErrorKind::DuplicateAttribute, ErrorKind::DuplicateAttribute]);
    assert_eq!(e[0].span, 6);
    assert_eq!(e[1].span, 0);
}

#[test]
fn duplicate_across_blocks() {
    let input = record(
        "Metadata",
        &["custom = one", "custom = two"],
        vec![string_field("version", &[])],
    );
    let e = TypeDescriptor::from_ast(&input).err().unwrap();
    assert_eq!(kinds(&e), vec![ErrorKind::DuplicateAttribute, ErrorKind::DuplicateAttribute]);
}

#[test]
fn errors_are_rolled_up() {
    let input = record(
        "Metadata",
        &[],
        vec![
            string_field("a", &[r#"ignore, rename = "x""#]),
            string_field("b", &[r#"ignore = "custom""#]),
            string_field("c", &["bogus"]),
        ],
    );
    let e = TypeDescriptor::from_ast(&input).err().unwrap();
    assert_eq!(
        kinds(&e),
        vec![
            ErrorKind::ConflictingAttributes,
            ErrorKind::MissingCustomHook,
            ErrorKind::UnknownAttributeKey,
            ErrorKind::NoComparableFields,
        ]
    );
    assert_eq!(e[0].span, 1000);
    assert_eq!(e[1].span, 2000);
}

#[test]
fn custom_hook_satisfies_delegated_field() {
    let fields = || vec![string_field("b", &[r#"ignore = "custom""#]), string_field("c", &[])];
    let without = TypeDescriptor::from_ast(&record("Metadata", &[], fields()));
    assert_eq!(kinds(&without.err().unwrap()), vec![ErrorKind::MissingCustomHook]);
    let with = TypeDescriptor::from_ast(&record("Metadata", &["custom = f"], fields())).unwrap();
    assert_eq!(with.custom, Some("f".to_string()));
    assert_eq!(with.fields.len(), 1);
    assert_eq!(with.fields[0].index, 1);
}

#[test]
fn unsupported_shape_stands_alone() {
    let mut input = record("Metadata", &["bogus"], vec![]);
    input.named = false;
    let e = TypeDescriptor::from_ast(&input).err().unwrap();
    assert_eq!(kinds(&e), vec![ErrorKind::UnsupportedShape]);
}

#[test]
fn grammar_accepts_paths_and_trailing_comma() {
    let parsed = parse_block(&tokens("custom = ::my_crate::diff::custom,"), Scope::Container).unwrap();
    assert_eq!(parsed.len(), 1);
    assert_eq!(annotation_value(&parsed[0]), Some("::my_crate::diff::custom".to_string()));
    assert_eq!(parse_block(&tokens(""), Scope::Field).unwrap().len(), 0);
}

#[test]
fn grammar_syntax_errors() {
    let e = parse_block(&tokens("rename"), Scope::Field).err().unwrap();
    assert_eq!((e.kind, e.message.as_str(), e.span), (ErrorKind::Syntax, "expected `=`", 0));
    let e = parse_block(&tokens("rename = ident"), Scope::Field).err().unwrap();
    assert_eq!((e.message.as_str(), e.span), ("expected string literal", 2));
    let e = parse_block(&tokens(r#"ignore "x""#), Scope::Field).err().unwrap();
    assert_eq!((e.message.as_str(), e.span), ("expected `,`", 1));
    let e = parse_block(&tokens("display = a::"), Scope::Field).err().unwrap();
    assert_eq!(e.message, "expected identifier");
    let e = parse_block(&tokens(r#""x""#), Scope::Field).err().unwrap();
    assert_eq!(e.message, "expected identifier");
}

#[test]
fn rename_is_record_only_hint_absent_elsewhere() {
    let e = parse_block(&tokens(r#"rename = "x""#), Scope::Container).err().unwrap();
    assert_eq!(e.kind, ErrorKind::UnknownAttributeKey);
    assert_eq!(e.message, "Unknown cache_diff attribute: `rename`. Must be one of `custom`");
    assert_eq!(
        known_attributes(Scope::Field),
        "`rename`, `display`, `ignore`"
    );
}

#[test]
fn combined_report_keeps_each_diagnostic_once() {
    let d = |kind, message: &str, span| Diagnostic { kind, message: message.to_string(), span };
    let combined = cache_diff::diagnostic::combine(vec![
        d(ErrorKind::Syntax, "expected `=`", 1),
        d(ErrorKind::Syntax, "expected `=`", 2),
        d(ErrorKind::Syntax, "expected `=`", 1),
        d(ErrorKind::UnknownAttributeKey, "expected `=`", 1),
    ]);
    assert_eq!(
        combined.iter().map(|x| (x.kind, x.span)).collect::<Vec<_>>(),
        vec![(ErrorKind::Syntax, 1), (ErrorKind::Syntax, 2), (ErrorKind::UnknownAttributeKey, 1)]
    );
}
