use cache_diff::annotation::{Token, TokenKind};
use cache_diff::container::{RecordDecl, TypeDescriptor};
use cache_diff::emit::{create_cache_diff, Generics};
use cache_diff::example::{diff_fn, CustomDiffFn};
use cache_diff::field::{DeclaredType, FormatRef, PathSegment, RawField};
use cache_diff::generate::{change_text, fmt_value, Reading, ValueStyle};
use cache_diff::CacheDiff;
use proc_macro2::{TokenStream, TokenTree};

fn tokens(src: &str) -> Vec<Token> {
    let stream: TokenStream = src.parse().unwrap();
    let mut out = Vec::new();
    for (span, tree) in stream.into_iter().enumerate() {
        let token = match tree {
            TokenTree::Ident(i) => Token { kind: TokenKind::Ident, text: i.to_string(), span },
            TokenTree::Punct(p) => Token {
                kind: TokenKind::Punct(p.as_char()),
                text: p.as_char().to_string(),
                span,
            },
            TokenTree::Literal(l) => {
                let text = l.to_string();
                match syn::parse_str::<syn::LitStr>(&text) {
                    Ok(lit) => Token { kind: TokenKind::Str, text: lit.value(), span },
                    Err(_) => Token { kind: TokenKind::Other, text, span },
                }
            }
            TokenTree::Group(g) => Token { kind: TokenKind::Other, text: g.to_string(), span },
        };
        out.push(token);
    }
    out
}

fn field(name: &str, ty: &str, attrs: &str) -> RawField {
    RawField {
        name: name.to_string(),
        span: 0,
        ty: DeclaredType::Path(vec![PathSegment { ident: ty.to_string(), has_arguments: false }]),
        attrs: if attrs.is_empty() { vec![] } else { vec![tokens(attrs)] },
    }
}

fn record(name: &str, attrs: &str, fields: Vec<RawField>) -> RecordDecl {
    RecordDecl {
        name: name.to_string(),
        span: 0,
        attrs: if attrs.is_empty() { vec![] } else { vec![tokens(attrs)] },
        named: true,
        fields,
    }
}

fn my_display(value: &str) -> String {
    format!("custom {value}")
}

/// Renders a value the way the generated code does for each format.
fn render(format: Option<&FormatRef>, value: &str) -> String {
    match format {
        None | Some(FormatRef::Identity) => value.to_string(),
        Some(FormatRef::PathDisplay) => std::path::Path::new(value).display().to_string(),
        Some(FormatRef::Function(name)) if name == "my_display" => my_display(value),
        Some(FormatRef::Function(name)) => panic!("unknown display function {name}"),
    }
}

/// The differences between two instances whose field values are given as text, in
/// declaration order.
fn diff_of(
    decl: &RecordDecl,
    custom: Vec<String>,
    now: &[&str],
    previous: &[&str],
    style: ValueStyle,
) -> Vec<String> {
    let desc = TypeDescriptor::from_ast(decl).unwrap();
    let readings = (0..decl.fields.len())
        .map(|i| {
            let format = desc.fields.iter().find(|a| a.index == i).map(|a| &a.format);
            Reading {
                changed: now[i] != previous[i],
                previous: render(format, previous[i]),
                current: render(format, now[i]),
            }
        })
        .collect();
    desc.diff(custom, &readings, style)
}

struct Dog {
    woof: String,
}

impl CacheDiff for Dog {
    fn diff(&self, previous: &Self) -> Vec<String> {
        let decl = record("Dog", "", vec![field("woof", "String", "")]);
        diff_of(&decl, vec![], &[&self.woof], &[&previous.woof], ValueStyle::Backticks)
    }
}

struct Cat {
    meow: String,
}

impl CacheDiff for Cat {
    fn diff(&self, previous: &Self) -> Vec<String> {
        let decl = record("Cat", "", vec![field("meow", "String", "")]);
        diff_of(&decl, vec![], &[&self.meow], &[&previous.meow], ValueStyle::Backticks)
    }
}

#[test]
fn test_cat() {
    let diff = Cat { meow: "Meow".to_string() }.diff(&Cat { meow: "Woem".to_string() });
    assert!(diff.len() == 1);
}

#[test]
fn test_dog() {
    let diff = Dog { woof: "Woof".to_string() }.diff(&Dog { woof: "Foow".to_string() });
    assert!(diff.len() == 1);
}

#[test]
fn custom_diff_function() {
    let diff = CustomDiffFn { name: "Richard".to_string() }
        .diff(&CustomDiffFn { name: "Schneems".to_string() });

    assert_eq!(
        [
            "Totally custom old: Schneems now: Richard".to_string(),
            "name (`Schneems` to `Richard`)".to_string()
        ],
        diff[..]
    );

    let decl = record("CustomDiffFn", "custom = diff_fn", vec![field("name", "String", "")]);
    let now = CustomDiffFn { name: "Richard".to_string() };
    let before = CustomDiffFn { name: "Schneems".to_string() };
    let generic = diff_of(
        &decl,
        diff_fn(&before, &now),
        &["Richard"],
        &["Schneems"],
        ValueStyle::Backticks,
    );
    assert_eq!(generic, diff);
}

#[test]
fn ignore_a_field() {
    let decl = record(
        "Metadata",
        "",
        vec![field("ruby_version", "String", ""), field("_modified_by", "String", "ignore")],
    );
    let diff = diff_of(
        &decl,
        vec![],
        &["3.4.0", "richard"],
        &["3.3.0", "not rich"],
        ValueStyle::Backticks,
    );
    assert_eq!(diff.len(), 1);
    let contents = diff.join(" ");
    assert!(!contents.contains("modified"), "Unexpected contents {contents}");
}

#[test]
fn auto_display_path_buff() {
    let decl = record("Metadata", "", vec![field("path", "PathBuf", "")]);
    let diff = diff_of(&decl, vec![], &["/tmp"], &["/tmp2"], ValueStyle::Backticks);
    assert_eq!(diff.len(), 1);
    let contents = diff.join(" ");
    assert!(contents.contains("/tmp"), "Unexpected contents '{contents}'");
}

#[test]
fn ignore_rename_display_field() {
    let decl = record(
        "Metadata",
        "",
        vec![field("version", "String", r#"rename="Ruby version", display=my_display"#)],
    );
    let diff = diff_of(&decl, vec![], &["3.4.0"], &["3.3.0"], ValueStyle::Backticks);
    assert_eq!(diff.len(), 1);
    let contents = diff.join(" ");
    assert!(contents.contains("custom 3.4.0"), "Expected `{contents}` to contain 'custom 3.4.0'");
}

#[test]
fn ignore_rename_field() {
    let decl = record("Metadata", "", vec![field("version", "String", r#"rename = "Ruby version""#)]);
    let diff = diff_of(&decl, vec![], &["3.4.0"], &["3.3.0"], ValueStyle::Backticks);
    assert_eq!(diff.len(), 1);
    let contents = diff.join(" ");
    assert!(contents.contains("Ruby version"), "Expected `{contents}` to contain Ruby version");
}

#[test]
fn test_replace_space() {
    let decl = record("Metadata", "", vec![field("ruby_version", "String", "")]);
    let diff = diff_of(&decl, vec![], &["3.4.0"], &["3.3.0"], ValueStyle::Backticks);
    assert_eq!(diff.len(), 1);
    let changed = diff.join(" ");
    assert!(changed.contains("ruby version"));
}

#[test]
fn test_cache_diff() {
    let decl = record("Person", "", vec![field("_name", "String", "")]);
    let diff = diff_of(&decl, vec![], &["richard"], &["rich"], ValueStyle::Backticks);
    assert_eq!(diff.len(), 1);
}

// Further cases

#[test]
fn single_field_exact_entry() {
    let decl = record("Metadata", "", vec![field("version", "String", "")]);
    let diff = diff_of(&decl, vec![], &["3.4.0"], &["3.3.0"], ValueStyle::Backticks);
    assert_eq!(diff, vec!["version (`3.3.0` to `3.4.0`)".to_string()]);
}

#[test]
fn entries_follow_declaration_order() {
    let decl =
        record("Metadata", "", vec![field("version", "String", ""), field("distro", "String", "")]);
    let diff = diff_of(
        &decl,
        vec![],
        &["3.4.0", "Ubuntu"],
        &["3.3.0", "Alpine"],
        ValueStyle::Backticks,
    );
    assert_eq!(diff.join(", "), "version (`3.3.0` to `3.4.0`), distro (`Alpine` to `Ubuntu`)");
}

#[test]
fn identical_values_give_no_entries() {
    let decl =
        record("Metadata", "", vec![field("version", "String", ""), field("distro", "String", "")]);
    let diff = diff_of(&decl, vec![], &["3.4.0", "Ubuntu"], &["3.4.0", "Ubuntu"], ValueStyle::Backticks);
    assert!(diff.is_empty());
}

#[test]
fn ignored_field_never_reported() {
    let decl = record(
        "Metadata",
        "",
        vec![field("version", "String", ""), field("changed_by", "String", "ignore")],
    );
    let diff = diff_of(&decl, vec![], &["3.4.0", "Alice"], &["3.4.0", "Bob"], ValueStyle::Backticks);
    assert!(diff.is_empty());
}

#[test]
fn custom_entries_come_first_and_need_a_hook() {
    let with_hook = record(
        "Metadata",
        "custom = hook",
        vec![field("version", "String", ""), field("count", "String", r#"ignore = "custom""#)],
    );
    let diff = diff_of(
        &with_hook,
        vec!["count exceeded".to_string()],
        &["2", "9"],
        &["1", "1"],
        ValueStyle::Backticks,
    );
    assert_eq!(diff, vec!["count exceeded".to_string(), "version (`1` to `2`)".to_string()]);

    let without_hook = record("Metadata", "", vec![field("version", "String", "")]);
    let diff = diff_of(
        &without_hook,
        vec!["never shown".to_string()],
        &["2"],
        &["1"],
        ValueStyle::Backticks,
    );
    assert_eq!(diff, vec!["version (`1` to `2`)".to_string()]);
}

#[test]
fn terminal_style_colours_values() {
    assert_eq!(fmt_value(ValueStyle::Terminal, "3.4.0"), "`\u{1b}[0;33m3.4.0\u{1b}[0m`");
    assert_eq!(fmt_value(ValueStyle::Backticks, "3.4.0"), "`3.4.0`");
    let decl = record("Metadata", "", vec![field("version", "String", "")]);
    let diff = diff_of(&decl, vec![], &["3.4.0"], &["3.3.0"], ValueStyle::Terminal);
    assert_eq!(
        diff,
        vec!["version (`\u{1b}[0;33m3.3.0\u{1b}[0m` to `\u{1b}[0;33m3.4.0\u{1b}[0m`)".to_string()]
    );
}

#[test]
fn default_value_format_uses_backticks() {
    let r = CustomDiffFn { name: "x".to_string() };
    assert_eq!(r.fmt_value("3.4.0"), "`3.4.0`");
    assert_eq!(change_text("a b", "`1`", "`2`"), "a b (`1` to `2`)");
}

#[test]
fn unchanged_custom_record_reports_only_hook() {
    let same = CustomDiffFn { name: "Richard".to_string() };
    let diff = same.diff(&CustomDiffFn { name: "Richard".to_string() });
    assert_eq!(diff, vec!["Totally custom old: Richard now: Richard".to_string()]);
}

fn no_generics() -> Generics {
    Generics { impl_part: String::new(), type_part: String::new(), where_part: String::new() }
}

#[test]
fn emitted_source_for_one_field() {
    let decl = record("Metadata", "", vec![field("version", "String", "")]);
    let source = create_cache_diff(&decl, &no_generics()).unwrap();
    let expected = [
        "impl ::cache_diff::CacheDiff for Metadata  {\n",
        "    fn diff(&self, old: &Self) -> ::std::vec::Vec<String> {\n",
        "        let mut differences = ::std::vec::Vec::new();\n",
        "        if self.version != old.version {\n",
        "            differences.push(format!(\"{name} ({old} to {new})\", name = \"version\", old = self.fmt_value(&::std::convert::identity(&old.version).to_string()), new = self.fmt_value(&::std::convert::identity(&self.version).to_string())));\n",
        "        }\n",
        "        differences\n",
        "    }\n",
        "}\n",
    ]
    .concat();
    assert_eq!(source, expected);
    assert!(source.parse::<TokenStream>().is_ok());
}

#[test]
fn emitted_source_with_hook_paths_and_escapes() {
    let decl = record(
        "Metadata",
        "custom = my_hook",
        vec![
            field("path", "PathBuf", r#"rename = "the \"path\" \\ here""#),
            field("skip", "String", r#"ignore = "custom""#),
        ],
    );
    let generics = Generics {
        impl_part: "<T>".to_string(),
        type_part: "<T>".to_string(),
        where_part: "where T: Eq".to_string(),
    };
    let source = create_cache_diff(&decl, &generics).unwrap();
    assert!(source.starts_with("impl<T> ::cache_diff::CacheDiff for Metadata<T> where T: Eq {\n"));
    assert!(source.contains("        let custom_diff = my_hook(old, self);\n"));
    assert!(source.contains(r#"name = "the \"path\" \\ here""#));
    assert!(source.contains("::std::path::Path::display(&old.path)"));
    assert!(!source.contains("self.skip"));
    assert!(source.parse::<TokenStream>().is_ok());
}

#[test]
fn emission_reports_configuration_errors() {
    let decl = record("Metadata", "", vec![field("version", "String", "ignore")]);
    let errors = create_cache_diff(&decl, &no_generics()).err().unwrap();
    assert_eq!(errors.len(), 1);
    assert!(errors[0].message.starts_with("No fields to compare for CacheDiff"));
}
