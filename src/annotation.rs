//! The annotation grammar: one `cache_diff(...)` block, already split into tokens by the host
//! compiler, is parsed into a list of key / value annotations.
//!
//! ```text
//! block  := [ entry { "," entry } [ "," ] ]
//! entry  := "rename" "=" STRING
//!         | "display" "=" path
//!         | "ignore" [ "=" STRING ]
//!         | "custom" "=" path
//! path   := [ "::" ] IDENT { "::" IDENT }
//! ```
//!
//! `custom` is recognized on the record only; `rename`, `display` and `ignore` on fields only.

use crate::diagnostic::{Diagnostic, DiagnosticView, ErrorKind};
use vstd::prelude::*;

verus! {

/// The kind of one token of an annotation block.
#[derive(Clone, Copy, PartialEq, Eq, Debug, Structural)]
pub enum TokenKind {
    /// An identifier; `text` is its name.
    Ident,
    /// A string literal; `text` is its value.
    Str,
    /// A single punctuation character such as `=`, `,` or `:`.
    Punct(char),
    /// Anything else; `text` is its source form.
    Other,
}

/// One token with the location it came from.
#[derive(Debug)]
pub struct Token {
    pub kind: TokenKind,
    pub text: String,
    pub span: usize,
}

/// Where an annotation block stands.
#[derive(Clone, Copy, PartialEq, Eq, Debug, Structural)]
pub enum Scope {
    /// On the record type itself.
    Container,
    /// On one field of the record.
    Field,
}

/// A recognized annotation key.
#[derive(Clone, Copy, PartialEq, Eq, Debug, Structural)]
pub enum Key {
    Rename,
    Display,
    Ignore,
    Custom,
}

/// One parsed annotation: its key, its value (a label, a reason or a function path) and the
/// span of the key.
#[derive(Debug)]
pub struct Annotation {
    pub key: Key,
    pub value: Option<String>,
    pub span: usize,
}

pub ghost struct AnnotationView {
    pub key: Key,
    pub value: Option<Seq<char>>,
    pub span: usize,
}

pub open spec fn opt_view(v: Option<String>) -> Option<Seq<char>> {
    match v {
        Some(s) => Some(s@),
        None => None,
    }
}

impl View for Annotation {
    type V = AnnotationView;

    open spec fn view(&self) -> AnnotationView {
        AnnotationView { key: self.key, value: opt_view(self.value), span: self.span }
    }
}

pub open spec fn anns_view(a: Seq<Annotation>) -> Seq<AnnotationView> {
    a.map_values(|x: Annotation| x@)
}

pub open spec fn key_name(k: Key) -> Seq<char> {
    match k {
        Key::Rename => "rename"@,
        Key::Display => "display"@,
        Key::Ignore => "ignore"@,
        Key::Custom => "custom"@,
    }
}

pub open spec fn key_named(name: Seq<char>) -> Option<Key> {
    if name == "rename"@ {
        Some(Key::Rename)
    } else if name == "display"@ {
        Some(Key::Display)
    } else if name == "ignore"@ {
        Some(Key::Ignore)
    } else if name == "custom"@ {
        Some(Key::Custom)
    } else {
        None
    }
}

/// The keys recognized in a scope, in the order in which messages list them.
pub open spec fn scope_keys(scope: Scope) -> Seq<Key> {
    match scope {
        Scope::Container => seq![Key::Custom],
        Scope::Field => seq![Key::Rename, Key::Display, Key::Ignore],
    }
}

pub open spec fn admits(scope: Scope, k: Key) -> bool {
    match scope {
        Scope::Container => k == Key::Custom,
        Scope::Field => k != Key::Custom,
    }
}

pub open spec fn quoted(k: Key) -> Seq<char> {
    "`"@ + key_name(k) + "`"@
}

/// The keys, each in backticks, separated by `, `.
pub open spec fn quoted_list(keys: Seq<Key>) -> Seq<char>
    decreases keys.len(),
{
    if keys.len() == 0 {
        seq![]
    } else if keys.len() == 1 {
        quoted(keys[0])
    } else {
        quoted_list(keys.drop_last()) + ", "@ + quoted(keys.last())
    }
}

/// The note added when a record-only key is written on a field.
pub open spec fn scope_hint(scope: Scope, name: Seq<char>) -> Seq<char> {
    if scope == Scope::Field && name == "custom"@ {
        "\nThe cache_diff attribute `custom` is available on the struct, not the field"@
    } else {
        seq![]
    }
}

pub open spec fn unknown_key_message(scope: Scope, name: Seq<char>) -> Seq<char> {
    "Unknown cache_diff attribute: `"@ + name + "`. Must be one of "@ + quoted_list(
        scope_keys(scope),
    ) + scope_hint(scope, name)
}

pub open spec fn is_punct(t: Token, c: char) -> bool {
    t.kind == TokenKind::Punct(c)
}

/// The span of token `j`, or of the last token where `j` is past the end.
pub open spec fn span_at(toks: Seq<Token>, j: int) -> usize {
    if 0 <= j < toks.len() {
        toks[j].span
    } else {
        toks.last().span
    }
}

pub open spec fn expected(toks: Seq<Token>, j: int, what: Seq<char>) -> DiagnosticView {
    DiagnosticView { kind: ErrorKind::Syntax, message: "expected "@ + what, span: span_at(toks, j) }
}

pub open spec fn is_path_sep(toks: Seq<Token>, j: int) -> bool {
    0 <= j && j + 1 < toks.len() && is_punct(toks[j], ':') && is_punct(toks[j + 1], ':')
}

pub open spec fn is_ident_at(toks: Seq<Token>, j: int) -> bool {
    0 <= j < toks.len() && toks[j].kind == TokenKind::Ident
}

/// Continues a path whose text so far is `text`: consumes `:: IDENT` pairs from `j` on and
/// gives the path's text and the position after it.
pub open spec fn path_rest(toks: Seq<Token>, j: int, text: Seq<char>) -> Result<
    (Seq<char>, int),
    DiagnosticView,
>
    decreases toks.len() - j,
{
    if is_path_sep(toks, j) {
        if is_ident_at(toks, j + 2) {
            path_rest(toks, j + 3, text + "::"@ + toks[j + 2].text@)
        } else {
            Err(expected(toks, j + 2, "identifier"@))
        }
    } else {
        Ok((text, j))
    }
}

/// A function path starting at `j`.
pub open spec fn path_at(toks: Seq<Token>, j: int) -> Result<(Seq<char>, int), DiagnosticView> {
    if is_path_sep(toks, j) {
        if is_ident_at(toks, j + 2) {
            path_rest(toks, j + 3, "::"@ + toks[j + 2].text@)
        } else {
            Err(expected(toks, j + 2, "identifier"@))
        }
    } else if is_ident_at(toks, j) {
        path_rest(toks, j + 1, toks[j].text@)
    } else {
        Err(expected(toks, j, "identifier"@))
    }
}

/// A string value at `j`, for key `k` written at `span`.
pub open spec fn str_value(toks: Seq<Token>, j: int, k: Key, span: usize) -> Result<
    (AnnotationView, int),
    DiagnosticView,
> {
    if 0 <= j < toks.len() && toks[j].kind == TokenKind::Str {
        Ok((AnnotationView { key: k, value: Some(toks[j].text@), span }, j + 1))
    } else {
        Err(expected(toks, j, "string literal"@))
    }
}

/// What follows a recognized key at position `i`.
pub open spec fn value_at(toks: Seq<Token>, i: int, k: Key) -> Result<
    (AnnotationView, int),
    DiagnosticView,
> {
    let span = toks[i].span;
    let eq = i + 1 < toks.len() && is_punct(toks[i + 1], '=');
    match k {
        Key::Ignore => {
            if eq {
                str_value(toks, i + 2, k, span)
            } else {
                Ok((AnnotationView { key: k, value: None, span }, i + 1))
            }
        },
        Key::Rename => {
            if eq {
                str_value(toks, i + 2, k, span)
            } else {
                Err(expected(toks, i + 1, "`=`"@))
            }
        },
        _ => {
            if eq {
                match path_at(toks, i + 2) {
                    Ok((p, n)) => Ok((AnnotationView { key: k, value: Some(p), span }, n)),
                    Err(e) => Err(e),
                }
            } else {
                Err(expected(toks, i + 1, "`=`"@))
            }
        },
    }
}

/// One entry starting at position `i`: the annotation and the position after it.
pub open spec fn entry_at(toks: Seq<Token>, i: int, scope: Scope) -> Result<
    (AnnotationView, int),
    DiagnosticView,
> {
    let t = toks[i];
    if t.kind != TokenKind::Ident {
        Err(expected(toks, i, "identifier"@))
    } else {
        match key_named(t.text@) {
            Some(k) if admits(scope, k) => value_at(toks, i, k),
            _ => Err(
                DiagnosticView {
                    kind: ErrorKind::UnknownAttributeKey,
                    message: unknown_key_message(scope, t.text@),
                    span: t.span,
                },
            ),
        }
    }
}

pub proof fn lemma_path_rest_advances(toks: Seq<Token>, j: int, text: Seq<char>)
    ensures
        path_rest(toks, j, text) matches Ok((_, n)) ==> j <= n && (j < toks.len() ==> n
            <= toks.len()) && (j >= toks.len() ==> n == j),
    decreases toks.len() - j,
{
    if is_path_sep(toks, j) && is_ident_at(toks, j + 2) {
        lemma_path_rest_advances(toks, j + 3, text + "::"@ + toks[j + 2].text@);
    }
}

pub proof fn lemma_entry_advances(toks: Seq<Token>, i: int, scope: Scope)
    requires
        0 <= i < toks.len(),
    ensures
        entry_at(toks, i, scope) matches Ok((_, n)) ==> i < n <= toks.len(),
{
    if is_path_sep(toks, i + 2) && is_ident_at(toks, i + 4) {
        lemma_path_rest_advances(toks, i + 5, "::"@ + toks[i + 4].text@);
    }
    if is_ident_at(toks, i + 2) {
        lemma_path_rest_advances(toks, i + 3, toks[i + 2].text@);
    }
}

/// The entries of a block from position `i` on, after the annotations `acc`.
pub open spec fn entries_from(toks: Seq<Token>, i: int, scope: Scope, acc: Seq<AnnotationView>) -> Result<
    Seq<AnnotationView>,
    DiagnosticView,
>
    decreases toks.len() - i,
{
    if !(0 <= i < toks.len()) {
        Ok(acc)
    } else {
        match entry_at(toks, i, scope) {
            Err(e) => Err(e),
            Ok((a, n)) => {
                if n >= toks.len() {
                    Ok(acc.push(a))
                } else if is_punct(toks[n], ',') {
                    proof {
                        lemma_entry_advances(toks, i, scope);
                    }
                    entries_from(toks, n + 1, scope, acc.push(a))
                } else {
                    Err(expected(toks, n, "`,`"@))
                }
            },
        }
    }
}

/// What one annotation block in `scope` parses to.
pub open spec fn block_spec(toks: Seq<Token>, scope: Scope) -> Result<
    Seq<AnnotationView>,
    DiagnosticView,
> {
    entries_from(toks, 0, scope, seq![])
}

impl Key {
    /// The key as it is written.
    pub fn name(&self) -> (r: &'static str)
        ensures
            r@ == key_name(*self),
    {
        match self {
            Key::Rename => "rename",
            Key::Display => "display",
            Key::Ignore => "ignore",
            Key::Custom => "custom",
        }
    }

    /// The key written as `name`, if any.
    pub fn from_name(name: &String) -> (r: Option<Key>)
        ensures
            r == key_named(name@),
    {
        if same_text(name, "rename") {
            Some(Key::Rename)
        } else if same_text(name, "display") {
            Some(Key::Display)
        } else if same_text(name, "ignore") {
            Some(Key::Ignore)
        } else if same_text(name, "custom") {
            Some(Key::Custom)
        } else {
            None
        }
    }
}

pub fn same_text(a: &String, b: &str) -> (r: bool)
    ensures
        r == (a@ == b@),
{
    let t = String::from_str(b);
    *a == t
}

pub fn scope_keys_of(scope: Scope) -> (r: Vec<Key>)
    ensures
        r@ == scope_keys(scope),
{
    match scope {
        Scope::Container => vec![Key::Custom],
        Scope::Field => vec![Key::Rename, Key::Display, Key::Ignore],
    }
}

pub fn admits_key(scope: Scope, k: Key) -> (r: bool)
    ensures
        r == admits(scope, k),
{
    match scope {
        Scope::Container => k == Key::Custom,
        Scope::Field => k != Key::Custom,
    }
}

/// Lists the keys recognized in `scope`, each in backticks, for error messages.
pub fn known_attributes(scope: Scope) -> (r: String)
    ensures
        r@ == quoted_list(scope_keys(scope)),
{
    let keys = scope_keys_of(scope);
    let mut out = String::new();
    let mut k: usize = 0;
    while k < keys.len()
        invariant
            k <= keys.len(),
            out@ == quoted_list(keys@.take(k as int)),
        decreases keys.len() - k,
    {
        if k > 0 {
            out.append(", ");
        }
        out.append("`");
        out.append(keys[k].name());
        out.append("`");
        proof {
            let t = keys@.take(k + 1);
            assert(t.drop_last() =~= keys@.take(k as int));
            assert(t.last() == keys@[k as int]);
        }
        k = k + 1;
    }
    assert(keys@.take(keys.len() as int) =~= keys@);
    out
}

pub fn unknown_key_error(scope: Scope, t: &Token) -> (r: Diagnostic)
    ensures
        r@ == (DiagnosticView {
            kind: ErrorKind::UnknownAttributeKey,
            message: unknown_key_message(scope, t.text@),
            span: t.span,
        }),
{
    let mut m = String::from_str("Unknown cache_diff attribute: `");
    m.append(t.text.as_str());
    m.append("`. Must be one of ");
    let known = known_attributes(scope);
    m.append(known.as_str());
    if scope == Scope::Field && same_text(&t.text, "custom") {
        m.append("\nThe cache_diff attribute `custom` is available on the struct, not the field");
    }
    assert(m@ =~= unknown_key_message(scope, t.text@));
    Diagnostic::new(ErrorKind::UnknownAttributeKey, m, t.span)
}

fn span_of(toks: &Vec<Token>, j: usize) -> (r: usize)
    requires
        toks.len() > 0,
    ensures
        r == span_at(toks@, j as int),
{
    if j < toks.len() {
        toks[j].span
    } else {
        toks[toks.len() - 1].span
    }
}

fn expected_at(toks: &Vec<Token>, j: usize, what: &str) -> (r: Diagnostic)
    requires
        toks.len() > 0,
    ensures
        r@ == expected(toks@, j as int, what@),
{
    let mut m = String::from_str("expected ");
    m.append(what);
    Diagnostic::new(ErrorKind::Syntax, m, span_of(toks, j))
}

fn path_sep_at(toks: &Vec<Token>, j: usize) -> (r: bool)
    ensures
        r == is_path_sep(toks@, j as int),
{
    j < toks.len() && toks.len() - j > 1 && toks[j].kind == TokenKind::Punct(':') && toks[j
        + 1].kind == TokenKind::Punct(':')
}

fn ident_at(toks: &Vec<Token>, j: usize) -> (r: bool)
    ensures
        r == is_ident_at(toks@, j as int),
{
    j < toks.len() && toks[j].kind == TokenKind::Ident
}

/// Parses a function path starting at position `j`.
fn parse_path(toks: &Vec<Token>, j: usize) -> (r: Result<(String, usize), Diagnostic>)
    requires
        toks.len() > 0,
        j <= toks.len(),
    ensures
        match r {
            Ok((p, n)) => path_at(toks@, j as int) == Ok::<_, DiagnosticView>((p@, n as int)),
            Err(d) => path_at(toks@, j as int) == Err::<(Seq<char>, int), _>(d@),
        },
{
    let mut text = String::new();
    let mut k: usize;
    if path_sep_at(toks, j) {
        if ident_at(toks, j + 2) {
            text.append("::");
            text.append(toks[j + 2].text.as_str());
            k = j + 3;
        } else {
            return Err(expected_at(toks, j + 2, "identifier"));
        }
    } else if ident_at(toks, j) {
        text.append(toks[j].text.as_str());
        k = j + 1;
    } else {
        return Err(expected_at(toks, j, "identifier"));
    }
    while path_sep_at(toks, k)
        invariant
            toks.len() > 0,
            k <= toks.len(),
            path_at(toks@, j as int) == path_rest(toks@, k as int, text@),
        decreases toks.len() - k,
    {
        if ident_at(toks, k + 2) {
            text.append("::");
            text.append(toks[k + 2].text.as_str());
            k = k + 3;
        } else {
            return Err(expected_at(toks, k + 2, "identifier"));
        }
    }
    Ok((text, k))
}

fn parse_str_value(toks: &Vec<Token>, j: usize, k: Key, span: usize) -> (r: Result<
    (Annotation, usize),
    Diagnostic,
>)
    requires
        toks.len() > 0,
        j <= toks.len(),
    ensures
        match r {
            Ok((a, n)) => str_value(toks@, j as int, k, span) == Ok::<_, DiagnosticView>(
                (a@, n as int),
            ),
            Err(d) => str_value(toks@, j as int, k, span) == Err::<(AnnotationView, int), _>(d@),
        },
{
    if j < toks.len() && toks[j].kind == TokenKind::Str {
        let v = toks[j].text.clone();
        Ok((Annotation { key: k, value: Some(v), span }, j + 1))
    } else {
        Err(expected_at(toks, j, "string literal"))
    }
}

/// Parses the entry that starts at position `i`.
fn parse_entry(toks: &Vec<Token>, i: usize, scope: Scope) -> (r: Result<
    (Annotation, usize),
    Diagnostic,
>)
    requires
        i < toks.len(),
    ensures
        match r {
            Ok((a, n)) => entry_at(toks@, i as int, scope) == Ok::<_, DiagnosticView>(
                (a@, n as int),
            ),
            Err(d) => entry_at(toks@, i as int, scope) == Err::<(AnnotationView, int), _>(d@),
        },
{
    let t = &toks[i];
    if t.kind != TokenKind::Ident {
        return Err(expected_at(toks, i, "identifier"));
    }
    let k = match Key::from_name(&t.text) {
        Some(k) => {
            if admits_key(scope, k) {
                k
            } else {
                return Err(unknown_key_error(scope, t));
            }
        },
        None => {
            return Err(unknown_key_error(scope, t));
        },
    };
    let span = t.span;
    let eq = i + 1 < toks.len() && toks[i + 1].kind == TokenKind::Punct('=');
    match k {
        Key::Ignore => {
            if eq {
                parse_str_value(toks, i + 2, k, span)
            } else {
                Ok((Annotation { key: k, value: None, span }, i + 1))
            }
        },
        Key::Rename => {
            if eq {
                parse_str_value(toks, i + 2, k, span)
            } else {
                Err(expected_at(toks, i + 1, "`=`"))
            }
        },
        _ => {
            if eq {
                match parse_path(toks, i + 2) {
                    Ok((p, n)) => Ok((Annotation { key: k, value: Some(p), span }, n)),
                    Err(e) => Err(e),
                }
            } else {
                Err(expected_at(toks, i + 1, "`=`"))
            }
        },
    }
}

/// Parses one annotation block written in `scope`.
pub fn parse_block(toks: &Vec<Token>, scope: Scope) -> (r: Result<Vec<Annotation>, Diagnostic>)
    ensures
        match r {
            Ok(a) => block_spec(toks@, scope) == Ok::<_, DiagnosticView>(anns_view(a@)),
            Err(d) => block_spec(toks@, scope) == Err::<Seq<AnnotationView>, _>(d@),
        },
{
    let mut acc: Vec<Annotation> = Vec::new();
    let mut i: usize = 0;
    assert(anns_view(acc@) =~= seq![]);
    while i < toks.len()
        invariant
            i <= toks.len(),
            block_spec(toks@, scope) == entries_from(toks@, i as int, scope, anns_view(acc@)),
        decreases toks.len() - i,
    {
        proof {
            lemma_entry_advances(toks@, i as int, scope);
        }
        match parse_entry(toks, i, scope) {
            Err(d) => {
                return Err(d);
            },
            Ok((a, n)) => {
                let ghost before = anns_view(acc@);
                acc.push(a);
                assert(anns_view(acc@) =~= before.push(a@));
                if n >= toks.len() {
                    return Ok(acc);
                }
                if toks[n].kind == TokenKind::Punct(',') {
                    i = n + 1;
                } else {
                    return Err(expected_at(toks, n, "`,`"));
                }
            },
        }
    }
    Ok(acc)
}

} // verus!
