//! Resolves one field of a record, with its annotations and declared type, into a field
//! descriptor.

use crate::annotation::{same_text, AnnotationView, Key, Scope, Token};
use crate::diagnostic::{diags_view, Diagnostic, DiagnosticView, ErrorKind};
use crate::lookup::{attribute_lookup, blocks_anns, find_last, last_with_key, lookup_errors};
use vstd::prelude::*;

verus! {

/// One segment of a type path, such as `PathBuf` in `std::path::PathBuf`.
#[derive(Debug)]
pub struct PathSegment {
    pub ident: String,
    /// Whether the segment carries generic arguments (`Vec<u8>`).
    pub has_arguments: bool,
}

/// The declared type of a field, as far as resolution looks at it.
#[derive(Debug)]
pub enum DeclaredType {
    Path(Vec<PathSegment>),
    Other,
}

/// A field as declared: its name and the span of the name, its type and its annotation blocks.
#[derive(Debug)]
pub struct RawField {
    pub name: String,
    pub span: usize,
    pub ty: DeclaredType,
    pub attrs: Vec<Vec<Token>>,
}

/// How a field's value is turned into text before it is shown.
#[derive(Debug)]
pub enum FormatRef {
    /// The value is shown as it displays itself.
    Identity,
    /// The value is a path buffer and is shown through its path display.
    PathDisplay,
    /// The value is passed to the named function.
    Function(String),
}

pub ghost enum FormatRefView {
    Identity,
    PathDisplay,
    Function(Seq<char>),
}

impl View for FormatRef {
    type V = FormatRefView;

    open spec fn view(&self) -> FormatRefView {
        match self {
            FormatRef::Identity => FormatRefView::Identity,
            FormatRef::PathDisplay => FormatRefView::PathDisplay,
            FormatRef::Function(f) => FormatRefView::Function(f@),
        }
    }
}

/// A field that takes part in the comparison.
#[derive(Debug)]
pub struct ActiveField {
    /// What a reader sees when this field differs.
    pub label: String,
    pub format: FormatRef,
    /// The field's identifier.
    pub ident: String,
    /// The field's position among the record's declared fields.
    pub index: usize,
}

pub ghost struct ActiveFieldView {
    pub label: Seq<char>,
    pub format: FormatRefView,
    pub ident: Seq<char>,
    pub index: usize,
}

impl View for ActiveField {
    type V = ActiveFieldView;

    open spec fn view(&self) -> ActiveFieldView {
        ActiveFieldView {
            label: self.label@,
            format: self.format@,
            ident: self.ident@,
            index: self.index,
        }
    }
}

/// A resolved field.
#[derive(Debug)]
pub enum FieldDescriptor {
    Active(ActiveField),
    /// Left out because the record's custom function covers it.
    IgnoredCustom,
    /// Left out for any other reason.
    IgnoredOther,
}

pub ghost enum FieldDescriptorView {
    Active(ActiveFieldView),
    IgnoredCustom,
    IgnoredOther,
}

impl View for FieldDescriptor {
    type V = FieldDescriptorView;

    open spec fn view(&self) -> FieldDescriptorView {
        match self {
            FieldDescriptor::Active(a) => FieldDescriptorView::Active(a@),
            FieldDescriptor::IgnoredCustom => FieldDescriptorView::IgnoredCustom,
            FieldDescriptor::IgnoredOther => FieldDescriptorView::IgnoredOther,
        }
    }
}

/// A type whose last path segment is `PathBuf`, without generic arguments.
pub open spec fn is_path_buffer(ty: DeclaredType) -> bool {
    match ty {
        DeclaredType::Path(segs) => segs@.len() > 0 && segs@.last().ident@ == "PathBuf"@
            && !segs@.last().has_arguments,
        DeclaredType::Other => false,
    }
}

/// The name with every underscore replaced by a space.
pub open spec fn spaced(name: Seq<char>) -> Seq<char> {
    name.map_values(
        |c: char|
            if c == '_' {
                ' '
            } else {
                c
            },
    )
}

pub open spec fn conflict_error(span: usize) -> DiagnosticView {
    DiagnosticView {
        kind: ErrorKind::ConflictingAttributes,
        message: "The cache_diff attribute `ignore` renders other attributes useless, remove additional attributes"@,
        span,
    }
}

/// The value of the annotation at position `p`, or `default` where it has none.
pub open spec fn value_or(anns: Seq<AnnotationView>, p: int, default: Seq<char>) -> Seq<char> {
    match anns[p].value {
        Some(v) => v,
        None => default,
    }
}

/// How a field named `name`, declared at `span` with type `ty` and position `index`, resolves
/// once its annotations `anns` have been read without error.
pub open spec fn field_spec(
    name: Seq<char>,
    span: usize,
    ty: DeclaredType,
    anns: Seq<AnnotationView>,
    index: usize,
) -> Result<FieldDescriptorView, DiagnosticView> {
    let n = anns.len() as int;
    let ig = last_with_key(anns, n, Key::Ignore);
    let rn = last_with_key(anns, n, Key::Rename);
    let dp = last_with_key(anns, n, Key::Display);
    if ig >= 0 {
        if rn >= 0 || dp >= 0 {
            Err(conflict_error(span))
        } else if anns[ig].value == Some("custom"@) {
            Ok(FieldDescriptorView::IgnoredCustom)
        } else {
            Ok(FieldDescriptorView::IgnoredOther)
        }
    } else {
        let label = if rn >= 0 {
            value_or(anns, rn, spaced(name))
        } else {
            spaced(name)
        };
        let format = if dp >= 0 && anns[dp].value is Some {
            FormatRefView::Function(anns[dp].value->0)
        } else if is_path_buffer(ty) {
            FormatRefView::PathDisplay
        } else {
            FormatRefView::Identity
        };
        Ok(FieldDescriptorView::Active(ActiveFieldView { label, format, ident: name, index }))
    }
}

/// How the field `f`, at position `index` of its record, resolves.
pub open spec fn field_result(f: RawField, index: usize) -> Result<
    FieldDescriptorView,
    Seq<DiagnosticView>,
> {
    let errs = lookup_errors(f.attrs@, Scope::Field);
    if errs.len() > 0 {
        Err(errs)
    } else {
        match field_spec(f.name@, f.span, f.ty, blocks_anns(f.attrs@, Scope::Field), index) {
            Ok(d) => Ok(d),
            Err(e) => Err(seq![e]),
        }
    }
}

pub open spec fn field_outcome(r: Result<FieldDescriptor, Vec<Diagnostic>>) -> Result<
    FieldDescriptorView,
    Seq<DiagnosticView>,
> {
    match r {
        Ok(d) => Ok(d@),
        Err(e) => Err(diags_view(e@)),
    }
}

/// Relies on String::push: appends one character.
#[verifier::external_body]
pub(crate) fn push_char(s: &mut String, c: char)
    ensures
        final(s)@ == old(s)@.push(c),
{
    s.push(c)
}

/// The name with every underscore replaced by a space: the default label of a field.
pub fn spaced_name(name: &String) -> (r: String)
    ensures
        r@ == spaced(name@),
{
    let s = name.as_str();
    let len = s.unicode_len();
    let mut out = String::new();
    let mut i: usize = 0;
    while i < len
        invariant
            len == s@.len(),
            s@ == name@,
            i <= len,
            out@ == spaced(name@).take(i as int),
        decreases len - i,
    {
        let c = s.get_char(i);
        if c == '_' {
            push_char(&mut out, ' ');
        } else {
            push_char(&mut out, c);
        }
        assert(out@ =~= spaced(name@).take(i + 1));
        i = i + 1;
    }
    assert(spaced(name@).take(len as int) =~= spaced(name@));
    out
}

/// Whether the declared type is a path buffer, whose values are shown through their path
/// display.
pub fn is_pathbuf(ty: &DeclaredType) -> (r: bool)
    ensures
        r == is_path_buffer(*ty),
{
    match ty {
        DeclaredType::Path(segs) => {
            if segs.len() == 0 {
                false
            } else {
                let last = &segs[segs.len() - 1];
                same_text(&last.ident, "PathBuf") && !last.has_arguments
            }
        },
        DeclaredType::Other => false,
    }
}

impl FieldDescriptor {
    /// Resolves the field `f`, which stands at position `index` among its record's fields.
    pub fn from_field(f: &RawField, index: usize) -> (r: Result<FieldDescriptor, Vec<Diagnostic>>)
        ensures
            field_outcome(r) == field_result(*f, index),
    {
        let anns = match attribute_lookup(&f.attrs, Scope::Field) {
            Ok(a) => a,
            Err(e) => {
                return Err(e);
            },
        };
        let n = anns.len();
        let ignored = find_last(&anns, n, Key::Ignore);
        let renamed = find_last(&anns, n, Key::Rename);
        let displayed = find_last(&anns, n, Key::Display);
        proof {
            crate::lookup::lemma_last_with_key_range(crate::annotation::anns_view(anns@), n as int, Key::Ignore);
            crate::lookup::lemma_last_with_key_range(crate::annotation::anns_view(anns@), n as int, Key::Rename);
            crate::lookup::lemma_last_with_key_range(crate::annotation::anns_view(anns@), n as int, Key::Display);
        }
        match ignored {
            Some(ig) => {
                if renamed.is_some() || displayed.is_some() {
                    let m = String::from_str(
                        "The cache_diff attribute `ignore` renders other attributes useless, remove additional attributes",
                    );
                    let mut errs = Vec::new();
                    errs.push(Diagnostic::new(ErrorKind::ConflictingAttributes, m, f.span));
                    assert(diags_view(errs@) =~= seq![conflict_error(f.span)]);
                    return Err(errs);
                }
                let is_custom = match &anns[ig].value {
                    Some(v) => same_text(v, "custom"),
                    None => false,
                };
                if is_custom {
                    Ok(FieldDescriptor::IgnoredCustom)
                } else {
                    Ok(FieldDescriptor::IgnoredOther)
                }
            },
            None => {
                let label = match renamed {
                    Some(p) => match &anns[p].value {
                        Some(v) => v.clone(),
                        None => spaced_name(&f.name),
                    },
                    None => spaced_name(&f.name),
                };
                let format = match displayed {
                    Some(p) => match &anns[p].value {
                        Some(v) => FormatRef::Function(v.clone()),
                        None => {
                            if is_pathbuf(&f.ty) {
                                FormatRef::PathDisplay
                            } else {
                                FormatRef::Identity
                            }
                        },
                    },
                    None => {
                        if is_pathbuf(&f.ty) {
                            FormatRef::PathDisplay
                        } else {
                            FormatRef::Identity
                        }
                    },
                };
                let ident = f.name.clone();
                Ok(FieldDescriptor::Active(ActiveField { label, format, ident, index }))
            },
        }
    }
}

} // verus!
