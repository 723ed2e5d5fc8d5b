//! Resolves a whole record: its own annotations and all of its fields, into a type
//! descriptor, or into every configuration problem found in it.

use crate::annotation::{Key, Scope, Token};
use crate::diagnostic::{combine, diags_view, distinct, Diagnostic, DiagnosticView, ErrorKind};
use crate::field::{
    field_result, ActiveField, ActiveFieldView, FieldDescriptor,
    FieldDescriptorView, RawField,
};
use crate::lookup::{blocks_anns, find_last, gather_annotations, last_with_key, lookup_errors};
use vstd::prelude::*;

verus! {

/// A record type as declared: its name and the span of the name, its annotation blocks,
/// whether its fields are named, and its fields in declaration order.
#[derive(Debug)]
pub struct RecordDecl {
    pub name: String,
    pub span: usize,
    pub attrs: Vec<Vec<Token>>,
    pub named: bool,
    pub fields: Vec<RawField>,
}

/// A resolved record: its name, its custom function if it has one, and its active fields in
/// declaration order.
#[derive(Debug)]
pub struct TypeDescriptor {
    pub name: String,
    pub custom: Option<String>,
    pub fields: Vec<ActiveField>,
}

pub ghost struct TypeDescriptorView {
    pub name: Seq<char>,
    pub custom: Option<Seq<char>>,
    pub fields: Seq<ActiveFieldView>,
}

pub open spec fn actives_view(a: Seq<ActiveField>) -> Seq<ActiveFieldView> {
    a.map_values(|x: ActiveField| x@)
}

impl View for TypeDescriptor {
    type V = TypeDescriptorView;

    open spec fn view(&self) -> TypeDescriptorView {
        TypeDescriptorView {
            name: self.name@,
            custom: crate::annotation::opt_view(self.custom),
            fields: actives_view(self.fields@),
        }
    }
}

/// The record's custom function: the value of its last `custom` annotation.
pub open spec fn custom_of(d: RecordDecl) -> Option<Seq<char>> {
    let anns = blocks_anns(d.attrs@, Scope::Container);
    let p = last_with_key(anns, anns.len() as int, Key::Custom);
    if p >= 0 {
        anns[p].value
    } else {
        None
    }
}

pub open spec fn missing_hook_error(field: Seq<char>, ty: Seq<char>, span: usize) -> DiagnosticView {
    DiagnosticView {
        kind: ErrorKind::MissingCustomHook,
        message: "field `"@ + field + "` on "@ + ty
            + " marked ignored as custom, but no `#[cache_diff(custom = <function>)]` found on `"@
            + ty + "`"@,
        span,
    }
}

pub open spec fn no_fields_error(span: usize) -> DiagnosticView {
    DiagnosticView {
        kind: ErrorKind::NoComparableFields,
        message: "No fields to compare for CacheDiff, ensure struct has at least one named field that isn't `cache_diff(ignore)`-d"@,
        span,
    }
}

pub open spec fn unsupported_error(span: usize) -> DiagnosticView {
    DiagnosticView {
        kind: ErrorKind::UnsupportedShape,
        message: "CacheDiff can only be used on structs with named fields"@,
        span,
    }
}

/// The problems that field `i` of the record brings.
pub open spec fn field_errors(d: RecordDecl, i: int) -> Seq<DiagnosticView> {
    match field_result(d.fields@[i], i as usize) {
        Err(e) => e,
        Ok(FieldDescriptorView::IgnoredCustom) => {
            if custom_of(d) is None {
                seq![missing_hook_error(d.fields@[i].name@, d.name@, d.span)]
            } else {
                seq![]
            }
        },
        Ok(_) => seq![],
    }
}

/// Field `i` of the record, if it is active.
pub open spec fn field_active(d: RecordDecl, i: int) -> Seq<ActiveFieldView> {
    match field_result(d.fields@[i], i as usize) {
        Ok(FieldDescriptorView::Active(a)) => seq![a],
        _ => seq![],
    }
}

/// The problems of the first `n` fields, field by field.
pub open spec fn fields_errors(d: RecordDecl, n: int) -> Seq<DiagnosticView>
    decreases n,
{
    if n <= 0 {
        seq![]
    } else {
        fields_errors(d, n - 1) + field_errors(d, n - 1)
    }
}

/// The active fields among the first `n`, in declaration order.
pub open spec fn actives(d: RecordDecl, n: int) -> Seq<ActiveFieldView>
    decreases n,
{
    if n <= 0 {
        seq![]
    } else {
        actives(d, n - 1) + field_active(d, n - 1)
    }
}

/// Every problem of a record with named fields, in order: its own annotations, each field's,
/// and last the lack of any field to compare.
pub open spec fn record_errors(d: RecordDecl) -> Seq<DiagnosticView> {
    let n = d.fields@.len() as int;
    lookup_errors(d.attrs@, Scope::Container) + fields_errors(d, n) + if actives(d, n).len() == 0 {
        seq![no_fields_error(d.span)]
    } else {
        seq![]
    }
}

/// How a record resolves.
pub open spec fn container_result(d: RecordDecl) -> Result<TypeDescriptorView, Seq<DiagnosticView>> {
    if !d.named {
        Err(seq![unsupported_error(d.span)])
    } else if record_errors(d).len() > 0 {
        Err(distinct(record_errors(d)))
    } else {
        Ok(
            TypeDescriptorView {
                name: d.name@,
                custom: custom_of(d),
                fields: actives(d, d.fields@.len() as int),
            },
        )
    }
}

pub open spec fn container_outcome(r: Result<TypeDescriptor, Vec<Diagnostic>>) -> Result<
    TypeDescriptorView,
    Seq<DiagnosticView>,
> {
    match r {
        Ok(t) => Ok(t@),
        Err(e) => Err(diags_view(e@)),
    }
}

/// A record that fails to resolve always comes with at least one diagnostic.
pub proof fn lemma_failure_reported(d: RecordDecl)
    ensures
        container_result(d) matches Err(e) ==> e.len() > 0,
{
    let r = record_errors(d);
    if d.named && r.len() > 0 {
        assert(r.contains(r[0]));
        crate::diagnostic::lemma_distinct_same_entries(r);
        assert(distinct(r).contains(r[0]));
    }
}

fn missing_hook(field: &String, ty: &String, span: usize) -> (r: Diagnostic)
    ensures
        r@ == missing_hook_error(field@, ty@, span),
{
    let mut m = String::from_str("field `");
    m.append(field.as_str());
    m.append("` on ");
    m.append(ty.as_str());
    m.append(" marked ignored as custom, but no `#[cache_diff(custom = <function>)]` found on `");
    m.append(ty.as_str());
    m.append("`");
    Diagnostic::new(ErrorKind::MissingCustomHook, m, span)
}

impl TypeDescriptor {
    /// Resolves a record declaration, collecting every problem rather than stopping at the
    /// first, into one report.
    pub fn from_ast(d: &RecordDecl) -> (r: Result<TypeDescriptor, Vec<Diagnostic>>)
        ensures
            container_outcome(r) == container_result(*d),
            r is Err ==> r->Err_0@.len() > 0,
    {
        proof {
            lemma_failure_reported(*d);
        }
        if !d.named {
            let mut errs = Vec::new();
            errs.push(
                Diagnostic::new(
                    ErrorKind::UnsupportedShape,
                    String::from_str("CacheDiff can only be used on structs with named fields"),
                    d.span,
                ),
            );
            assert(diags_view(errs@) =~= seq![unsupported_error(d.span)]);
            return Err(errs);
        }
        let (type_anns, mut errors) = gather_annotations(&d.attrs, Scope::Container);
        let ghost av = crate::annotation::anns_view(type_anns@);
        let found = find_last(&type_anns, type_anns.len(), Key::Custom);
        proof {
            crate::lookup::lemma_last_with_key_range(av, type_anns.len() as int, Key::Custom);
        }
        let custom: Option<String> = match found {
            Some(p) => match &type_anns[p].value {
                Some(v) => Some(v.clone()),
                None => None,
            },
            None => None,
        };
        assert(crate::annotation::opt_view(custom) == custom_of(*d));
        let mut fields: Vec<ActiveField> = Vec::new();
        let mut i: usize = 0;
        assert(actives_view(fields@) =~= actives(*d, 0));
        assert(diags_view(errors@) =~= lookup_errors(d.attrs@, Scope::Container) + fields_errors(
            *d,
            0,
        ));
        while i < d.fields.len()
            invariant
                i <= d.fields.len(),
                d.named,
                crate::annotation::opt_view(custom) == custom_of(*d),
                actives_view(fields@) == actives(*d, i as int),
                diags_view(errors@) == lookup_errors(d.attrs@, Scope::Container) + fields_errors(
                    *d,
                    i as int,
                ),
            decreases d.fields.len() - i,
        {
            let ghost before_f = actives_view(fields@);
            let ghost before_e = diags_view(errors@);
            let f = &d.fields[i];
            match FieldDescriptor::from_field(f, i) {
                Err(mut e) => {
                    let ghost ev = diags_view(e@);
                    errors.append(&mut e);
                    assert(diags_view(errors@) =~= before_e + ev);
                    assert(actives_view(fields@) =~= before_f + field_active(*d, i as int));
                },
                Ok(FieldDescriptor::IgnoredCustom) => {
                    if custom.is_none() {
                        errors.push(missing_hook(&f.name, &d.name, d.span));
                    }
                    assert(diags_view(errors@) =~= before_e + field_errors(*d, i as int));
                    assert(actives_view(fields@) =~= before_f + field_active(*d, i as int));
                },
                Ok(FieldDescriptor::IgnoredOther) => {
                    assert(diags_view(errors@) =~= before_e + field_errors(*d, i as int));
                    assert(actives_view(fields@) =~= before_f + field_active(*d, i as int));
                },
                Ok(FieldDescriptor::Active(a)) => {
                    fields.push(a);
                    assert(diags_view(errors@) =~= before_e + field_errors(*d, i as int));
                    assert(actives_view(fields@) =~= before_f + field_active(*d, i as int));
                },
            }
            i = i + 1;
        }
        if fields.len() == 0 {
            let ghost before_e = diags_view(errors@);
            errors.push(
                Diagnostic::new(
                    ErrorKind::NoComparableFields,
                    String::from_str(
                        "No fields to compare for CacheDiff, ensure struct has at least one named field that isn't `cache_diff(ignore)`-d",
                    ),
                    d.span,
                ),
            );
            assert(diags_view(errors@) =~= before_e + seq![no_fields_error(d.span)]);
        } else {
            assert(diags_view(errors@) =~= diags_view(errors@) + seq![]);
        }
        assert(diags_view(errors@) == record_errors(*d));
        if errors.len() > 0 {
            Err(combine(errors))
        } else {
            Ok(TypeDescriptor { name: d.name.clone(), custom, fields })
        }
    }
}

} // verus!
