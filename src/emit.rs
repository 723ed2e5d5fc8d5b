//! The source text of the `CacheDiff` implementation that a resolved record receives.

use crate::container::{actives_view, container_result, RecordDecl, TypeDescriptor, TypeDescriptorView};
use crate::diagnostic::{diags_view, Diagnostic, DiagnosticView};
use crate::field::{push_char, ActiveField, ActiveFieldView, FormatRef, FormatRefView};
use vstd::prelude::*;

verus! {

/// The record's generic parameters as the host renders them for an impl: after `impl`, after
/// the type's name, and its `where` clause. Each is empty for a record without generics.
#[derive(Debug)]
pub struct Generics {
    pub impl_part: String,
    pub type_part: String,
    pub where_part: String,
}

/// A character as written inside a string literal.
pub open spec fn escape_char(c: char) -> Seq<char> {
    if c == '"' {
        seq!['\\', '"']
    } else if c == '\\' {
        seq!['\\', '\\']
    } else if c == '\r' {
        seq!['\\', 'r']
    } else {
        seq![c]
    }
}

/// A text as written between the quotes of a string literal.
pub open spec fn escaped(s: Seq<char>) -> Seq<char>
    decreases s.len(),
{
    if s.len() == 0 {
        seq![]
    } else {
        escaped(s.drop_last()) + escape_char(s.last())
    }
}

/// The function through which a field's values are rendered.
pub open spec fn format_path(f: FormatRefView) -> Seq<char> {
    match f {
        FormatRefView::Identity => "::std::convert::identity"@,
        FormatRefView::PathDisplay => "::std::path::Path::display"@,
        FormatRefView::Function(p) => p,
    }
}

pub open spec fn custom_block(custom: Option<Seq<char>>) -> Seq<char> {
    match custom {
        Some(f) => "        let custom_diff = "@ + f
            + "(old, self);\n        for diff in &custom_diff {\n            differences.push(diff.to_string());\n        }\n"@,
        None => seq![],
    }
}

/// The comparison of one active field.
pub open spec fn comparison(a: ActiveFieldView) -> Seq<char> {
    "        if self."@ + a.ident + " != old."@ + a.ident
        + " {\n            differences.push(format!(\"{name} ({old} to {new})\", name = \""@
        + escaped(a.label) + "\", old = self.fmt_value(&"@ + format_path(a.format) + "(&old."@
        + a.ident + ").to_string()), new = self.fmt_value(&"@ + format_path(a.format)
        + "(&self."@ + a.ident + ").to_string())));\n        }\n"@
}

pub open spec fn comparisons(fields: Seq<ActiveFieldView>, n: int) -> Seq<char>
    decreases n,
{
    if n <= 0 {
        seq![]
    } else {
        comparisons(fields, n - 1) + comparison(fields[n - 1])
    }
}

/// The whole implementation.
pub open spec fn impl_source(desc: TypeDescriptorView, g: Generics) -> Seq<char> {
    "impl"@ + g.impl_part@ + " ::cache_diff::CacheDiff for "@ + desc.name + g.type_part@ + " "@
        + g.where_part@
        + " {\n    fn diff(&self, old: &Self) -> ::std::vec::Vec<String> {\n        let mut differences = ::std::vec::Vec::new();\n"@
        + custom_block(desc.custom) + comparisons(desc.fields, desc.fields.len() as int)
        + "        differences\n    }\n}\n"@
}

/// Appends `s` to `out`, written as inside a string literal.
pub fn push_escaped(out: &mut String, s: &str)
    ensures
        final(out)@ == old(out)@ + escaped(s@),
{
    let len = s.unicode_len();
    let mut i: usize = 0;
    let ghost start = out@;
    while i < len
        invariant
            len == s@.len(),
            i <= len,
            out@ == start + escaped(s@.take(i as int)),
        decreases len - i,
    {
        let c = s.get_char(i);
        let ghost before = out@;
        if c == '"' {
            push_char(out, '\\');
            push_char(out, '"');
        } else if c == '\\' {
            push_char(out, '\\');
            push_char(out, '\\');
        } else if c == '\r' {
            push_char(out, '\\');
            push_char(out, 'r');
        } else {
            push_char(out, c);
        }
        assert(s@.take(i + 1).drop_last() =~= s@.take(i as int));
        assert(out@ =~= start + escaped(s@.take(i + 1)));
        i = i + 1;
    }
    assert(s@.take(len as int) =~= s@);
}

fn format_path_of(f: &FormatRef) -> (r: &str)
    ensures
        r@ == format_path(f@),
{
    match f {
        FormatRef::Identity => "::std::convert::identity",
        FormatRef::PathDisplay => "::std::path::Path::display",
        FormatRef::Function(p) => p.as_str(),
    }
}

fn push_comparison(out: &mut String, a: &ActiveField)
    ensures
        final(out)@ == old(out)@ + comparison(a@),
{
    let id = a.ident.as_str();
    let fp = format_path_of(&a.format);
    out.append("        if self.");
    out.append(id);
    out.append(" != old.");
    out.append(id);
    out.append(" {\n            differences.push(format!(\"{name} ({old} to {new})\", name = \"");
    push_escaped(out, a.label.as_str());
    out.append("\", old = self.fmt_value(&");
    out.append(fp);
    out.append("(&old.");
    out.append(id);
    out.append(").to_string()), new = self.fmt_value(&");
    out.append(fp);
    out.append("(&self.");
    out.append(id);
    out.append(").to_string())));\n        }\n");
    assert(final(out)@ =~= old(out)@ + comparison(a@));
}

impl TypeDescriptor {
    /// The source text of the record's `CacheDiff` implementation.
    pub fn to_source(&self, g: &Generics) -> (r: String)
        ensures
            r@ == impl_source(self@, *g),
    {
        let mut out = String::from_str("impl");
        out.append(g.impl_part.as_str());
        out.append(" ::cache_diff::CacheDiff for ");
        out.append(self.name.as_str());
        out.append(g.type_part.as_str());
        out.append(" ");
        out.append(g.where_part.as_str());
        out.append(
            " {\n    fn diff(&self, old: &Self) -> ::std::vec::Vec<String> {\n        let mut differences = ::std::vec::Vec::new();\n",
        );
        match &self.custom {
            Some(f) => {
                out.append("        let custom_diff = ");
                out.append(f.as_str());
                out.append(
                    "(old, self);\n        for diff in &custom_diff {\n            differences.push(diff.to_string());\n        }\n",
                );
            },
            None => {},
        }
        let ghost head = out@;
        let ghost fv = actives_view(self.fields@);
        let mut k: usize = 0;
        assert(out@ =~= head + comparisons(fv, 0));
        while k < self.fields.len()
            invariant
                k <= self.fields.len(),
                fv == actives_view(self.fields@),
                out@ == head + comparisons(fv, k as int),
            decreases self.fields.len() - k,
        {
            assert(fv[k as int] == self.fields@[k as int]@);
            push_comparison(&mut out, &self.fields[k]);
            assert(out@ =~= head + comparisons(fv, k + 1));
            k = k + 1;
        }
        out.append("        differences\n    }\n}\n");
        assert(out@ =~= impl_source(self@, *g));
        out
    }
}

pub open spec fn source_outcome(r: Result<String, Vec<Diagnostic>>) -> Result<
    Seq<char>,
    Seq<DiagnosticView>,
> {
    match r {
        Ok(s) => Ok(s@),
        Err(e) => Err(diags_view(e@)),
    }
}

/// Resolves a record and gives the source text of its `CacheDiff` implementation, or every
/// configuration problem found in it.
pub fn create_cache_diff(d: &RecordDecl, g: &Generics) -> (r: Result<String, Vec<Diagnostic>>)
    ensures
        source_outcome(r) == match container_result(*d) {
            Ok(desc) => Ok(impl_source(desc, *g)),
            Err(e) => Err::<Seq<char>, _>(e),
        },
        r is Err ==> r->Err_0@.len() > 0,
{
    match TypeDescriptor::from_ast(d) {
        Ok(desc) => Ok(desc.to_source(g)),
        Err(e) => Err(e),
    }
}

} // verus!
