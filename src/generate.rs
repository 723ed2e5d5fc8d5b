//! The comparison procedure of a resolved record: what it returns for two instances, and the
//! source text of the trait implementation that performs it.

use crate::container::{actives_view, TypeDescriptor, TypeDescriptorView};
use crate::field::ActiveFieldView;
use vstd::prelude::*;

verus! {

/// How a value is set apart in a difference entry.
#[derive(Clone, Copy, PartialEq, Eq, Debug, Structural)]
pub enum ValueStyle {
    /// In backticks.
    Backticks,
    /// In backticks and coloured for a terminal.
    Terminal,
}

/// What `bullet_stream::style::value` makes of a text.
pub uninterp spec fn styled_value_of(s: Seq<char>) -> Seq<char>;

/// Relies on bullet_stream::style::value: the text coloured for a terminal, in backticks.
#[verifier::external_body]
fn styled_value(s: &str) -> (r: String)
    ensures
        r@ == styled_value_of(s@),
{
    bullet_stream::style::value(s)
}

pub open spec fn wrap_value(style: ValueStyle, v: Seq<char>) -> Seq<char> {
    match style {
        ValueStyle::Backticks => "`"@ + v + "`"@,
        ValueStyle::Terminal => styled_value_of(v),
    }
}

/// Sets a value apart in the given style.
pub fn fmt_value(style: ValueStyle, v: &str) -> (r: String)
    ensures
        r@ == wrap_value(style, v@),
{
    match style {
        ValueStyle::Backticks => {
            let mut s = String::from_str("`");
            s.append(v);
            s.append("`");
            s
        },
        ValueStyle::Terminal => styled_value(v),
    }
}

/// What the comparison observed of one declared field: whether the two values differ by the
/// field type's own equality, and each value as the field's format function renders it.
#[derive(Debug)]
pub struct Reading {
    pub changed: bool,
    pub previous: String,
    pub current: String,
}

pub open spec fn strings_view(s: Seq<String>) -> Seq<Seq<char>> {
    s.map_values(|x: String| x@)
}

/// The entry for a field whose value changed.
pub open spec fn change_entry(label: Seq<char>, before: Seq<char>, after: Seq<char>) -> Seq<char> {
    label + " ("@ + before + " to "@ + after + ")"@
}

/// What active field `a` contributes.
pub open spec fn field_entry(a: ActiveFieldView, readings: Seq<Reading>, style: ValueStyle) -> Seq<
    Seq<char>,
> {
    let rd = readings[a.index as int];
    if rd.changed {
        seq![change_entry(a.label, wrap_value(style, rd.previous@), wrap_value(style, rd.current@))]
    } else {
        seq![]
    }
}

/// The entries of the first `n` active fields, in their order.
pub open spec fn field_entries(
    fields: Seq<ActiveFieldView>,
    readings: Seq<Reading>,
    style: ValueStyle,
    n: int,
) -> Seq<Seq<char>>
    decreases n,
{
    if n <= 0 {
        seq![]
    } else {
        field_entries(fields, readings, style, n - 1) + field_entry(fields[n - 1], readings, style)
    }
}

/// The differences between two instances: the custom function's entries first, where the
/// record has one, then one entry per changed active field in declaration order.
pub open spec fn diff_spec(
    desc: TypeDescriptorView,
    custom_entries: Seq<Seq<char>>,
    readings: Seq<Reading>,
    style: ValueStyle,
) -> Seq<Seq<char>> {
    (if desc.custom is Some {
        custom_entries
    } else {
        seq![]
    }) + field_entries(desc.fields, readings, style, desc.fields.len() as int)
}

/// Every active field has a reading.
pub open spec fn readings_cover(fields: Seq<ActiveFieldView>, readings: Seq<Reading>) -> bool {
    forall|k: int| 0 <= k < fields.len() ==> (#[trigger] fields[k]).index < readings.len()
}

/// Builds `label (before to after)`.
pub fn change_text(label: &str, before: &str, after: &str) -> (r: String)
    ensures
        r@ == change_entry(label@, before@, after@),
{
    let mut s = String::from_str(label);
    s.append(" (");
    s.append(before);
    s.append(" to ");
    s.append(after);
    s.append(")");
    s
}

impl TypeDescriptor {
    /// The differences between two instances of the record, given what its custom function
    /// returned (`custom_entries`, used only where the record has one) and a reading of each
    /// declared field.
    pub fn diff(&self, custom_entries: Vec<String>, readings: &Vec<Reading>, style: ValueStyle) -> (r:
        Vec<String>)
        requires
            readings_cover(actives_view(self.fields@), readings@),
        ensures
            strings_view(r@) == diff_spec(self@, strings_view(custom_entries@), readings@, style),
    {
        let ghost fv = actives_view(self.fields@);
        let mut out: Vec<String> = if self.custom.is_some() {
            custom_entries
        } else {
            Vec::new()
        };
        let ghost head = strings_view(out@);
        assert(head =~= (if self@.custom is Some {
            strings_view(custom_entries@)
        } else {
            seq![]
        }));
        let mut k: usize = 0;
        assert(strings_view(out@) =~= head + field_entries(fv, readings@, style, 0));
        while k < self.fields.len()
            invariant
                k <= self.fields.len(),
                fv == actives_view(self.fields@),
                readings_cover(fv, readings@),
                strings_view(out@) == head + field_entries(fv, readings@, style, k as int),
            decreases self.fields.len() - k,
        {
            let a = &self.fields[k];
            assert(fv[k as int] == a@);
            let rd = &readings[a.index];
            let ghost before = strings_view(out@);
            if rd.changed {
                let before_text = fmt_value(style, rd.previous.as_str());
                let after_text = fmt_value(style, rd.current.as_str());
                let e = change_text(a.label.as_str(), before_text.as_str(), after_text.as_str());
                out.push(e);
                assert(strings_view(out@) =~= before.push(e@));
            }
            assert(strings_view(out@) =~= head + field_entries(fv, readings@, style, k + 1));
            k = k + 1;
        }
        out
    }
}

} // verus!
