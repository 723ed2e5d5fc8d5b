//! What holds of every record: the laws of resolution and of the comparison procedure.

use crate::annotation::{AnnotationView, Key, Scope};
use crate::container::{
    actives, container_result, custom_of, field_active, field_errors, fields_errors,
    missing_hook_error, no_fields_error, record_errors, RecordDecl, TypeDescriptorView,
};
use crate::diagnostic::DiagnosticView;
use crate::field::{
    conflict_error, field_result, is_path_buffer, ActiveFieldView,
    FieldDescriptorView, FormatRefView, RawField,
};
use crate::generate::{diff_spec, field_entries, field_entry, readings_cover, Reading, ValueStyle};
use crate::lookup::{
    blocks_anns, duplicate_error, duplicate_errors, last_with_key, lemma_last_with_key_range,
    lookup_errors, previous_note,
};
use vstd::prelude::*;

verus! {

/// An annotation with key `k` and value `v` is among `anns`.
pub open spec fn has_annotation(anns: Seq<AnnotationView>, k: Key, v: Option<Seq<char>>) -> bool {
    exists|p: int| 0 <= p < anns.len() && #[trigger] anns[p].key == k && anns[p].value == v
}

/// Some annotation with key `k` is among `anns`.
pub open spec fn has_key(anns: Seq<AnnotationView>, k: Key) -> bool {
    exists|p: int| 0 <= p < anns.len() && #[trigger] anns[p].key == k
}

proof fn lemma_last_at_least(anns: Seq<AnnotationView>, i: int, k: Key, p: int)
    requires
        0 <= p < i <= anns.len(),
        anns[p].key == k,
    ensures
        last_with_key(anns, i, k) >= p,
    decreases i,
{
    if anns[i - 1].key != k {
        lemma_last_at_least(anns, i - 1, k, p);
    }
}

proof fn lemma_no_duplicates(anns: Seq<AnnotationView>, n: int)
    requires
        0 <= n <= anns.len(),
        duplicate_errors(anns, n).len() == 0,
    ensures
        forall|i: int| 0 <= i < n ==> last_with_key(anns, i, #[trigger] anns[i].key) == -1,
    decreases n,
{
    if n > 0 {
        let a = anns[n - 1];
        lemma_last_with_key_range(anns, n - 1, a.key);
        if last_with_key(anns, n - 1, a.key) >= 0 {
            assert(duplicate_errors(anns, n).len() >= 2);
        }
        lemma_no_duplicates(anns, n - 1);
    }
}

/// Where no key is given twice, the annotation with key `k` is the last one with it.
proof fn lemma_unique_position(anns: Seq<AnnotationView>, k: Key, p: int)
    requires
        duplicate_errors(anns, anns.len() as int).len() == 0,
        0 <= p < anns.len(),
        anns[p].key == k,
    ensures
        last_with_key(anns, anns.len() as int, k) == p,
{
    let n = anns.len() as int;
    lemma_no_duplicates(anns, n);
    lemma_last_with_key_range(anns, n, k);
    lemma_last_at_least(anns, n, k, p);
    let q = last_with_key(anns, n, k);
    if q > p {
        lemma_last_at_least(anns, q, k, p);
        assert(last_with_key(anns, q, anns[q].key) == -1);
    }
}

proof fn lemma_absent_key(anns: Seq<AnnotationView>, i: int, k: Key)
    requires
        0 <= i <= anns.len(),
        !has_key(anns, k),
    ensures
        last_with_key(anns, i, k) == -1,
    decreases i,
{
    if i > 0 {
        assert(anns[i - 1].key != k);
        lemma_absent_key(anns, i - 1, k);
    }
}

/// A field that resolves to an active field takes its position and its name with it.
proof fn lemma_active_field(f: RawField, index: usize)
    ensures
        field_result(f, index) matches Ok(FieldDescriptorView::Active(a)) ==> a.index == index
            && a.ident == f.name@,
{
}

/// The active fields among the first `n` come from those fields, in declaration order.
pub proof fn lemma_actives(d: RecordDecl, n: int)
    requires
        0 <= n <= d.fields@.len(),
    ensures
        forall|k: int|
            0 <= k < actives(d, n).len() ==> {
                let a = #[trigger] actives(d, n)[k];
                &&& a.index < n
                &&& field_result(d.fields@[a.index as int], a.index) == Ok::<
                    _,
                    Seq<DiagnosticView>,
                >(FieldDescriptorView::Active(a))
            },
        forall|k1: int, k2: int|
            0 <= k1 < k2 < actives(d, n).len() ==> #[trigger] actives(d, n)[k1].index
                < #[trigger] actives(d, n)[k2].index,
    decreases n,
{
    if n > 0 {
        lemma_actives(d, n - 1);
        assert(d.fields@.len() == d.fields.len());
        assert((n - 1) as usize as int == n - 1);
        lemma_active_field(d.fields@[n - 1], (n - 1) as usize);
        let prev = actives(d, n - 1);
        let cur = actives(d, n);
        assert(cur == prev + field_active(d, n - 1));
        assert forall|k: int| 0 <= k < cur.len() implies {
            let a = #[trigger] cur[k];
            &&& a.index < n
            &&& field_result(d.fields@[a.index as int], a.index) == Ok::<
                _,
                Seq<DiagnosticView>,
            >(FieldDescriptorView::Active(a))
        } by {
            if k < prev.len() {
                assert(cur[k] == prev[k]);
                let a = prev[k];
                assert(a.index < n - 1);
            } else {
                assert(field_active(d, n - 1).len() > 0);
                assert(cur[k] == field_active(d, n - 1)[0]);
            }
        }
        assert forall|k1: int, k2: int| 0 <= k1 < k2 < cur.len() implies #[trigger] cur[k1].index
            < #[trigger] cur[k2].index by {
            assert(cur[k1] == prev[k1]);
            let a1 = prev[k1];
            assert(a1.index < n - 1);
            if k2 < prev.len() {
                assert(cur[k2] == prev[k2]);
            } else {
                assert(cur[k2] == field_active(d, n - 1)[0]);
            }
        }
    }
}

/// Resolution keeps the fields in declaration order: each active field of the descriptor
/// stands at a later declared position than the one before it, and carries that field's name.
pub proof fn lemma_declaration_order(d: RecordDecl)
    requires
        container_result(d) is Ok,
    ensures
        ({
            let desc = container_result(d)->Ok_0;
            &&& forall|k1: int, k2: int|
                0 <= k1 < k2 < desc.fields.len() ==> #[trigger] desc.fields[k1].index
                    < #[trigger] desc.fields[k2].index
            &&& forall|k: int|
                0 <= k < desc.fields.len() ==> (#[trigger] desc.fields[k]).index < d.fields@.len()
                    && desc.fields[k].ident == d.fields@[desc.fields[k].index as int].name@
        }),
{
    let n = d.fields@.len() as int;
    lemma_actives(d, n);
    let desc = container_result(d)->Ok_0;
    assert forall|k: int| 0 <= k < desc.fields.len() implies (#[trigger] desc.fields[k]).index
        < d.fields@.len() && desc.fields[k].ident == d.fields@[desc.fields[k].index as int].name@ by {
        let a = actives(d, n)[k];
        lemma_active_field(d.fields@[a.index as int], a.index);
    }
}

/// The custom function's entries come first, then one entry per changed active field, in the
/// descriptor's order.
pub proof fn lemma_custom_entries_first(
    desc: TypeDescriptorView,
    custom_entries: Seq<Seq<char>>,
    readings: Seq<Reading>,
    style: ValueStyle,
)
    requires
        desc.custom is Some,
    ensures
        diff_spec(desc, custom_entries, readings, style).take(custom_entries.len() as int)
            == custom_entries,
        diff_spec(desc, custom_entries, readings, style).skip(custom_entries.len() as int)
            == field_entries(desc.fields, readings, style, desc.fields.len() as int),
{
    let r = diff_spec(desc, custom_entries, readings, style);
    assert(r.take(custom_entries.len() as int) =~= custom_entries);
    assert(r.skip(custom_entries.len() as int) =~= field_entries(
        desc.fields,
        readings,
        style,
        desc.fields.len() as int,
    ));
}

proof fn lemma_unchanged_entries(
    fields: Seq<ActiveFieldView>,
    readings: Seq<Reading>,
    style: ValueStyle,
    n: int,
)
    requires
        0 <= n <= fields.len(),
        readings_cover(fields, readings),
        forall|j: int| 0 <= j < readings.len() ==> !(#[trigger] readings[j]).changed,
    ensures
        field_entries(fields, readings, style, n) == Seq::<Seq<char>>::empty(),
    decreases n,
{
    if n > 0 {
        lemma_unchanged_entries(fields, readings, style, n - 1);
        let a = fields[n - 1];
        assert(!readings[a.index as int].changed);
        assert(field_entries(fields, readings, style, n) =~= Seq::<Seq<char>>::empty());
    }
}

/// When no field changed, there is no difference, unless the custom function reports one.
pub proof fn lemma_identical_no_difference(
    desc: TypeDescriptorView,
    custom_entries: Seq<Seq<char>>,
    readings: Seq<Reading>,
    style: ValueStyle,
)
    requires
        readings_cover(desc.fields, readings),
        forall|j: int| 0 <= j < readings.len() ==> !(#[trigger] readings[j]).changed,
        desc.custom is None || custom_entries.len() == 0,
    ensures
        diff_spec(desc, custom_entries, readings, style) == Seq::<Seq<char>>::empty(),
{
    lemma_unchanged_entries(desc.fields, readings, style, desc.fields.len() as int);
    assert(diff_spec(desc, custom_entries, readings, style) =~= Seq::<Seq<char>>::empty());
}

proof fn lemma_entries_ignore_position(
    fields: Seq<ActiveFieldView>,
    r1: Seq<Reading>,
    r2: Seq<Reading>,
    style: ValueStyle,
    j: int,
    n: int,
)
    requires
        0 <= n <= fields.len(),
        r1.len() == r2.len(),
        readings_cover(fields, r1),
        forall|k: int| 0 <= k < fields.len() ==> (#[trigger] fields[k]).index != j,
        forall|i: int| 0 <= i < r1.len() && i != j ==> #[trigger] r1[i] == r2[i],
    ensures
        field_entries(fields, r1, style, n) == field_entries(fields, r2, style, n),
    decreases n,
{
    if n > 0 {
        lemma_entries_ignore_position(fields, r1, r2, style, j, n - 1);
        let a = fields[n - 1];
        assert(a.index != j);
        assert(a.index < r1.len());
        assert(r1[a.index as int] == r2[a.index as int]);
        assert(field_entry(a, r1, style) == field_entry(a, r2, style));
    }
}

/// An ignored field never contributes an entry: two readings that differ only at an ignored
/// field give the same differences.
pub proof fn lemma_ignored_field_silent(
    d: RecordDecl,
    j: int,
    custom_entries: Seq<Seq<char>>,
    r1: Seq<Reading>,
    r2: Seq<Reading>,
    style: ValueStyle,
)
    requires
        container_result(d) is Ok,
        0 <= j < d.fields@.len(),
        field_result(d.fields@[j], j as usize) matches Ok(FieldDescriptorView::IgnoredCustom)
            || field_result(d.fields@[j], j as usize) matches Ok(FieldDescriptorView::IgnoredOther),
        r1.len() == d.fields@.len(),
        r2.len() == d.fields@.len(),
        forall|i: int| 0 <= i < r1.len() && i != j ==> #[trigger] r1[i] == r2[i],
    ensures
        diff_spec(container_result(d)->Ok_0, custom_entries, r1, style) == diff_spec(
            container_result(d)->Ok_0,
            custom_entries,
            r2,
            style,
        ),
{
    let n = d.fields@.len() as int;
    let desc = container_result(d)->Ok_0;
    lemma_actives(d, n);
    assert forall|k: int| 0 <= k < desc.fields.len() implies (#[trigger] desc.fields[k]).index
        != j by {
        let a = desc.fields[k];
        if a.index == j {
            assert(field_result(d.fields@[j], j as usize) == Ok::<_, Seq<DiagnosticView>>(
                FieldDescriptorView::Active(a),
            ));
        }
    }
    assert forall|k: int| 0 <= k < desc.fields.len() implies (#[trigger] desc.fields[k]).index
        < r1.len() by {
        let a = desc.fields[k];
    }
    lemma_entries_ignore_position(desc.fields, r1, r2, style, j, desc.fields.len() as int);
}

/// A field renamed to `x` is shown under the label `x`.
pub proof fn lemma_rename_label(f: RawField, index: usize, x: Seq<char>)
    requires
        field_result(f, index) is Ok,
        has_annotation(blocks_anns(f.attrs@, Scope::Field), Key::Rename, Some(x)),
    ensures
        field_result(f, index) matches Ok(FieldDescriptorView::Active(a)) && a.label == x,
{
    let anns = blocks_anns(f.attrs@, Scope::Field);
    let p = choose|p: int| 0 <= p < anns.len() && #[trigger] anns[p].key == Key::Rename
        && anns[p].value == Some(x);
    lemma_unique_position(anns, Key::Rename, p);
}

/// A field displayed through `g` renders its values through `g`.
pub proof fn lemma_display_function(f: RawField, index: usize, g: Seq<char>)
    requires
        field_result(f, index) is Ok,
        has_annotation(blocks_anns(f.attrs@, Scope::Field), Key::Display, Some(g)),
    ensures
        field_result(f, index) matches Ok(FieldDescriptorView::Active(a)) && a.format
            == FormatRefView::Function(g),
{
    let anns = blocks_anns(f.attrs@, Scope::Field);
    let p = choose|p: int| 0 <= p < anns.len() && #[trigger] anns[p].key == Key::Display
        && anns[p].value == Some(g);
    lemma_unique_position(anns, Key::Display, p);
}

/// A field whose annotations read cleanly, with neither `display` nor `ignore`, is active and
/// renders its values by default: through the path display for a path buffer, as themselves
/// otherwise.
pub proof fn lemma_path_buffer_display(f: RawField, index: usize)
    requires
        lookup_errors(f.attrs@, Scope::Field).len() == 0,
        !has_key(blocks_anns(f.attrs@, Scope::Field), Key::Display),
        !has_key(blocks_anns(f.attrs@, Scope::Field), Key::Ignore),
    ensures
        field_result(f, index) matches Ok(FieldDescriptorView::Active(a)) && a.format == if is_path_buffer(
            f.ty,
        ) {
            FormatRefView::PathDisplay
        } else {
            FormatRefView::Identity
        },
{
    let anns = blocks_anns(f.attrs@, Scope::Field);
    lemma_absent_key(anns, anns.len() as int, Key::Display);
    lemma_absent_key(anns, anns.len() as int, Key::Ignore);
}

/// A field whose annotations read cleanly and are `ignore = "custom"` without `rename` or
/// `display` is delegated to the record's custom function.
pub proof fn lemma_ignore_custom_field(f: RawField, index: usize)
    requires
        lookup_errors(f.attrs@, Scope::Field).len() == 0,
        has_annotation(blocks_anns(f.attrs@, Scope::Field), Key::Ignore, Some("custom"@)),
        !has_key(blocks_anns(f.attrs@, Scope::Field), Key::Rename),
        !has_key(blocks_anns(f.attrs@, Scope::Field), Key::Display),
    ensures
        field_result(f, index) == Ok::<_, Seq<DiagnosticView>>(FieldDescriptorView::IgnoredCustom),
{
    let anns = blocks_anns(f.attrs@, Scope::Field);
    let p = choose|p: int| 0 <= p < anns.len() && #[trigger] anns[p].key == Key::Ignore
        && anns[p].value == Some("custom"@);
    lemma_unique_position(anns, Key::Ignore, p);
    lemma_absent_key(anns, anns.len() as int, Key::Rename);
    lemma_absent_key(anns, anns.len() as int, Key::Display);
}

/// `ignore` beside `rename` or `display` on one field is a conflict.
pub proof fn lemma_ignore_conflicts(f: RawField, index: usize)
    requires
        lookup_errors(f.attrs@, Scope::Field).len() == 0,
        has_key(blocks_anns(f.attrs@, Scope::Field), Key::Ignore),
        has_key(blocks_anns(f.attrs@, Scope::Field), Key::Rename) || has_key(
            blocks_anns(f.attrs@, Scope::Field),
            Key::Display,
        ),
    ensures
        field_result(f, index) == Err::<FieldDescriptorView, _>(seq![conflict_error(f.span)]),
{
    let anns = blocks_anns(f.attrs@, Scope::Field);
    let n = anns.len() as int;
    let pi = choose|p: int| 0 <= p < anns.len() && #[trigger] anns[p].key == Key::Ignore;
    lemma_unique_position(anns, Key::Ignore, pi);
    if has_key(anns, Key::Rename) {
        let pr = choose|p: int| 0 <= p < anns.len() && #[trigger] anns[p].key == Key::Rename;
        lemma_unique_position(anns, Key::Rename, pr);
    } else {
        let pd = choose|p: int| 0 <= p < anns.len() && #[trigger] anns[p].key == Key::Display;
        lemma_unique_position(anns, Key::Display, pd);
    }
}

proof fn lemma_fields_errors_contain(d: RecordDecl, n: int, j: int)
    requires
        0 <= j < n <= d.fields@.len(),
    ensures
        forall|e: DiagnosticView|
            field_errors(d, j).contains(e) ==> #[trigger] fields_errors(d, n).contains(e),
    decreases n,
{
    let prev = fields_errors(d, n - 1);
    let cur = fields_errors(d, n);
    assert(cur == prev + field_errors(d, n - 1));
    if j < n - 1 {
        lemma_fields_errors_contain(d, n - 1, j);
        assert forall|e: DiagnosticView| field_errors(d, j).contains(e) implies #[trigger] cur.contains(
            e,
        ) by {
            assert(prev.contains(e));
            let i = choose|i: int| 0 <= i < prev.len() && prev[i] == e;
            assert(cur[i] == e);
        }
    } else {
        assert forall|e: DiagnosticView| field_errors(d, j).contains(e) implies #[trigger] cur.contains(
            e,
        ) by {
            let fj = field_errors(d, n - 1);
            assert(fj.contains(e));
            let i = choose|i: int| 0 <= i < fj.len() && fj[i] == e;
            assert(cur[prev.len() + i] == e);
        }
    }
}

/// A field delegated to the custom function, in a record without one, is reported as a
/// missing custom function, naming the field and the record.
pub proof fn lemma_missing_custom_hook(d: RecordDecl, j: int)
    requires
        d.named,
        0 <= j < d.fields@.len(),
        field_result(d.fields@[j], j as usize) matches Ok(FieldDescriptorView::IgnoredCustom),
        custom_of(d) is None,
    ensures
        container_result(d) is Err,
        container_result(d)->Err_0.contains(
            missing_hook_error(d.fields@[j].name@, d.name@, d.span),
        ),
{
    let n = d.fields@.len() as int;
    let e = missing_hook_error(d.fields@[j].name@, d.name@, d.span);
    assert(field_errors(d, j) == seq![e]);
    assert(field_errors(d, j)[0] == e);
    assert(field_errors(d, j).contains(e));
    lemma_fields_errors_contain(d, n, j);
    let fe = fields_errors(d, n);
    assert(fe.contains(e));
    let i = choose|i: int| 0 <= i < fe.len() && fe[i] == e;
    let le = lookup_errors(d.attrs@, Scope::Container);
    let tail = if actives(d, n).len() == 0 {
        seq![no_fields_error(d.span)]
    } else {
        seq![]
    };
    assert(record_errors(d) == le + fe + tail);
    assert((le + fe + tail)[le.len() + i] == e);
    assert(record_errors(d).contains(e));
    crate::diagnostic::lemma_distinct_same_entries(record_errors(d));
}

/// A record with named fields, without a custom function, with a field written
/// `ignore = "custom"` (and nothing else on it) fails, naming that field and the record.
pub proof fn lemma_delegated_field_needs_hook(d: RecordDecl, j: int)
    requires
        d.named,
        0 <= j < d.fields@.len(),
        custom_of(d) is None,
        lookup_errors(d.fields@[j].attrs@, Scope::Field).len() == 0,
        has_annotation(blocks_anns(d.fields@[j].attrs@, Scope::Field), Key::Ignore, Some("custom"@)),
        !has_key(blocks_anns(d.fields@[j].attrs@, Scope::Field), Key::Rename),
        !has_key(blocks_anns(d.fields@[j].attrs@, Scope::Field), Key::Display),
    ensures
        container_result(d) is Err,
        container_result(d)->Err_0.contains(
            missing_hook_error(d.fields@[j].name@, d.name@, d.span),
        ),
{
    lemma_ignore_custom_field(d.fields@[j], j as usize);
    lemma_missing_custom_hook(d, j);
}

proof fn lemma_no_field_errors(d: RecordDecl, n: int)
    requires
        0 <= n <= d.fields@.len(),
        custom_of(d) is Some,
        forall|i: int| 0 <= i < d.fields@.len() ==> (#[trigger] field_result(d.fields@[i], i as usize)) is Ok,
    ensures
        fields_errors(d, n).len() == 0,
    decreases n,
{
    if n > 0 {
        lemma_no_field_errors(d, n - 1);
        assert(field_result(d.fields@[n - 1], (n - 1) as usize) is Ok);
    }
}

/// With a custom function declared, fields delegated to it resolve: a record whose own
/// annotations and fields all resolve, with one field left to compare, succeeds.
pub proof fn lemma_custom_hook_present(d: RecordDecl)
    requires
        d.named,
        custom_of(d) is Some,
        lookup_errors(d.attrs@, Scope::Container).len() == 0,
        forall|i: int| 0 <= i < d.fields@.len() ==> (#[trigger] field_result(d.fields@[i], i as usize)) is Ok,
        exists|i: int|
            0 <= i < d.fields@.len() && #[trigger] field_result(d.fields@[i], i as usize) matches Ok(
                FieldDescriptorView::Active(_),
            ),
    ensures
        container_result(d) is Ok,
{
    let n = d.fields@.len() as int;
    lemma_no_field_errors(d, n);
    let i = choose|i: int|
        0 <= i < d.fields@.len() && #[trigger] field_result(d.fields@[i], i as usize) matches Ok(
            FieldDescriptorView::Active(_),
        );
    lemma_active_present(d, n, i);
}

proof fn lemma_active_present(d: RecordDecl, n: int, i: int)
    requires
        0 <= i < n <= d.fields@.len(),
        field_result(d.fields@[i], i as usize) matches Ok(FieldDescriptorView::Active(_)),
    ensures
        actives(d, n).len() > 0,
    decreases n,
{
    if i < n - 1 {
        lemma_active_present(d, n - 1, i);
    }
}

proof fn lemma_no_actives(d: RecordDecl, n: int)
    requires
        0 <= n <= d.fields@.len(),
        forall|i: int|
            0 <= i < d.fields@.len() ==> !(#[trigger] field_result(d.fields@[i], i as usize) matches Ok(
                FieldDescriptorView::Active(_),
            )),
    ensures
        actives(d, n).len() == 0,
    decreases n,
{
    if n > 0 {
        lemma_no_actives(d, n - 1);
        assert(!(field_result(d.fields@[n - 1], (n - 1) as usize) matches Ok(
            FieldDescriptorView::Active(_),
        )));
    }
}

/// A record with named fields none of which is left to compare (it has none, or all are
/// ignored) reports that there is nothing to compare.
pub proof fn lemma_no_comparable_fields(d: RecordDecl)
    requires
        d.named,
        forall|i: int|
            0 <= i < d.fields@.len() ==> !(#[trigger] field_result(d.fields@[i], i as usize) matches Ok(
                FieldDescriptorView::Active(_),
            )),
    ensures
        container_result(d) is Err,
        container_result(d)->Err_0.contains(no_fields_error(d.span)),
{
    lemma_no_actives(d, d.fields@.len() as int);
    let r = record_errors(d);
    assert(r[r.len() - 1] == no_fields_error(d.span));
    assert(r.contains(no_fields_error(d.span)));
    crate::diagnostic::lemma_distinct_same_entries(r);
}

proof fn lemma_duplicate_errors_grow(anns: Seq<AnnotationView>, m: int, n: int)
    requires
        0 <= m <= n <= anns.len(),
    ensures
        duplicate_errors(anns, n).take(duplicate_errors(anns, m).len() as int) == duplicate_errors(
            anns,
            m,
        ),
        duplicate_errors(anns, m).len() <= duplicate_errors(anns, n).len(),
    decreases n - m,
{
    if m < n {
        lemma_duplicate_errors_grow(anns, m, n - 1);
        let a = duplicate_errors(anns, n - 1);
        let b = duplicate_errors(anns, n);
        let c = duplicate_errors(anns, m);
        assert(b.take(a.len() as int) =~= a);
        assert(b.take(c.len() as int) =~= a.take(c.len() as int));
    }
}

/// A key given a second time is reported twice: at the repeated annotation, and at the latest
/// earlier annotation with that key.
pub proof fn lemma_duplicate_reported(blocks: Seq<Vec<crate::annotation::Token>>, scope: Scope, q: int)
    requires
        0 <= q < blocks_anns(blocks, scope).len(),
        last_with_key(blocks_anns(blocks, scope), q, blocks_anns(blocks, scope)[q].key) >= 0,
    ensures
        ({
            let anns = blocks_anns(blocks, scope);
            let k = anns[q].key;
            let p = last_with_key(anns, q, k);
            let errs = lookup_errors(blocks, scope);
            exists|i: int|
                0 <= i && i + 1 < errs.len() && #[trigger] errs[i] == duplicate_error(k, anns[q].span)
                    && errs[i + 1] == previous_note(k, anns[p].span)
        }),
{
    let anns = blocks_anns(blocks, scope);
    let k = anns[q].key;
    let p = last_with_key(anns, q, k);
    let n = anns.len() as int;
    lemma_duplicate_errors_grow(anns, q + 1, n);
    let before = duplicate_errors(anns, q);
    let at = duplicate_errors(anns, q + 1);
    let all = duplicate_errors(anns, n);
    assert(at == before + seq![duplicate_error(k, anns[q].span), previous_note(k, anns[p].span)]);
    let i = before.len() as int;
    assert(all[i] == at[i]);
    assert(all[i + 1] == at[i + 1]);
    let pe = crate::lookup::blocks_errors(blocks, scope);
    let errs = lookup_errors(blocks, scope);
    assert(errs[pe.len() + i] == duplicate_error(k, anns[q].span));
    assert(errs[pe.len() + i + 1] == previous_note(k, anns[p].span));
}

} // verus!
