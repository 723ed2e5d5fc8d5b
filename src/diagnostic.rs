//! Configuration errors, reported together as one ordered list.

use vstd::prelude::*;

verus! {

/// What went wrong with a record's configuration.
#[derive(Clone, Copy, PartialEq, Eq, Debug, Structural)]
pub enum ErrorKind {
    /// An annotation block that does not follow the grammar.
    Syntax,
    /// A key that is not recognized in the scope it stands in.
    UnknownAttributeKey,
    /// The same key given twice for one item.
    DuplicateAttribute,
    /// `ignore` together with `rename` or `display`.
    ConflictingAttributes,
    /// A field delegated to a custom function that the record does not declare.
    MissingCustomHook,
    /// No field is left to compare.
    NoComparableFields,
    /// The record does not have named fields.
    UnsupportedShape,
}

/// One message, attached to the location (span) of the source item it is about.
#[derive(Debug)]
pub struct Diagnostic {
    pub kind: ErrorKind,
    pub message: String,
    pub span: usize,
}

/// The mathematical value of a [`Diagnostic`].
pub ghost struct DiagnosticView {
    pub kind: ErrorKind,
    pub message: Seq<char>,
    pub span: usize,
}

impl View for Diagnostic {
    type V = DiagnosticView;

    open spec fn view(&self) -> DiagnosticView {
        DiagnosticView { kind: self.kind, message: self.message@, span: self.span }
    }
}

/// The views of a list of diagnostics.
pub open spec fn diags_view(d: Seq<Diagnostic>) -> Seq<DiagnosticView> {
    d.map_values(|x: Diagnostic| x@)
}

impl Diagnostic {
    pub fn new(kind: ErrorKind, message: String, span: usize) -> (r: Diagnostic)
        ensures
            r@ == (DiagnosticView { kind, message: message@, span }),
    {
        Diagnostic { kind, message, span }
    }
}

/// The list with every exact repetition of an earlier entry left out.
pub open spec fn distinct(s: Seq<DiagnosticView>) -> Seq<DiagnosticView>
    decreases s.len(),
{
    if s.len() == 0 {
        seq![]
    } else {
        let r = distinct(s.drop_last());
        if r.contains(s.last()) {
            r
        } else {
            r.push(s.last())
        }
    }
}

/// Leaving out repetitions loses no diagnostic and adds none.
pub proof fn lemma_distinct_same_entries(s: Seq<DiagnosticView>)
    ensures
        forall|e: DiagnosticView| s.contains(e) <==> #[trigger] distinct(s).contains(e),
    decreases s.len(),
{
    if s.len() > 0 {
        let p = s.drop_last();
        lemma_distinct_same_entries(p);
        let r = distinct(p);
        assert forall|e: DiagnosticView| s.contains(e) <==> #[trigger] distinct(s).contains(e) by {
            if s.contains(e) {
                let i = choose|i: int| 0 <= i < s.len() && s[i] == e;
                if i < s.len() - 1 {
                    assert(p[i] == e);
                    assert(p.contains(e));
                    assert(r.contains(e));
                    if !r.contains(s.last()) {
                        let j = choose|j: int| 0 <= j < r.len() && r[j] == e;
                        assert(r.push(s.last())[j] == e);
                    }
                } else if !r.contains(s.last()) {
                    assert(r.push(s.last())[r.len() as int] == e);
                }
            }
            if distinct(s).contains(e) {
                let j = choose|j: int| 0 <= j < distinct(s).len() && distinct(s)[j] == e;
                if r.contains(s.last()) {
                    assert(r.contains(e));
                    assert(p.contains(e));
                    let i = choose|i: int| 0 <= i < p.len() && p[i] == e;
                    assert(s[i] == e);
                } else if j < r.len() {
                    assert(r[j] == e);
                    assert(r.contains(e));
                    assert(p.contains(e));
                    let i = choose|i: int| 0 <= i < p.len() && p[i] == e;
                    assert(s[i] == e);
                } else {
                    assert(s[s.len() - 1] == e);
                }
            }
        }
    }
}

fn same_diagnostic(a: &Diagnostic, b: &Diagnostic) -> (r: bool)
    ensures
        r == (a@ == b@),
{
    a.kind == b.kind && a.span == b.span && a.message == b.message
}

fn holds(v: &Vec<Diagnostic>, d: &Diagnostic) -> (r: bool)
    ensures
        r == diags_view(v@).contains(d@),
{
    let ghost dv = diags_view(v@);
    let mut j: usize = 0;
    while j < v.len()
        invariant
            j <= v.len(),
            dv == diags_view(v@),
            forall|k: int| 0 <= k < j ==> dv[k] != d@,
        decreases v.len() - j,
    {
        if same_diagnostic(&v[j], d) {
            assert(dv[j as int] == d@);
            return true;
        }
        j = j + 1;
    }
    false
}

/// Combines diagnostics raised independently into one report: each one kept, in order, once.
pub fn combine(errors: Vec<Diagnostic>) -> (r: Vec<Diagnostic>)
    ensures
        diags_view(r@) == distinct(diags_view(errors@)),
{
    let ghost ev = diags_view(errors@);
    let mut out: Vec<Diagnostic> = Vec::new();
    let mut i: usize = 0;
    assert(diags_view(out@) =~= distinct(ev.take(0)));
    while i < errors.len()
        invariant
            i <= errors.len(),
            ev == diags_view(errors@),
            diags_view(out@) == distinct(ev.take(i as int)),
        decreases errors.len() - i,
    {
        let d = &errors[i];
        assert(ev.take(i + 1).drop_last() =~= ev.take(i as int));
        assert(ev.take(i + 1).last() == d@);
        if !holds(&out, d) {
            let ghost before = diags_view(out@);
            out.push(Diagnostic::new(d.kind, d.message.clone(), d.span));
            assert(diags_view(out@) =~= before.push(d@));
        }
        i = i + 1;
    }
    assert(ev.take(errors.len() as int) =~= ev);
    out
}

} // verus!
