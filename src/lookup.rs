//! Gathers the annotations of one item (the record or one field) from all of its blocks and
//! checks that no key is given twice.

use crate::annotation::{
    anns_view, block_spec, key_name, parse_block, Annotation, AnnotationView, Key, Scope, Token,
};
use crate::diagnostic::{diags_view, Diagnostic, DiagnosticView, ErrorKind};
use vstd::prelude::*;

verus! {

/// The annotations of the blocks that parse, in order.
pub open spec fn blocks_anns(blocks: Seq<Vec<Token>>, scope: Scope) -> Seq<AnnotationView>
    decreases blocks.len(),
{
    if blocks.len() == 0 {
        seq![]
    } else {
        blocks_anns(blocks.drop_last(), scope) + match block_spec(blocks.last()@, scope) {
            Ok(a) => a,
            Err(_) => seq![],
        }
    }
}

/// The error of each block that does not parse, in order.
pub open spec fn blocks_errors(blocks: Seq<Vec<Token>>, scope: Scope) -> Seq<DiagnosticView>
    decreases blocks.len(),
{
    if blocks.len() == 0 {
        seq![]
    } else {
        blocks_errors(blocks.drop_last(), scope) + match block_spec(blocks.last()@, scope) {
            Ok(_) => seq![],
            Err(e) => seq![e],
        }
    }
}

/// The position of the last annotation with key `k` among the first `i`, or -1.
pub open spec fn last_with_key(anns: Seq<AnnotationView>, i: int, k: Key) -> int
    decreases i,
{
    if i <= 0 {
        -1
    } else if anns[i - 1].key == k {
        i - 1
    } else {
        last_with_key(anns, i - 1, k)
    }
}

pub open spec fn duplicate_error(k: Key, span: usize) -> DiagnosticView {
    DiagnosticView {
        kind: ErrorKind::DuplicateAttribute,
        message: "CacheDiff duplicate attribute: `"@ + key_name(k) + "`"@,
        span,
    }
}

pub open spec fn previous_note(k: Key, span: usize) -> DiagnosticView {
    DiagnosticView {
        kind: ErrorKind::DuplicateAttribute,
        message: "previously `"@ + key_name(k) + "` defined here"@,
        span,
    }
}

/// For each of the first `n` annotations whose key came before: an error at it, followed by a
/// note at the latest earlier annotation with that key.
pub open spec fn duplicate_errors(anns: Seq<AnnotationView>, n: int) -> Seq<DiagnosticView>
    decreases n,
{
    if n <= 0 {
        seq![]
    } else {
        let a = anns[n - 1];
        let p = last_with_key(anns, n - 1, a.key);
        if p >= 0 {
            duplicate_errors(anns, n - 1) + seq![
                duplicate_error(a.key, a.span),
                previous_note(a.key, anns[p].span),
            ]
        } else {
            duplicate_errors(anns, n - 1)
        }
    }
}

/// Every problem with the annotations of one item.
pub open spec fn lookup_errors(blocks: Seq<Vec<Token>>, scope: Scope) -> Seq<DiagnosticView> {
    let anns = blocks_anns(blocks, scope);
    blocks_errors(blocks, scope) + duplicate_errors(anns, anns.len() as int)
}

pub proof fn lemma_last_with_key_range(anns: Seq<AnnotationView>, i: int, k: Key)
    requires
        0 <= i <= anns.len(),
    ensures
        -1 <= last_with_key(anns, i, k) < i,
        last_with_key(anns, i, k) >= 0 ==> anns[last_with_key(anns, i, k)].key == k,
    decreases i,
{
    if i > 0 && anns[i - 1].key != k {
        lemma_last_with_key_range(anns, i - 1, k);
    }
}

/// Finds the last of the first `i` annotations with key `k`.
pub fn find_last(anns: &Vec<Annotation>, i: usize, k: Key) -> (r: Option<usize>)
    requires
        i <= anns.len(),
    ensures
        match r {
            Some(p) => last_with_key(anns_view(anns@), i as int, k) == p as int,
            None => last_with_key(anns_view(anns@), i as int, k) == -1,
        },
{
    let ghost v = anns_view(anns@);
    let mut j: usize = i;
    while j > 0
        invariant
            j <= i <= anns.len(),
            v == anns_view(anns@),
            last_with_key(v, i as int, k) == last_with_key(v, j as int, k),
        decreases j,
    {
        if anns[j - 1].key == k {
            return Some(j - 1);
        }
        j = j - 1;
    }
    None
}

fn key_message(prefix: &str, k: Key, suffix: &str) -> (r: String)
    ensures
        r@ == prefix@ + key_name(k) + suffix@,
{
    let mut m = String::from_str(prefix);
    m.append(k.name());
    m.append(suffix);
    m
}

/// Parses every block of one item and checks for keys given twice: the annotations of the
/// blocks that parse, and every problem found.
pub fn gather_annotations(blocks: &Vec<Vec<Token>>, scope: Scope) -> (r: (
    Vec<Annotation>,
    Vec<Diagnostic>,
))
    ensures
        anns_view(r.0@) == blocks_anns(blocks@, scope),
        diags_view(r.1@) == lookup_errors(blocks@, scope),
{
    let mut anns: Vec<Annotation> = Vec::new();
    let mut errors: Vec<Diagnostic> = Vec::new();
    let mut b: usize = 0;
    assert(anns_view(anns@) =~= seq![]);
    assert(diags_view(errors@) =~= seq![]);
    while b < blocks.len()
        invariant
            b <= blocks.len(),
            anns_view(anns@) == blocks_anns(blocks@.take(b as int), scope),
            diags_view(errors@) == blocks_errors(blocks@.take(b as int), scope),
        decreases blocks.len() - b,
    {
        let ghost t = blocks@.take(b + 1);
        assert(t.drop_last() =~= blocks@.take(b as int));
        match parse_block(&blocks[b], scope) {
            Ok(mut parsed) => {
                let ghost before = anns_view(anns@);
                anns.append(&mut parsed);
                assert(anns_view(anns@) =~= before + blocks_anns(t, scope).skip(before.len() as int));
                assert(anns_view(anns@) =~= blocks_anns(t, scope));
                assert(diags_view(errors@) =~= blocks_errors(t, scope));
            },
            Err(e) => {
                let ghost before = diags_view(errors@);
                errors.push(e);
                assert(diags_view(errors@) =~= before.push(e@));
                assert(anns_view(anns@) =~= blocks_anns(t, scope));
                assert(diags_view(errors@) =~= blocks_errors(t, scope));
            },
        }
        b = b + 1;
    }
    assert(blocks@.take(blocks.len() as int) =~= blocks@);
    let ghost v = anns_view(anns@);
    let ghost parse_errors = diags_view(errors@);
    let mut n: usize = 0;
    while n < anns.len()
        invariant
            n <= anns.len(),
            v == anns_view(anns@),
            diags_view(errors@) == parse_errors + duplicate_errors(v, n as int),
        decreases anns.len() - n,
    {
        let k = anns[n].key;
        match find_last(&anns, n, k) {
            Some(p) => {
                proof {
                    lemma_last_with_key_range(v, n as int, k);
                }
                let ghost before = diags_view(errors@);
                let d1 = Diagnostic::new(
                    ErrorKind::DuplicateAttribute,
                    key_message("CacheDiff duplicate attribute: `", k, "`"),
                    anns[n].span,
                );
                let d2 = Diagnostic::new(
                    ErrorKind::DuplicateAttribute,
                    key_message("previously `", k, "` defined here"),
                    anns[p].span,
                );
                errors.push(d1);
                errors.push(d2);
                assert(diags_view(errors@) =~= before + seq![d1@, d2@]);
            },
            None => {},
        }
        n = n + 1;
    }
    (anns, errors)
}

/// The annotations of one item, or every problem found with them.
pub fn attribute_lookup(blocks: &Vec<Vec<Token>>, scope: Scope) -> (r: Result<
    Vec<Annotation>,
    Vec<Diagnostic>,
>)
    ensures
        match r {
            Ok(a) => lookup_errors(blocks@, scope).len() == 0 && anns_view(a@) == blocks_anns(
                blocks@,
                scope,
            ),
            Err(e) => lookup_errors(blocks@, scope).len() > 0 && diags_view(e@) == lookup_errors(
                blocks@,
                scope,
            ),
        },
{
    let (anns, errors) = gather_annotations(blocks, scope);
    if errors.len() == 0 {
        Ok(anns)
    } else {
        Err(errors)
    }
}

} // verus!
