//! Reconciliation of the generated output directory.
//!
//! After a generation run the output directory must be an exact projection
//! of the current spec: every file of the current generation is present, and
//! no file of a previous generation survives once its entity is gone or
//! renamed. Only files this generator previously produced are touched;
//! unrelated files in the same directory are left alone.

use vstd::prelude::*;

verus! {

/// A file name is stale when a previous generation produced it and the
/// current one no longer does.
pub open spec fn is_stale(
    previous: Seq<Seq<char>>,
    generated: Seq<Seq<char>>,
    name: Seq<char>,
) -> bool {
    previous.contains(name) && !generated.contains(name)
}

/// Whether a listing holds a name.
fn list_contains(names: &Vec<String>, name: &String) -> (r: bool)
    ensures
        r == names.deep_view().contains(name@),
{
    let mut i: usize = 0;
    while i < names.len()
        invariant
            i <= names@.len(),
            forall|j: int| 0 <= j < i ==> names.deep_view()[j] != name@,
        decreases names@.len() - i,
    {
        if names[i] == *name {
            assert(names.deep_view()[i as int] == name@);
            return true;
        }
        i = i + 1;
    }
    false
}

/// The file names a previous generation produced that the current one no
/// longer does: exactly those must be removed from the output directory.
pub fn stale_outputs(previous: &Vec<String>, generated: &Vec<String>) -> (stale: Vec<String>)
    ensures
        stale.deep_view() == previous.deep_view().filter(
            |n: Seq<char>| !generated.deep_view().contains(n),
        ),
{
    let ghost pred = |n: Seq<char>| !generated.deep_view().contains(n);
    let mut stale: Vec<String> = Vec::new();
    let mut i: usize = 0;
    assert(previous.deep_view().take(0) =~= Seq::<Seq<char>>::empty());
    assert(stale.deep_view() =~~= previous.deep_view().take(0).filter(pred));
    while i < previous.len()
        invariant
            i <= previous@.len(),
            stale.deep_view() == previous.deep_view().take(i as int).filter(pred),
            pred == (|n: Seq<char>| !generated.deep_view().contains(n)),
        decreases previous@.len() - i,
    {
        let ghost prefix = previous.deep_view().take(i as int);
        let ghost el = previous.deep_view()[i as int];
        proof {
            assert(stale.deep_view().len() == prefix.filter(pred).len());
            assert(stale@.len() == stale.deep_view().len());
            assert(previous.deep_view().take(i + 1) =~= prefix.push(el));
            prefix.lemma_filter_push(el, pred);
        }
        if !list_contains(generated, &previous[i]) {
            stale.push(previous[i].clone());
            proof {
                assert(pred(el));
                assert(stale.deep_view() =~~= prefix.filter(pred).push(el));
                assert(stale.deep_view() == previous.deep_view().take(i + 1).filter(pred));
            }
        } else {
            proof {
                assert(!pred(el));
                assert(stale.deep_view() == previous.deep_view().take(i + 1).filter(pred));
            }
        }
        i = i + 1;
    }
    assert(previous.deep_view().take(previous@.len() as int) =~= previous.deep_view());
    stale
}

/// The directory contents after a generation run: everything the current
/// run generated, plus whatever already lay there and is not stale. Nothing
/// else is removed, so files this generator never produced survive.
pub fn reconcile_output(
    existing: &Vec<String>,
    previous: &Vec<String>,
    generated: &Vec<String>,
) -> (after: Vec<String>)
    ensures
        after.deep_view() == generated.deep_view() + existing.deep_view().filter(
            |n: Seq<char>| !is_stale(previous.deep_view(), generated.deep_view(), n),
        ),
        forall|n: Seq<char>|
            #[trigger] after.deep_view().contains(n) <==> generated.deep_view().contains(n) || (
            existing.deep_view().contains(n) && !is_stale(
                previous.deep_view(),
                generated.deep_view(),
                n,
            )),
{
    let ghost pred = |n: Seq<char>|
        !is_stale(previous.deep_view(), generated.deep_view(), n);
    let mut after: Vec<String> = Vec::new();
    let mut i: usize = 0;
    while i < generated.len()
        invariant
            i <= generated@.len(),
            after.deep_view() == generated.deep_view().take(i as int),
        decreases generated@.len() - i,
    {
        proof {
            assert(after.deep_view().len() == generated.deep_view().take(i as int).len());
            assert(after@.len() == after.deep_view().len());
        }
        after.push(generated[i].clone());
        assert(after.deep_view() =~~= generated.deep_view().take(i + 1));
        i = i + 1;
    }
    assert(generated.deep_view().take(generated@.len() as int) =~= generated.deep_view());
    let mut j: usize = 0;
    assert(existing.deep_view().take(0) =~= Seq::<Seq<char>>::empty());
    assert(after.deep_view() =~~= generated.deep_view() + existing.deep_view().take(0).filter(
        pred,
    ));
    while j < existing.len()
        invariant
            j <= existing@.len(),
            after.deep_view() == generated.deep_view() + existing.deep_view().take(
                j as int,
            ).filter(pred),
            pred == (|n: Seq<char>|
                !is_stale(previous.deep_view(), generated.deep_view(), n)),
        decreases existing@.len() - j,
    {
        let ghost prefix = existing.deep_view().take(j as int);
        let ghost el = existing.deep_view()[j as int];
        let ghost before = after.deep_view();
        proof {
            assert(after.deep_view().len() == generated.deep_view().len() + prefix.filter(
                pred,
            ).len());
            assert(after@.len() == after.deep_view().len());
            assert(existing.deep_view().take(j + 1) =~= prefix.push(el));
            prefix.lemma_filter_push(el, pred);
        }
        let keep = if list_contains(generated, &existing[j]) {
            true
        } else {
            !list_contains(previous, &existing[j])
        };
        if keep {
            after.push(existing[j].clone());
            proof {
                assert(pred(el));
                assert(after.deep_view() =~~= before.push(el));
                assert((generated.deep_view() + prefix.filter(pred)).push(el)
                    =~= generated.deep_view() + prefix.filter(pred).push(el));
                assert(after.deep_view() == generated.deep_view() + existing.deep_view().take(
                    j + 1,
                ).filter(pred));
            }
        } else {
            proof {
                assert(!pred(el));
                assert(after.deep_view() == generated.deep_view() + existing.deep_view().take(
                    j + 1,
                ).filter(pred));
            }
        }
        j = j + 1;
    }
    assert(existing.deep_view().take(existing@.len() as int) =~= existing.deep_view());
    proof {
        lemma_membership(existing.deep_view(), previous.deep_view(), generated.deep_view(),
            after.deep_view());
    }
    after
}

/// Membership in the reconciled directory, spelled out from its exact
/// shape.
proof fn lemma_membership(
    existing: Seq<Seq<char>>,
    previous: Seq<Seq<char>>,
    generated: Seq<Seq<char>>,
    after: Seq<Seq<char>>,
)
    requires
        after == generated + existing.filter(
            |n: Seq<char>| !is_stale(previous, generated, n),
        ),
    ensures
        forall|n: Seq<char>|
            #[trigger] after.contains(n) <==> generated.contains(n) || (existing.contains(n)
                && !is_stale(previous, generated, n)),
{
    let pred = |n: Seq<char>| !is_stale(previous, generated, n);
    let kept = existing.filter(pred);
    assert forall|n: Seq<char>| #[trigger] after.contains(n) implies generated.contains(n) || (
        existing.contains(n) && pred(n)) by {
        let k = choose|k: int| 0 <= k < after.len() && after[k] == n;
        if k < generated.len() {
            assert(generated[k] == n);
        } else {
            let m = k - generated.len();
            assert(kept[m] == n);
            existing.lemma_filter_pred(pred, m);
            assert(kept.contains(n));
            existing.lemma_filter_contains_rev(pred, n);
        }
    }
    assert forall|n: Seq<char>|
        generated.contains(n) || (existing.contains(n) && pred(n)) implies #[trigger] after
        .contains(n) by {
        if generated.contains(n) {
            let k = choose|k: int| 0 <= k < generated.len() && generated[k] == n;
            assert(after[k] == n);
        } else {
            let k = choose|k: int| 0 <= k < existing.len() && existing[k] == n;
            existing.lemma_filter_contains(pred, k);
            let m = choose|m: int| 0 <= m < kept.len() && kept[m] == n;
            assert(after[generated.len() + m] == n);
        }
    }
}

/// Renaming an exported entity between two successive generations leaves
/// the new name's file in the directory and removes the old name's file:
/// the directory mirrors the current spec, never a superset of it.
pub proof fn lemma_rename_drops_stale_file(
    existing: Seq<Seq<char>>,
    previous: Seq<Seq<char>>,
    generated: Seq<Seq<char>>,
    after: Seq<Seq<char>>,
    old_name: Seq<char>,
    new_name: Seq<char>,
)
    requires
        after == generated + existing.filter(
            |n: Seq<char>| !is_stale(previous, generated, n),
        ),
        generated.contains(new_name),
        previous.contains(old_name),
        !generated.contains(old_name),
    ensures
        after.contains(new_name),
        !after.contains(old_name),
{
    lemma_membership(existing, previous, generated, after);
}

} // verus!
