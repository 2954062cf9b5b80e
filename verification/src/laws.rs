//! Laws relating the operations of the simulation controller, proved once
//! and for all over the model.

use vstd::prelude::*;

use crate::components::{EntityData, RigidBody};
use crate::model::{entity_info, first_info_entity, reactivated, shown_after_update};

verus! {

/// What the search for the first marked entity returns: a marked entity
/// before which no entity is marked, or nothing when no entity at or after
/// `from` is marked.
pub proof fn lemma_first_info_entity(es: Seq<Option<EntityData>>, from: int)
    requires
        0 <= from <= es.len(),
    ensures
        match first_info_entity(es, from) {
            Some(e) => from <= e < es.len() && entity_info(es, e) && (forall|e2: int|
                from <= e2 < e ==> !entity_info(es, e2)),
            None => forall|e2: int| from <= e2 < es.len() ==> !entity_info(es, e2),
        },
    decreases es.len() - from,
{
    if from < es.len() {
        if !entity_info(es, from) {
            lemma_first_info_entity(es, from + 1);
        }
    }
}

/// Selection exclusivity: the panel state holds at most one entity by
/// construction, and after one side-menu sync a shown panel belongs to an
/// entity carrying the `InfoDisplayed` marker — under the single-marker
/// invariant, to exactly the marked entity. The sync is a no-op when no
/// entity is marked, so a panel already shown must have been consistent
/// before; that is the second hypothesis.
pub proof fn lemma_selection_exclusive(es: Seq<Option<EntityData>>, shown: Option<usize>)
    requires
        es.len() <= usize::MAX,
        forall|e1: int, e2: int|
            #[trigger] entity_info(es, e1) && #[trigger] entity_info(es, e2) ==> e1 == e2,
        (exists|e: int| entity_info(es, e)) || shown is None,
    ensures
        shown_after_update(es, shown) is Some ==> entity_info(
            es,
            shown_after_update(es, shown)->0 as int,
        ),
        forall|e: int| #[trigger]
            entity_info(es, e) ==> shown_after_update(es, shown) == Some(e as usize),
{
    lemma_first_info_entity(es, 0);
    match first_info_entity(es, 0) {
        Some(f) => {
            assert(0 <= f < es.len());
            assert((f as usize) as int == f);
            assert(shown_after_update(es, shown) == Some(f as usize));
            assert(entity_info(es, (f as usize) as int));
            assert forall|e: int| #[trigger] entity_info(es, e) implies shown_after_update(
                es,
                shown,
            ) == Some(e as usize) by {
                assert(entity_info(es, f));
            }
        },
        None => {
            assert(forall|e: int| 0 <= e < es.len() ==> !entity_info(es, e));
            assert(forall|e: int| !(#[trigger] entity_info(es, e)));
        },
    }
}

/// Reactivation is idempotent: waking every entity-referenced body twice
/// leaves the body set exactly as waking them once does.
pub proof fn lemma_reactivate_all_idempotent(
    es: Seq<Option<EntityData>>,
    bs: Seq<Option<RigidBody>>,
)
    ensures
        reactivated(es, reactivated(es, bs)) == reactivated(es, bs),
{
    let once = reactivated(es, bs);
    let twice = reactivated(es, once);
    assert forall|h: int| 0 <= h < twice.len() implies twice[h] == once[h] by {}
    assert(twice =~= once);
}

} // verus!
