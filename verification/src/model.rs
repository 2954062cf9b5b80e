//! The mathematical model of the synchronized state: spec functions over the
//! views of the entity store (a sequence of slots, `None` where an entity was
//! removed), the body set and the collider set.

use vstd::prelude::*;

use crate::components::{EntityData, RigidBody};

verus! {

/// Entity `e` is present in the entity store.
pub open spec fn entity_live(es: Seq<Option<EntityData>>, e: int) -> bool {
    0 <= e < es.len() && es[e] is Some
}

/// Entity `e` is present and holds a `PhysicsBody` component.
pub open spec fn entity_has_physics(es: Seq<Option<EntityData>>, e: int) -> bool {
    entity_live(es, e) && es[e]->0.physics is Some
}

/// Entity `e` is present and holds a `Collider` component.
pub open spec fn entity_has_collider(es: Seq<Option<EntityData>>, e: int) -> bool {
    entity_live(es, e) && es[e]->0.collider is Some
}

/// The body handle of entity `e`'s `PhysicsBody` component.
pub open spec fn entity_body(es: Seq<Option<EntityData>>, e: int) -> int
    recommends
        entity_has_physics(es, e),
{
    es[e]->0.physics->0.body_handle as int
}

/// The collider handle of entity `e`'s `Collider` component.
pub open spec fn entity_coll(es: Seq<Option<EntityData>>, e: int) -> int
    recommends
        entity_has_collider(es, e),
{
    es[e]->0.collider->0.coll_handle as int
}

/// Entity `e` is present and carries the `InfoDisplayed` marker.
pub open spec fn entity_info(es: Seq<Option<EntityData>>, e: int) -> bool {
    entity_live(es, e) && es[e]->0.info_displayed
}

/// Handle `h` references a live entry of the body set.
pub open spec fn body_live(bs: Seq<Option<RigidBody>>, h: int) -> bool {
    0 <= h < bs.len() && bs[h] is Some
}

/// Handle `c` references a live entry of the collider set.
pub open spec fn collider_live(cs: Seq<bool>, c: int) -> bool {
    0 <= c < cs.len() && cs[c]
}

/// Well-formedness of the synchronized state, the invariant this layer
/// protects:
/// - an entity holds a `PhysicsBody` exactly when it holds a `Collider`;
/// - every component handle references a live entry of its set (no dangling
///   handles);
/// - distinct entities never share a body or collider handle;
/// - at most one live entity carries the `InfoDisplayed` marker.
pub open spec fn store_wf(
    es: Seq<Option<EntityData>>,
    bs: Seq<Option<RigidBody>>,
    cs: Seq<bool>,
) -> bool {
    &&& forall|e: int|
        entity_live(es, e) ==> (#[trigger] entity_has_physics(es, e) <==> entity_has_collider(
            es,
            e,
        ))
    &&& forall|e: int| #[trigger]
        entity_has_physics(es, e) ==> body_live(bs, entity_body(es, e))
    &&& forall|e: int| #[trigger]
        entity_has_physics(es, e) ==> collider_live(cs, entity_coll(es, e))
    &&& forall|e1: int, e2: int|
        #[trigger] entity_has_physics(es, e1) && #[trigger] entity_has_physics(es, e2) && e1 != e2
            ==> entity_body(es, e1) != entity_body(es, e2) && entity_coll(es, e1) != entity_coll(
            es,
            e2,
        )
    &&& forall|e1: int, e2: int|
        #[trigger] entity_info(es, e1) && #[trigger] entity_info(es, e2) ==> e1 == e2
}

/// The body set after every body referenced by an entity's `PhysicsBody`
/// component has been marked active; all other entries are untouched.
pub open spec fn reactivated(
    es: Seq<Option<EntityData>>,
    bs: Seq<Option<RigidBody>>,
) -> Seq<Option<RigidBody>> {
    Seq::new(
        bs.len(),
        |h: int|
            if exists|e: int| #[trigger] entity_has_physics(es, e) && entity_body(es, e) == h {
                Some(RigidBody { active: true })
            } else {
                bs[h]
            },
    )
}

/// The first (lowest-index) entity at or after `from` that carries the
/// `InfoDisplayed` marker, if any.
pub open spec fn first_info_entity(es: Seq<Option<EntityData>>, from: int) -> Option<int>
    decreases es.len() - from,
{
    if from < 0 || from >= es.len() {
        None
    } else if entity_info(es, from) {
        Some(from)
    } else {
        first_info_entity(es, from + 1)
    }
}

/// The shown panel after one side-menu synchronization: if some entity
/// carries the `InfoDisplayed` marker, the panel is moved to the first such
/// entity; otherwise the panel state is left as it was.
pub open spec fn shown_after_update(
    es: Seq<Option<EntityData>>,
    shown: Option<usize>,
) -> Option<usize> {
    match first_info_entity(es, 0) {
        Some(e) => Some(e as usize),
        None => shown,
    }
}

} // verus!
