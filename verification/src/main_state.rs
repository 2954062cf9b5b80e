//! The simulation controller: one structure holding the entity store, the
//! physics handle sets and the process-wide resources, with the operations
//! that keep them mutually consistent.

use vstd::prelude::*;

use crate::components::{Collider, EntityData, InputState, PhysicsBody, RigidBody, StepCommand};
use crate::model::{
    body_live, collider_live, entity_body, entity_coll, entity_has_collider, entity_has_physics,
    entity_info, entity_live, first_info_entity, reactivated, shown_after_update, store_wf,
};

verus! {

/// Camera translation per held directional key and tick, in thousandths of a
/// world unit (one half of a unit).
pub const CAMERA_SPEED: i64 = 500;

/// Horizontal camera translation of one tick: right moves the camera in the
/// positive direction, left in the negative one.
pub open spec fn camera_dx(input: InputState) -> int {
    (if input.right {
        CAMERA_SPEED as int
    } else {
        0
    }) - (if input.left {
        CAMERA_SPEED as int
    } else {
        0
    })
}

/// Vertical camera translation of one tick: "up" decreases the vertical
/// coordinate, "down" increases it.
pub open spec fn camera_dy(input: InputState) -> int {
    (if input.down {
        CAMERA_SPEED as int
    } else {
        0
    }) - (if input.up {
        CAMERA_SPEED as int
    } else {
        0
    })
}

/// The synchronized simulation state.
///
/// The entity store and the two handle sets are slot sequences: a handle or
/// entity identifier is an index, and a removed entry leaves a free slot
/// behind so that the remaining handles stay valid. Fresh identifiers are the
/// current sequence lengths, so a handle is never reused within a session.
pub struct MainState {
    /// The entity store: one slot per entity identifier ever spawned.
    pub entities: Vec<Option<EntityData>>,
    /// The body set: one slot per body handle ever inserted.
    pub bodies: Vec<Option<RigidBody>>,
    /// The collider set: `true` where the collider handle is live.
    pub colliders: Vec<bool>,
    /// The pause flag. A paused simulation still steps, with a zero timestep.
    pub paused: bool,
    /// Simulated microseconds advanced per sub-step, configured externally.
    pub timestep_micros: u32,
    /// Number of sub-steps executed per frame tick, configured externally.
    pub frame_steps: u32,
    /// Camera translation, in thousandths of a world unit.
    pub camera_x: i64,
    /// Camera translation, in thousandths of a world unit.
    pub camera_y: i64,
    /// The entity whose inspection panel is currently shown, if any.
    pub shown_menu: Option<usize>,
}

impl MainState {
    /// The invariant of the whole state: the store, body set and collider set
    /// are mutually consistent, and a shown panel always belongs to a live
    /// entity.
    pub open spec fn wf(self) -> bool {
        &&& store_wf(self.entities@, self.bodies@, self.colliders@)
        &&& (self.shown_menu is Some ==> entity_live(self.entities@, self.shown_menu->0 as int))
    }

    /// The externally configured resources (pause flag, timestep, sub-step
    /// count) of `self` and `other` agree.
    pub open spec fn same_config(self, other: MainState) -> bool {
        &&& other.paused == self.paused
        &&& other.timestep_micros == self.timestep_micros
        &&& other.frame_steps == self.frame_steps
    }

    /// The camera translation of `self` and `other` agree.
    pub open spec fn same_camera(self, other: MainState) -> bool {
        other.camera_x == self.camera_x && other.camera_y == self.camera_y
    }

    /// A fresh session: empty store and sets, not paused, camera at the
    /// origin, no panel shown.
    pub fn new(timestep_micros: u32, frame_steps: u32) -> (s: MainState)
        ensures
            s.wf(),
            s.entities@.len() == 0,
            s.bodies@.len() == 0,
            s.colliders@.len() == 0,
            !s.paused,
            s.timestep_micros == timestep_micros,
            s.frame_steps == frame_steps,
            s.camera_x == 0,
            s.camera_y == 0,
            s.shown_menu is None,
    {
        MainState {
            entities: Vec::new(),
            bodies: Vec::new(),
            colliders: Vec::new(),
            paused: false,
            timestep_micros,
            frame_steps,
            camera_x: 0,
            camera_y: 0,
            shown_menu: None,
        }
    }

    /// Removes an entity and its physics state as one transaction: the body
    /// leaves the body set, the collider leaves the collider set, a panel
    /// shown for this entity is cleared, and only then does the entity leave
    /// the store, so that no frame can ever observe a component whose handle
    /// is already gone.
    ///
    /// Calling this on an entity without both components is a programming
    /// error, excluded by the precondition: the two components always
    /// co-occur.
    pub fn delete_entity(&mut self, entity: usize)
        requires
            old(self).wf(),
            entity_has_physics(old(self).entities@, entity as int),
        ensures
            final(self).wf(),
            !entity_live(final(self).entities@, entity as int),
            !body_live(
                final(self).bodies@,
                entity_body(old(self).entities@, entity as int),
            ),
            !collider_live(
                final(self).colliders@,
                entity_coll(old(self).entities@, entity as int),
            ),
            final(self).entities@ == old(self).entities@.update(
                entity as int,
                None::<EntityData>,
            ),
            final(self).bodies@ == old(self).bodies@.update(
                entity_body(old(self).entities@, entity as int),
                None::<RigidBody>,
            ),
            final(self).colliders@ == old(self).colliders@.update(
                entity_coll(old(self).entities@, entity as int),
                false,
            ),
            final(self).shown_menu == (if old(self).shown_menu == Some(entity) {
                None::<usize>
            } else {
                old(self).shown_menu
            }),
            old(self).same_config(*final(self)),
            old(self).same_camera(*final(self)),
    {
        let ghost es0 = self.entities@;
        let ghost bs0 = self.bodies@;
        let ghost cs0 = self.colliders@;
        let (b, c): (usize, usize) = match self.entities[entity] {
            Some(EntityData { physics: Some(pb), collider: Some(cl), .. }) => (
                pb.body_handle,
                cl.coll_handle,
            ),
            _ => {
                proof {
                    assert(entity_has_collider(es0, entity as int));
                    assert(false);
                }
                (0, 0)
            },
        };
        proof {
            assert(body_live(bs0, b as int));
            assert(collider_live(cs0, c as int));
        }
        self.bodies.set(b, None);
        self.colliders.set(c, false);
        match self.shown_menu {
            Some(shown) => if shown == entity {
                self.shown_menu = None;
            },
            None => {},
        }
        self.entities.set(entity, None);
        proof {
            let es1 = self.entities@;
            let bs1 = self.bodies@;
            let cs1 = self.colliders@;
            assert forall|e: int|
                entity_live(es1, e) implies (#[trigger] entity_has_physics(es1, e)
                <==> entity_has_collider(es1, e)) by {
                assert(es1[e] == es0[e]);
                assert(entity_live(es0, e));
                assert(entity_has_physics(es1, e) == entity_has_physics(es0, e));
                assert(entity_has_collider(es1, e) == entity_has_collider(es0, e));
            }
            assert forall|e: int| #[trigger]
                entity_has_physics(es1, e) implies body_live(bs1, entity_body(es1, e))
                && collider_live(cs1, entity_coll(es1, e)) by {
                assert(es1[e] == es0[e]);
                assert(entity_has_physics(es0, e));
                assert(entity_has_physics(es0, entity as int));
                assert(entity_body(es0, e) != b as int && entity_coll(es0, e) != c as int);
            }
            assert forall|e1: int, e2: int|
                #[trigger] entity_has_physics(es1, e1) && #[trigger] entity_has_physics(es1, e2)
                    && e1 != e2 implies entity_body(es1, e1) != entity_body(es1, e2)
                && entity_coll(es1, e1) != entity_coll(es1, e2) by {
                assert(es1[e1] == es0[e1] && es1[e2] == es0[e2]);
                assert(entity_has_physics(es0, e1) && entity_has_physics(es0, e2));
            }
            assert forall|e1: int, e2: int|
                #[trigger] entity_info(es1, e1) && #[trigger] entity_info(es1, e2) implies e1
                == e2 by {
                assert(es1[e1] == es0[e1] && es1[e2] == es0[e2]);
                assert(entity_info(es0, e1) && entity_info(es0, e2));
            }
        }
    }

    /// Deletes every entity that holds a `PhysicsBody` component, together
    /// with its physics state. The physics-bearing entities are snapshotted
    /// into a fixed list before anything is mutated — deleting while
    /// iterating the live store would invalidate the iteration — and then
    /// deleted one by one. Entities without physics are left untouched, as
    /// are body- and collider-set entries they never referenced.
    pub fn delete_all(&mut self)
        requires
            old(self).wf(),
        ensures
            final(self).wf(),
            forall|e: int| !entity_has_physics(final(self).entities@, e),
            final(self).entities@.len() == old(self).entities@.len(),
            forall|e: int|
                0 <= e < old(self).entities@.len() ==> final(self).entities@[e] == (
                if entity_has_physics(old(self).entities@, e) {
                    None::<EntityData>
                } else {
                    old(self).entities@[e]
                }),
            forall|e: int| #[trigger]
                entity_has_physics(old(self).entities@, e) ==> !body_live(
                    final(self).bodies@,
                    entity_body(old(self).entities@, e),
                ) && !collider_live(
                    final(self).colliders@,
                    entity_coll(old(self).entities@, e),
                ),
            final(self).bodies@.len() == old(self).bodies@.len(),
            forall|h: int|
                0 <= h < old(self).bodies@.len() ==> final(self).bodies@[h] == (
                if exists|e: int| #[trigger]
                    entity_has_physics(old(self).entities@, e) && entity_body(
                        old(self).entities@,
                        e,
                    ) == h {
                    None::<RigidBody>
                } else {
                    old(self).bodies@[h]
                }),
            final(self).colliders@.len() == old(self).colliders@.len(),
            forall|c: int|
                0 <= c < old(self).colliders@.len() ==> final(self).colliders@[c] == (
                if exists|e: int| #[trigger]
                    entity_has_physics(old(self).entities@, e) && entity_coll(
                        old(self).entities@,
                        e,
                    ) == c {
                    false
                } else {
                    old(self).colliders@[c]
                }),
            final(self).shown_menu == (if old(self).shown_menu is Some && entity_has_physics(
                old(self).entities@,
                old(self).shown_menu->0 as int,
            ) {
                None::<usize>
            } else {
                old(self).shown_menu
            }),
            old(self).same_config(*final(self)),
            old(self).same_camera(*final(self)),
    {
        let ghost es0 = self.entities@;
        let ghost bs0 = self.bodies@;
        let ghost cs0 = self.colliders@;
        let ghost shown0 = self.shown_menu;
        let mut buff: Vec<usize> = Vec::new();
        let n = self.entities.len();
        let mut i: usize = 0;
        #[verifier::loop_isolation(false)]
        while i < n
            invariant
                i <= n,
                *self == *old(self),
                forall|k: int|
                    0 <= k < buff@.len() ==> entity_has_physics(es0, #[trigger] buff@[k] as int)
                        && buff@[k] < i,
                forall|e: int|
                    0 <= e < i as int && #[trigger] entity_has_physics(es0, e) ==> buff@.contains(
                        e as usize,
                    ),
                forall|k1: int, k2: int|
                    0 <= k1 < k2 < buff@.len() ==> #[trigger] buff@[k1] < #[trigger] buff@[k2],
            decreases n - i,
        {
            let has_physics: bool = match self.entities[i] {
                Some(data) => data.physics.is_some(),
                None => false,
            };
            let ghost buff_pre = buff@;
            if has_physics {
                buff.push(i);
            }
            proof {
                assert forall|e: int|
                    0 <= e < i as int + 1 && #[trigger] entity_has_physics(es0, e)
                        implies buff@.contains(e as usize) by {
                    if e < i as int {
                        let j = choose|j: int|
                            0 <= j < buff_pre.len() && buff_pre[j] == e as usize;
                        assert(buff@[j] == e as usize);
                    } else {
                        assert(e == i as int);
                        assert(buff@[buff@.len() - 1] == i);
                    }
                }
            }
            i = i + 1;
        }
        let m = buff.len();
        let mut k: usize = 0;
        #[verifier::loop_isolation(false)]
        while k < m
            invariant
                k <= m,
                self.wf(),
                self.entities@.len() == es0.len(),
                forall|e: int|
                    0 <= e < es0.len() ==> self.entities@[e] == (if exists|j: int|
                        0 <= j < k as int && #[trigger] buff@[j] as int == e {
                        None::<EntityData>
                    } else {
                        es0[e]
                    }),
                self.bodies@.len() == bs0.len(),
                forall|h: int|
                    0 <= h < bs0.len() ==> self.bodies@[h] == (if exists|j: int|
                        0 <= j < k as int && entity_body(es0, #[trigger] buff@[j] as int) == h {
                        None::<RigidBody>
                    } else {
                        bs0[h]
                    }),
                self.colliders@.len() == cs0.len(),
                forall|c: int|
                    0 <= c < cs0.len() ==> self.colliders@[c] == (if exists|j: int|
                        0 <= j < k as int && entity_coll(es0, #[trigger] buff@[j] as int) == c {
                        false
                    } else {
                        cs0[c]
                    }),
                self.shown_menu == (if shown0 is Some && (exists|j: int|
                    0 <= j < k as int && #[trigger] buff@[j] == shown0->0) {
                    None::<usize>
                } else {
                    shown0
                }),
                old(self).same_config(*self),
                old(self).same_camera(*self),
            decreases m - k,
        {
            let e = buff[k];
            let ghost pre = *self;
            proof {
                assert(entity_has_physics(es0, e as int));
                assert forall|j: int| 0 <= j < k as int implies #[trigger] buff@[j] as int
                    != e as int by {
                    assert(buff@[j] < buff@[k as int]);
                }
                assert(self.entities@[e as int] == es0[e as int]);
                assert(entity_has_physics(self.entities@, e as int));
            }
            self.delete_entity(e);
            k = k + 1;
            proof {
                let ghost b_e = entity_body(es0, e as int);
                let ghost c_e = entity_coll(es0, e as int);
                assert(entity_body(pre.entities@, e as int) == b_e);
                assert(entity_coll(pre.entities@, e as int) == c_e);
                assert forall|idx: int| 0 <= idx < es0.len() implies self.entities@[idx] == (
                if exists|j: int| 0 <= j < k as int && #[trigger] buff@[j] as int == idx {
                    None::<EntityData>
                } else {
                    es0[idx]
                }) by {
                    if exists|j: int| 0 <= j < k as int && #[trigger] buff@[j] as int == idx {
                        let j = choose|j: int|
                            0 <= j < k as int && #[trigger] buff@[j] as int == idx;
                        if j < k - 1 {
                            assert(pre.entities@[idx] == None::<EntityData>);
                        } else {
                            assert(idx == e as int);
                        }
                    } else {
                        assert(forall|j: int|
                            !(0 <= j < k - 1 && #[trigger] buff@[j] as int == idx));
                        assert(idx != e as int) by {
                            assert(buff@[k - 1] as int == e as int);
                        }
                        assert(pre.entities@[idx] == es0[idx]);
                    }
                }
                assert forall|h: int| 0 <= h < bs0.len() implies self.bodies@[h] == (
                if exists|j: int|
                    0 <= j < k as int && entity_body(es0, #[trigger] buff@[j] as int) == h {
                    None::<RigidBody>
                } else {
                    bs0[h]
                }) by {
                    if exists|j: int|
                        0 <= j < k as int && entity_body(es0, #[trigger] buff@[j] as int) == h {
                        let j = choose|j: int|
                            0 <= j < k as int && entity_body(es0, #[trigger] buff@[j] as int)
                                == h;
                        if j < k - 1 {
                            assert(pre.bodies@[h] == None::<RigidBody>);
                        } else {
                            assert(h == b_e);
                        }
                    } else {
                        assert(forall|j: int|
                            !(0 <= j < k - 1 && entity_body(es0, #[trigger] buff@[j] as int)
                                == h));
                        assert(h != b_e) by {
                            assert(entity_body(es0, buff@[k - 1] as int) == b_e);
                        }
                        assert(pre.bodies@[h] == bs0[h]);
                    }
                }
                assert forall|c: int| 0 <= c < cs0.len() implies self.colliders@[c] == (
                if exists|j: int|
                    0 <= j < k as int && entity_coll(es0, #[trigger] buff@[j] as int) == c {
                    false
                } else {
                    cs0[c]
                }) by {
                    if exists|j: int|
                        0 <= j < k as int && entity_coll(es0, #[trigger] buff@[j] as int) == c {
                        let j = choose|j: int|
                            0 <= j < k as int && entity_coll(es0, #[trigger] buff@[j] as int)
                                == c;
                        if j < k - 1 {
                            assert(pre.colliders@[c] == false);
                        } else {
                            assert(c == c_e);
                        }
                    } else {
                        assert(forall|j: int|
                            !(0 <= j < k - 1 && entity_coll(es0, #[trigger] buff@[j] as int)
                                == c));
                        assert(c != c_e) by {
                            assert(entity_coll(es0, buff@[k - 1] as int) == c_e);
                        }
                        assert(pre.colliders@[c] == cs0[c]);
                    }
                }
                if shown0 is Some {
                    if exists|j: int| 0 <= j < k as int && #[trigger] buff@[j] == shown0->0 {
                        let j = choose|j: int|
                            0 <= j < k as int && #[trigger] buff@[j] == shown0->0;
                        if j < k - 1 {
                            assert(pre.shown_menu == None::<usize>);
                        } else {
                            assert(buff@[k - 1] == shown0->0);
                        }
                        assert(self.shown_menu is None);
                    } else {
                        assert(forall|j: int|
                            !(0 <= j < k - 1 && #[trigger] buff@[j] == shown0->0));
                        assert(pre.shown_menu == shown0);
                        assert(buff@[k - 1] != shown0->0);
                        assert(self.shown_menu == shown0);
                    }
                }
            }
        }
        proof {
            assert forall|e: int| 0 <= e < es0.len() implies self.entities@[e] == (
            if entity_has_physics(es0, e) {
                None::<EntityData>
            } else {
                es0[e]
            }) by {
                if entity_has_physics(es0, e) {
                    assert(buff@.contains(e as usize));
                    let j = choose|j: int| 0 <= j < buff@.len() && buff@[j] == e as usize;
                    assert(0 <= j < m as int && buff@[j] as int == e);
                } else {
                    assert forall|j: int| !(0 <= j < m as int && #[trigger] buff@[j] as int
                        == e) by {
                        if 0 <= j < m as int {
                            assert(entity_has_physics(es0, buff@[j] as int));
                        }
                    }
                }
            }
            assert forall|e: int| !entity_has_physics(self.entities@, e) by {
                if 0 <= e < es0.len() {
                    if entity_has_physics(es0, e) {
                        assert(self.entities@[e] is None);
                    } else {
                        assert(self.entities@[e] == es0[e]);
                    }
                }
            }
            assert forall|h: int| 0 <= h < bs0.len() implies self.bodies@[h] == (
            if exists|e: int| #[trigger] entity_has_physics(es0, e) && entity_body(es0, e) == h {
                None::<RigidBody>
            } else {
                bs0[h]
            }) by {
                if exists|e: int| #[trigger] entity_has_physics(es0, e) && entity_body(es0, e)
                    == h {
                    let e = choose|e: int|
                        #[trigger] entity_has_physics(es0, e) && entity_body(es0, e) == h;
                    assert(buff@.contains(e as usize));
                    let j = choose|j: int| 0 <= j < buff@.len() && buff@[j] == e as usize;
                    assert(0 <= j < m as int && entity_body(es0, buff@[j] as int) == h);
                } else {
                    assert forall|j: int|
                        !(0 <= j < m as int && entity_body(es0, #[trigger] buff@[j] as int)
                            == h) by {
                        if 0 <= j < m as int {
                            assert(entity_has_physics(es0, buff@[j] as int));
                        }
                    }
                }
            }
            assert forall|c: int| 0 <= c < cs0.len() implies self.colliders@[c] == (
            if exists|e: int| #[trigger] entity_has_physics(es0, e) && entity_coll(es0, e) == c {
                false
            } else {
                cs0[c]
            }) by {
                if exists|e: int| #[trigger] entity_has_physics(es0, e) && entity_coll(es0, e)
                    == c {
                    let e = choose|e: int|
                        #[trigger] entity_has_physics(es0, e) && entity_coll(es0, e) == c;
                    assert(buff@.contains(e as usize));
                    let j = choose|j: int| 0 <= j < buff@.len() && buff@[j] == e as usize;
                    assert(0 <= j < m as int && entity_coll(es0, buff@[j] as int) == c);
                } else {
                    assert forall|j: int|
                        !(0 <= j < m as int && entity_coll(es0, #[trigger] buff@[j] as int)
                            == c) by {
                        if 0 <= j < m as int {
                            assert(entity_has_physics(es0, buff@[j] as int));
                        }
                    }
                }
            }
            assert forall|e: int| #[trigger] entity_has_physics(es0, e) implies !body_live(
                self.bodies@,
                entity_body(es0, e),
            ) && !collider_live(self.colliders@, entity_coll(es0, e)) by {
                assert(body_live(bs0, entity_body(es0, e)));
                assert(collider_live(cs0, entity_coll(es0, e)));
                assert(self.bodies@[entity_body(es0, e)] is None);
                assert(self.colliders@[entity_coll(es0, e)] == false);
            }
            if shown0 is Some {
                if entity_has_physics(es0, shown0->0 as int) {
                    assert(buff@.contains(shown0->0));
                    let j = choose|j: int| 0 <= j < buff@.len() && buff@[j] == shown0->0;
                    assert(0 <= j < m as int && buff@[j] == shown0->0);
                    assert(self.shown_menu is None);
                } else {
                    assert forall|j: int| !(0 <= j < m as int && #[trigger] buff@[j]
                        == shown0->0) by {
                        if 0 <= j < m as int {
                            assert(entity_has_physics(es0, buff@[j] as int));
                        }
                    }
                    assert(self.shown_menu == shown0);
                }
            }
        }
    }

    /// Marks the body of every entity holding a `PhysicsBody` component as
    /// active in the body set, recovering bodies the engine put to sleep.
    /// Non-destructive and idempotent; bodies referenced by no entity are
    /// left as they are.
    pub fn reactivate_all(&mut self)
        requires
            old(self).wf(),
        ensures
            final(self).wf(),
            final(self).bodies@ == reactivated(old(self).entities@, old(self).bodies@),
            final(self).entities@ == old(self).entities@,
            final(self).colliders@ == old(self).colliders@,
            final(self).shown_menu == old(self).shown_menu,
            old(self).same_config(*final(self)),
            old(self).same_camera(*final(self)),
    {
        let ghost es0 = self.entities@;
        let ghost bs0 = self.bodies@;
        let n = self.entities.len();
        let mut i: usize = 0;
        #[verifier::loop_isolation(false)]
        while i < n
            invariant
                i <= n,
                self.entities@ == es0,
                self.colliders@ == old(self).colliders@,
                self.shown_menu == old(self).shown_menu,
                old(self).same_config(*self),
                old(self).same_camera(*self),
                self.bodies@.len() == bs0.len(),
                forall|h: int|
                    0 <= h < bs0.len() ==> self.bodies@[h] == (if exists|e: int| #[trigger]
                        entity_has_physics(es0, e) && e < i as int && entity_body(es0, e) == h {
                        Some((RigidBody { active: true }))
                    } else {
                        bs0[h]
                    }),
            decreases n - i,
        {
            let woken: Option<usize> = match self.entities[i] {
                Some(EntityData { physics: Some(pb), .. }) => Some(pb.body_handle),
                _ => None,
            };
            match woken {
                Some(b) => {
                    proof {
                        assert(entity_has_physics(es0, i as int));
                        assert(body_live(bs0, b as int));
                    }
                    self.bodies.set(b, Some(RigidBody { active: true }));
                },
                None => {},
            }
            i = i + 1;
            proof {
                assert forall|h: int|
                    0 <= h < bs0.len() implies self.bodies@[h] == (if exists|e: int| #[trigger]
                    entity_has_physics(es0, e) && e < i as int && entity_body(es0, e) == h {
                    Some((RigidBody { active: true }))
                } else {
                    bs0[h]
                }) by {
                    if exists|e: int| #[trigger] entity_has_physics(es0, e) && e < i as int
                        && entity_body(es0, e) == h {
                        let e = choose|e: int|
                            #[trigger] entity_has_physics(es0, e) && e < i as int && entity_body(
                                es0,
                                e,
                            ) == h;
                        if e < i - 1 {
                            assert(entity_has_physics(es0, e) && e < i - 1 && entity_body(es0, e)
                                == h);
                        }
                    }
                }
            }
        }
        proof {
            let r = reactivated(es0, bs0);
            assert forall|h: int| 0 <= h < bs0.len() implies self.bodies@[h] == r[h] by {
                if exists|e: int| #[trigger] entity_has_physics(es0, e) && entity_body(es0, e)
                    == h {
                    let e = choose|e: int|
                        #[trigger] entity_has_physics(es0, e) && entity_body(es0, e) == h;
                    assert(entity_has_physics(es0, e) && e < n as int && entity_body(es0, e) == h);
                }
            }
            assert(self.bodies@ =~= r);
        }
    }

    /// One simulation tick of the controller: reads the pause flag and the
    /// configured resources and returns the engine invocations of this tick,
    /// one per sub-step. The engine must be stepped every tick even while
    /// paused — skipping the call destabilizes engine-internal state — so a
    /// paused tick commands the same number of sub-steps with a timestep of
    /// exactly zero.
    pub fn physics_step(&self) -> (cmds: Vec<StepCommand>)
        ensures
            cmds@.len() == self.frame_steps as int,
            forall|k: int|
                0 <= k < cmds@.len() ==> (#[trigger] cmds@[k]).timestep_micros == (if self.paused {
                    0u32
                } else {
                    self.timestep_micros
                }),
    {
        let timestep: u32 = if self.paused {
            0
        } else {
            self.timestep_micros
        };
        let mut cmds: Vec<StepCommand> = Vec::new();
        let mut done: u32 = 0;
        #[verifier::loop_isolation(false)]
        while done < self.frame_steps
            invariant
                done <= self.frame_steps,
                cmds@.len() == done as int,
                forall|k: int|
                    0 <= k < cmds@.len() ==> (#[trigger] cmds@[k]).timestep_micros == timestep,
            decreases self.frame_steps - done,
        {
            cmds.push(StepCommand { timestep_micros: timestep });
            done = done + 1;
        }
        cmds
    }

    /// One-way sync from the `InfoDisplayed` marker to the panel state: if
    /// some entity carries the marker, any shown panel is cleared and the
    /// panel is shown for the first such entity; if no entity carries it,
    /// nothing happens and the panel state is left as it was.
    pub fn update_sidemenu(&mut self)
        requires
            old(self).wf(),
        ensures
            final(self).wf(),
            final(self).shown_menu == shown_after_update(
                old(self).entities@,
                old(self).shown_menu,
            ),
            final(self).entities@ == old(self).entities@,
            final(self).bodies@ == old(self).bodies@,
            final(self).colliders@ == old(self).colliders@,
            old(self).same_config(*final(self)),
            old(self).same_camera(*final(self)),
    {
        let ghost es0 = self.entities@;
        let n = self.entities.len();
        let mut i: usize = 0;
        #[verifier::loop_isolation(false)]
        while i < n
            invariant
                i <= n,
                *self == *old(self),
                first_info_entity(es0, 0) == first_info_entity(es0, i as int),
            decreases n - i,
        {
            let found: bool = match self.entities[i] {
                Some(data) => data.info_displayed,
                None => false,
            };
            if found {
                proof {
                    assert(entity_info(es0, i as int));
                    assert(first_info_entity(es0, i as int) == Some(i as int));
                }
                self.shown_menu = Some(i);
                return ;
            }
            proof {
                assert(!entity_info(es0, i as int));
                assert(first_info_entity(es0, i as int) == first_info_entity(es0, i as int + 1));
            }
            i = i + 1;
        }
        proof {
            assert(first_info_entity(es0, n as int) is None);
        }
    }

    /// Spawns an entity with a physics representation: a fresh body is
    /// inserted into the body set, a fresh collider into the collider set,
    /// and the entity receives the `PhysicsBody` and `Collider` components
    /// holding their handles. The new body starts active.
    pub fn spawn_physics_entity(&mut self) -> (entity: usize)
        requires
            old(self).wf(),
        ensures
            final(self).wf(),
            entity == old(self).entities@.len(),
            final(self).entities@ == old(self).entities@.push(
                Some(
                    (EntityData {
                        physics: Some((PhysicsBody { body_handle: old(self).bodies.len() })),
                        collider: Some((Collider { coll_handle: old(self).colliders.len() })),
                        info_displayed: false,
                    }),
                ),
            ),
            final(self).bodies@ == old(self).bodies@.push(Some((RigidBody { active: true }))),
            final(self).colliders@ == old(self).colliders@.push(true),
            final(self).shown_menu == old(self).shown_menu,
            old(self).same_config(*final(self)),
            old(self).same_camera(*final(self)),
    {
        let ghost es0 = self.entities@;
        let entity = self.entities.len();
        let body_handle = self.bodies.len();
        let coll_handle = self.colliders.len();
        self.bodies.push(Some(RigidBody { active: true }));
        self.colliders.push(true);
        self.entities.push(
            Some(
                EntityData {
                    physics: Some(PhysicsBody { body_handle }),
                    collider: Some(Collider { coll_handle }),
                    info_displayed: false,
                },
            ),
        );
        proof {
            let es1 = self.entities@;
            assert forall|e: int| #[trigger]
                entity_has_physics(es1, e) && e != entity as int implies entity_has_physics(
                es0,
                e,
            ) && entity_body(es1, e) == entity_body(es0, e) && entity_coll(es1, e) == entity_coll(
                es0,
                e,
            ) by {
                assert(es1[e] == es0[e]);
            }
            assert forall|e: int|
                entity_live(es1, e) implies (#[trigger] entity_has_physics(es1, e)
                <==> entity_has_collider(es1, e)) by {
                if e != entity as int {
                    assert(es1[e] == es0[e]);
                    assert(entity_live(es0, e));
                    assert(entity_has_physics(es1, e) == entity_has_physics(es0, e));
                    assert(entity_has_collider(es1, e) == entity_has_collider(es0, e));
                }
            }
            assert forall|e: int| #[trigger]
                entity_has_physics(es1, e) implies body_live(
                self.bodies@,
                entity_body(es1, e),
            ) && collider_live(self.colliders@, entity_coll(es1, e)) by {
                if e != entity as int {
                    assert(body_live(old(self).bodies@, entity_body(es0, e)));
                    assert(collider_live(old(self).colliders@, entity_coll(es0, e)));
                }
            }
            assert forall|e1: int, e2: int|
                #[trigger] entity_has_physics(es1, e1) && #[trigger] entity_has_physics(es1, e2)
                    && e1 != e2 implies entity_body(es1, e1) != entity_body(es1, e2)
                && entity_coll(es1, e1) != entity_coll(es1, e2) by {
                if e1 != entity as int && e2 != entity as int {
                    assert(entity_has_physics(es0, e1) && entity_has_physics(es0, e2));
                } else if e1 == entity as int {
                    assert(body_live(old(self).bodies@, entity_body(es0, e2)));
                    assert(collider_live(old(self).colliders@, entity_coll(es0, e2)));
                } else {
                    assert(body_live(old(self).bodies@, entity_body(es0, e1)));
                    assert(collider_live(old(self).colliders@, entity_coll(es0, e1)));
                }
            }
            assert forall|e1: int, e2: int|
                #[trigger] entity_info(es1, e1) && #[trigger] entity_info(es1, e2) implies e1
                == e2 by {
                assert(es1[e1] == es0[e1] && es1[e2] == es0[e2]);
                assert(entity_info(es0, e1) && entity_info(es0, e2));
            }
        }
        entity
    }

    /// Spawns an entity with no physics representation and no components.
    /// Such entities are untouched by the bulk deletion.
    pub fn spawn_plain_entity(&mut self) -> (entity: usize)
        requires
            old(self).wf(),
        ensures
            final(self).wf(),
            entity == old(self).entities@.len(),
            final(self).entities@ == old(self).entities@.push(
                Some((EntityData { physics: None, collider: None, info_displayed: false })),
            ),
            final(self).bodies@ == old(self).bodies@,
            final(self).colliders@ == old(self).colliders@,
            final(self).shown_menu == old(self).shown_menu,
            old(self).same_config(*final(self)),
            old(self).same_camera(*final(self)),
    {
        let ghost es0 = self.entities@;
        let entity = self.entities.len();
        self.entities.push(
            Some(EntityData { physics: None, collider: None, info_displayed: false }),
        );
        proof {
            let es1 = self.entities@;
            assert forall|e: int| #[trigger]
                entity_has_physics(es1, e) implies entity_has_physics(es0, e) && entity_body(
                es1,
                e,
            ) == entity_body(es0, e) && entity_coll(es1, e) == entity_coll(es0, e) by {
                assert(es1[e] == es0[e]);
            }
            assert forall|e: int|
                entity_live(es1, e) implies (#[trigger] entity_has_physics(es1, e)
                <==> entity_has_collider(es1, e)) by {
                if e != entity as int {
                    assert(es1[e] == es0[e]);
                    assert(entity_live(es0, e));
                    assert(entity_has_physics(es1, e) == entity_has_physics(es0, e));
                    assert(entity_has_collider(es1, e) == entity_has_collider(es0, e));
                }
            }
            assert forall|e1: int, e2: int|
                #[trigger] entity_info(es1, e1) && #[trigger] entity_info(es1, e2) implies e1
                == e2 by {
                assert(es1[e1] == es0[e1] && es1[e2] == es0[e2]);
                assert(entity_info(es0, e1) && entity_info(es0, e2));
            }
        }
        entity
    }

    /// Moves the `InfoDisplayed` marker to the given entity: the entity
    /// receives the marker and every other entity loses it, so that at most
    /// one live instance exists afterwards. The other components are
    /// untouched.
    pub fn set_info_displayed(&mut self, entity: usize)
        requires
            old(self).wf(),
            entity_live(old(self).entities@, entity as int),
        ensures
            final(self).wf(),
            final(self).entities@.len() == old(self).entities@.len(),
            forall|e: int|
                0 <= e < old(self).entities@.len() ==> final(self).entities@[e] == (
                if entity_live(old(self).entities@, e) {
                    Some(
                        (EntityData {
                            physics: old(self).entities@[e]->0.physics,
                            collider: old(self).entities@[e]->0.collider,
                            info_displayed: e == entity as int,
                        }),
                    )
                } else {
                    None::<EntityData>
                }),
            entity_info(final(self).entities@, entity as int),
            final(self).bodies@ == old(self).bodies@,
            final(self).colliders@ == old(self).colliders@,
            final(self).shown_menu == old(self).shown_menu,
            old(self).same_config(*final(self)),
            old(self).same_camera(*final(self)),
    {
        let ghost es0 = self.entities@;
        let n = self.entities.len();
        let mut i: usize = 0;
        #[verifier::loop_isolation(false)]
        while i < n
            invariant
                i <= n,
                self.entities@.len() == es0.len(),
                forall|e: int|
                    i as int <= e < es0.len() ==> self.entities@[e] == es0[e],
                forall|e: int|
                    0 <= e < i as int ==> self.entities@[e] == (if entity_live(es0, e) {
                        Some(
                            (EntityData {
                                physics: es0[e]->0.physics,
                                collider: es0[e]->0.collider,
                                info_displayed: e == entity as int,
                            }),
                        )
                    } else {
                        None::<EntityData>
                    }),
                self.bodies@ == old(self).bodies@,
                self.colliders@ == old(self).colliders@,
                self.shown_menu == old(self).shown_menu,
                old(self).same_config(*self),
                old(self).same_camera(*self),
            decreases n - i,
        {
            match self.entities[i] {
                Some(data) => {
                    self.entities.set(
                        i,
                        Some(
                            EntityData {
                                physics: data.physics,
                                collider: data.collider,
                                info_displayed: i == entity,
                            },
                        ),
                    );
                },
                None => {},
            }
            i = i + 1;
        }
        proof {
            let es1 = self.entities@;
            assert(entity_info(es1, entity as int));
            assert forall|e: int|
                entity_live(es1, e) implies (#[trigger] entity_has_physics(es1, e)
                <==> entity_has_collider(es1, e)) by {
                assert(entity_live(es0, e));
                assert(entity_has_physics(es1, e) == entity_has_physics(es0, e));
                assert(entity_has_collider(es1, e) == entity_has_collider(es0, e));
            }
            assert forall|e: int| #[trigger]
                entity_has_physics(es1, e) implies entity_has_physics(es0, e) && entity_body(
                es1,
                e,
            ) == entity_body(es0, e) && entity_coll(es1, e) == entity_coll(es0, e) by {}
            assert forall|e: int| #[trigger]
                entity_has_physics(es1, e) implies body_live(
                self.bodies@,
                entity_body(es1, e),
            ) && collider_live(self.colliders@, entity_coll(es1, e)) by {}
            assert forall|e1: int, e2: int|
                #[trigger] entity_has_physics(es1, e1) && #[trigger] entity_has_physics(es1, e2)
                    && e1 != e2 implies entity_body(es1, e1) != entity_body(es1, e2)
                && entity_coll(es1, e1) != entity_coll(es1, e2) by {}
        }
    }

    /// Sets the pause flag. The flag only changes which timestep the next
    /// tick commands; the engine is stepped either way.
    pub fn set_paused(&mut self, paused: bool)
        requires
            old(self).wf(),
        ensures
            final(self).wf(),
            final(self).paused == paused,
            *final(self) == (MainState { paused, ..*old(self) }),
    {
        self.paused = paused;
    }

    /// Configures the simulated microseconds advanced per sub-step.
    pub fn set_timestep(&mut self, timestep_micros: u32)
        requires
            old(self).wf(),
        ensures
            final(self).wf(),
            *final(self) == (MainState { timestep_micros, ..*old(self) }),
    {
        self.timestep_micros = timestep_micros;
    }

    /// Configures the number of sub-steps executed per frame tick.
    pub fn set_frame_steps(&mut self, frame_steps: u32)
        requires
            old(self).wf(),
        ensures
            final(self).wf(),
            *final(self) == (MainState { frame_steps, ..*old(self) }),
    {
        self.frame_steps = frame_steps;
    }

    /// Records an engine-side activity change of one body — the engine may
    /// put a body to sleep between ticks, and the driver mirrors that here
    /// so that `reactivate_all` has something to wake.
    pub fn set_body_active(&mut self, handle: usize, active: bool)
        requires
            old(self).wf(),
            body_live(old(self).bodies@, handle as int),
        ensures
            final(self).wf(),
            final(self).bodies@ == old(self).bodies@.update(
                handle as int,
                Some((RigidBody { active })),
            ),
            final(self).entities@ == old(self).entities@,
            final(self).colliders@ == old(self).colliders@,
            final(self).shown_menu == old(self).shown_menu,
            old(self).same_config(*final(self)),
            old(self).same_camera(*final(self)),
    {
        self.bodies.set(handle, Some(RigidBody { active }));
    }

    /// Whether the body behind a live handle is active (awake).
    pub fn body_active(&self, handle: usize) -> (active: bool)
        requires
            self.wf(),
            body_live(self.bodies@, handle as int),
        ensures
            active == self.bodies@[handle as int]->0.active,
    {
        match self.bodies[handle] {
            Some(body) => body.active,
            None => false,
        }
    }

    /// Translates the camera by the per-tick speed once for each held
    /// directional key. The keys are independent, so two held keys move the
    /// camera diagonally and opposite keys cancel; the camera is not clamped.
    pub fn move_camera(&mut self, input: InputState)
        requires
            old(self).wf(),
            i64::MIN + CAMERA_SPEED <= old(self).camera_x <= i64::MAX - CAMERA_SPEED,
            i64::MIN + CAMERA_SPEED <= old(self).camera_y <= i64::MAX - CAMERA_SPEED,
        ensures
            final(self).wf(),
            final(self).camera_x == old(self).camera_x + camera_dx(input),
            final(self).camera_y == old(self).camera_y + camera_dy(input),
            final(self).entities@ == old(self).entities@,
            final(self).bodies@ == old(self).bodies@,
            final(self).colliders@ == old(self).colliders@,
            final(self).shown_menu == old(self).shown_menu,
            old(self).same_config(*final(self)),
    {
        if input.up {
            self.camera_y = self.camera_y - CAMERA_SPEED;
        }
        if input.down {
            self.camera_y = self.camera_y + CAMERA_SPEED;
        }
        if input.left {
            self.camera_x = self.camera_x - CAMERA_SPEED;
        }
        if input.right {
            self.camera_x = self.camera_x + CAMERA_SPEED;
        }
    }
}

} // verus!
