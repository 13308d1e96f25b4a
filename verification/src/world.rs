//! The entity and component store.
//!
//! One flat record per entity, addressed by a unique id, held in insertion
//! order — the stable order the collision pass walks. Entities are created
//! through the spawn methods, which establish every component combination
//! the systems rely on (a shot always has a mob, a transform, an expiry and
//! a box; a collider always has a transform and a box), so a missing
//! component cannot arise at runtime. The store caps its population and its
//! id counter at machine limits; a spawn past a cap is refused.

use vstd::prelude::*;
use crate::fixed::SIZE_CAP;
use crate::timer::Timer;
use crate::transform::{Vec2, Transform};
use crate::mob::Mob;
use crate::plane::{
    Plane, ShotSpawn, SHOT_EXPIRY, SHOT_SIZE, PLANE_SPRITE_INDEX_RIGHT_WAY_UP,
    PLANE_SPRITE_INDEX_UPSIDE_DOWN,
};
use crate::collision::Collider;

verus! {

/// Most entities the store will hold.
pub const ENT_CAP: usize = 1_000_000;

/// Largest id the store will hand out.
pub const ID_CAP: u64 = u64::MAX - 1_000_000;

/// One entity: an id and the components it carries.
#[derive(Clone, Copy, Debug)]
pub struct Entity {
    pub id: u64,
    pub plane: Option<Plane>,
    pub mob: Option<Mob>,
    pub transform: Option<Transform>,
    pub collider: Option<Collider>,
    pub shot: bool,
    pub expiry: Option<Timer>,
    pub sprite_index: Option<usize>,
    pub box_size: Option<Vec2>,
}

/// Component well-formedness and the combinations the systems rely on.
pub open spec fn entity_wf(e: Entity) -> bool {
    &&& e.mob is Some ==> e.mob.unwrap().wf()
    &&& e.transform is Some ==> e.transform.unwrap().wf()
    &&& e.expiry is Some ==> e.expiry.unwrap().wf()
    &&& e.plane is Some ==> e.plane.unwrap().wf() && e.mob is Some && e.transform is Some
        && e.sprite_index is Some
    &&& e.sprite_index is Some ==> PLANE_SPRITE_INDEX_RIGHT_WAY_UP <= e.sprite_index.unwrap()
        <= PLANE_SPRITE_INDEX_UPSIDE_DOWN
    &&& e.box_size is Some ==> 0 <= e.box_size.unwrap().x <= SIZE_CAP && 0
        <= e.box_size.unwrap().y <= SIZE_CAP
    &&& e.collider is Some ==> e.transform is Some && e.box_size is Some
    &&& e.shot ==> e.mob is Some && e.transform is Some && e.expiry is Some && e.box_size is Some
}

/// The entity a `ShotSpawn` turns into under id `id`.
pub open spec fn spec_shot_entity(sp: ShotSpawn, id: u64) -> Entity {
    Entity {
        id,
        plane: Option::None,
        mob: Option::Some(sp.mob),
        transform: Option::Some(sp.transform),
        collider: Option::None,
        shot: true,
        expiry: Option::Some(
            Timer { elapsed: 0, duration: SHOT_EXPIRY, repeating: false, finished: false },
        ),
        sprite_index: Option::None,
        box_size: Option::Some(Vec2 { x: SHOT_SIZE, y: SHOT_SIZE }),
    }
}

/// Exec mirror of `spec_shot_entity`.
pub fn shot_entity(sp: &ShotSpawn, id: u64) -> (r: Entity)
    ensures
        r == spec_shot_entity(*sp, id),
{
    Entity {
        id,
        plane: None,
        mob: Some(sp.mob),
        transform: Some(sp.transform),
        collider: None,
        shot: true,
        expiry: Some(Timer::new(SHOT_EXPIRY, false)),
        sprite_index: None,
        box_size: Some(Vec2 { x: SHOT_SIZE, y: SHOT_SIZE }),
    }
}

/// `s` without the entities whose id is `id`, order kept.
pub open spec fn spec_remove_id(s: Seq<Entity>, id: u64) -> Seq<Entity>
    decreases s.len(),
{
    if s.len() == 0 {
        Seq::empty()
    } else {
        let r = spec_remove_id(s.drop_last(), id);
        if s.last().id == id {
            r
        } else {
            r.push(s.last())
        }
    }
}

/// The component store: a unique-id counter and the entities in insertion
/// order.
pub struct World {
    pub next_id: u64,
    pub entities: Vec<Entity>,
}

impl World {
    /// Every entity well-formed, ids unique and below the counter, counts
    /// inside the caps.
    pub open spec fn wf(self) -> bool {
        &&& self.entities@.len() <= ENT_CAP
        &&& self.next_id <= ID_CAP
        &&& forall|i: int|
            0 <= i < self.entities@.len() ==> entity_wf(#[trigger] self.entities@[i])
        &&& forall|i: int|
            0 <= i < self.entities@.len() ==> (#[trigger] self.entities@[i]).id < self.next_id
        &&& forall|i: int, j: int|
            0 <= i < j < self.entities@.len() ==> (#[trigger] self.entities@[i]).id != (
            #[trigger] self.entities@[j]).id
    }

    /// Whether another entity may be spawned right now.
    pub open spec fn has_room(self) -> bool {
        self.entities@.len() < ENT_CAP && self.next_id < ID_CAP
    }

    pub fn new() -> (r: World)
        ensures
            r.next_id == 0,
            r.entities@ == Seq::<Entity>::empty(),
            r.wf(),
    {
        World { next_id: 0, entities: Vec::new() }
    }

    /// Append `e` under a fresh id; refused only past a cap.
    fn spawn_entity(&mut self, e: Entity) -> (r: Option<u64>)
        requires
            old(self).wf(),
            entity_wf(e),
        ensures
            final(self).wf(),
            old(self).has_room() ==> {
                &&& r == Some(old(self).next_id)
                &&& final(self).entities@ == old(self).entities@.push(
                    Entity { id: old(self).next_id, ..e },
                )
                &&& final(self).next_id == old(self).next_id + 1
            },
            !old(self).has_room() ==> r is None && *final(self) == *old(self),
    {
        if self.entities.len() < ENT_CAP && self.next_id < ID_CAP {
            let id: u64 = self.next_id;
            self.next_id = id + 1;
            self.entities.push(Entity { id, ..e });
            Some(id)
        } else {
            None
        }
    }

    /// Spawn a player-controlled plane: control state, flight state,
    /// transform, its own hitbox, and the right-way-up sprite frame.
    pub fn spawn_plane(&mut self, plane: Plane, mob: Mob, transform: Transform, box_size: Vec2) -> (
        r: Option<u64>
    )
        requires
            old(self).wf(),
            plane.wf(),
            mob.wf(),
            transform.wf(),
            0 <= box_size.x <= SIZE_CAP,
            0 <= box_size.y <= SIZE_CAP,
        ensures
            final(self).wf(),
            old(self).has_room() ==> {
                &&& r == Some(old(self).next_id)
                &&& final(self).entities@ == old(self).entities@.push(
                    Entity {
                        id: old(self).next_id,
                        plane: Option::Some(plane),
                        mob: Option::Some(mob),
                        transform: Option::Some(transform),
                        collider: Option::Some(Collider::Plane),
                        shot: false,
                        expiry: Option::None,
                        sprite_index: Option::Some(PLANE_SPRITE_INDEX_RIGHT_WAY_UP),
                        box_size: Option::Some(box_size),
                    },
                )
                &&& final(self).next_id == old(self).next_id + 1
            },
            !old(self).has_room() ==> r is None && *final(self) == *old(self),
    {
        self.spawn_entity(
            Entity {
                id: 0,
                plane: Some(plane),
                mob: Some(mob),
                transform: Some(transform),
                collider: Some(Collider::Plane),
                shot: false,
                expiry: None,
                sprite_index: Some(PLANE_SPRITE_INDEX_RIGHT_WAY_UP),
                box_size: Some(box_size),
            },
        )
    }

    /// Spawn a static collider: a tag, a transform, a box.
    pub fn spawn_collider(&mut self, kind: Collider, transform: Transform, box_size: Vec2) -> (r:
        Option<u64>)
        requires
            old(self).wf(),
            transform.wf(),
            0 <= box_size.x <= SIZE_CAP,
            0 <= box_size.y <= SIZE_CAP,
        ensures
            final(self).wf(),
            old(self).has_room() ==> {
                &&& r == Some(old(self).next_id)
                &&& final(self).entities@ == old(self).entities@.push(
                    Entity {
                        id: old(self).next_id,
                        plane: Option::None,
                        mob: Option::None,
                        transform: Option::Some(transform),
                        collider: Option::Some(kind),
                        shot: false,
                        expiry: Option::None,
                        sprite_index: Option::None,
                        box_size: Option::Some(box_size),
                    },
                )
                &&& final(self).next_id == old(self).next_id + 1
            },
            !old(self).has_room() ==> r is None && *final(self) == *old(self),
    {
        self.spawn_entity(
            Entity {
                id: 0,
                plane: None,
                mob: None,
                transform: Some(transform),
                collider: Some(kind),
                shot: false,
                expiry: None,
                sprite_index: None,
                box_size: Some(box_size),
            },
        )
    }

    /// Spawn a shot directly, as firing does: ballistic mob, expiry, box.
    pub fn spawn_shot(&mut self, mob: Mob, transform: Transform) -> (r: Option<u64>)
        requires
            old(self).wf(),
            mob.wf(),
            transform.wf(),
        ensures
            final(self).wf(),
            old(self).has_room() ==> {
                &&& r == Some(old(self).next_id)
                &&& final(self).entities@ == old(self).entities@.push(
                    spec_shot_entity(ShotSpawn { mob, transform }, old(self).next_id),
                )
                &&& final(self).next_id == old(self).next_id + 1
            },
            !old(self).has_room() ==> r is None && *final(self) == *old(self),
    {
        let e = shot_entity(&ShotSpawn { mob, transform }, 0);
        self.spawn_entity(e)
    }

    /// Destroy an entity by identity; returns whether it existed.
    pub fn despawn(&mut self, id: u64) -> (r: bool)
        requires
            old(self).wf(),
        ensures
            final(self).wf(),
            final(self).entities@ == spec_remove_id(old(self).entities@, id),
            final(self).next_id == old(self).next_id,
            r == exists|i: int|
                0 <= i < old(self).entities@.len() && (#[trigger] old(self).entities@[i]).id == id,
    {
        let ghost s0 = self.entities@;
        let mut out: Vec<Entity> = Vec::new();
        let mut found: bool = false;
        let mut i: usize = 0;
        while i < self.entities.len()
            invariant
                0 <= i <= s0.len(),
                self.entities@ == s0,
                out@ == spec_remove_id(s0.take(i as int), id),
                found == exists|j: int| 0 <= j < i && (#[trigger] s0[j]).id == id,
                forall|j: int| 0 <= j < out@.len() ==> exists|k: int|
                    0 <= k < s0.len() && #[trigger] out@[j] == s0[k],
            decreases s0.len() - i,
        {
            let e: Entity = self.entities[i];
            proof {
                assert(s0.take(i + 1).drop_last() =~= s0.take(i as int));
                assert(s0.take(i + 1).last() == s0[i as int]);
            }
            if e.id == id {
                found = true;
            } else {
                out.push(e);
                proof {
                    assert(out@.last() == s0[i as int]);
                }
            }
            i = i + 1;
        }
        proof {
            assert(s0.take(s0.len() as int) =~= s0);
        }
        self.entities = out;
        proof {
            lemma_remove_id_subset(s0, id);
        }
        found
    }
}

/// Every entity of `spec_remove_id(s, id)` stands somewhere in `s`: removal
/// keeps well-formedness, id bounds and id uniqueness.
proof fn lemma_remove_id_subset(s: Seq<Entity>, id: u64)
    ensures
        spec_remove_id(s, id).len() <= s.len(),
        forall|j: int|
            0 <= j < spec_remove_id(s, id).len() ==> exists|k: int|
                0 <= k < s.len() && #[trigger] spec_remove_id(s, id)[j] == s[k],
        forall|j: int, k: int|
            0 <= j < k < spec_remove_id(s, id).len() ==> exists|j2: int, k2: int|
                0 <= j2 < k2 < s.len() && #[trigger] spec_remove_id(s, id)[j] == s[j2] && (
                #[trigger] spec_remove_id(s, id)[k]) == s[k2],
    decreases s.len(),
{
    if s.len() == 0 {
    } else {
        lemma_remove_id_subset(s.drop_last(), id);
        let r = spec_remove_id(s, id);
        let rp = spec_remove_id(s.drop_last(), id);
        assert(forall|k: int| 0 <= k < s.len() - 1 ==> #[trigger] s.drop_last()[k] == s[k]);
        if s.last().id == id {
        } else {
            assert(r == rp.push(s.last()));
            assert(r[r.len() - 1] == s[s.len() - 1]);
        }
    }
}

} // verus!
