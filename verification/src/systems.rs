//! The per-frame systems, in the order a frame runs them: plane control,
//! flight dynamics, shot collision, flip animation, shot expiry.
//!
//! Each system walks the store in insertion order and is specified as a
//! whole: its contract gives the new entity sequence as a function of the
//! old one, so a frame is a composition of five pure transformations.

use vstd::prelude::*;
use crate::fixed::TIME_CAP;
use crate::input::InputState;
use crate::mob::{Mob, spec_movement, movement_step};
use crate::collision::{ColliderBox, box_wf, spec_resolve, resolve_shot};
use crate::transform::Vec2;
use crate::plane::{spec_control, spec_flip, control_step, flip_step, ShotSpawn};
use crate::world::{spec_shot_entity, shot_entity, ENT_CAP, ID_CAP};
use crate::world::{Entity, World, entity_wf};

verus! {

/// One entity after the plane-control step, entities without a plane
/// untouched.
pub open spec fn ctrl_entity(e: Entity, held: Seq<u32>, dt: int) -> Entity {
    if e.plane is Some && e.mob is Some && e.transform is Some {
        let r = spec_control(e.plane.unwrap(), e.mob.unwrap(), e.transform.unwrap(), held, dt);
        Entity { plane: Option::Some(r.0), mob: Option::Some(r.1), ..e }
    } else {
        e
    }
}

/// The shot one entity fires this tick, if any.
pub open spec fn ctrl_spawn(e: Entity, held: Seq<u32>, dt: int) -> Option<ShotSpawn> {
    if e.plane is Some && e.mob is Some && e.transform is Some {
        spec_control(e.plane.unwrap(), e.mob.unwrap(), e.transform.unwrap(), held, dt).2
    } else {
        Option::None
    }
}

/// The shots the whole store fires this tick, in store order.
pub open spec fn spec_spawns(s: Seq<Entity>, held: Seq<u32>, dt: int) -> Seq<ShotSpawn>
    decreases s.len(),
{
    if s.len() == 0 {
        Seq::empty()
    } else {
        spec_spawns(s.drop_last(), held, dt) + (match ctrl_spawn(s.last(), held, dt) {
            Option::Some(sp) => seq![sp],
            Option::None => Seq::empty(),
        })
    }
}

/// How many of `ns` pending spawns the store can admit: all of them,
/// unless the population cap or the id cap comes first.
pub open spec fn spec_admitted(ns: int, len: int, next_id: int) -> int {
    let a = if ENT_CAP - len < ns {
        ENT_CAP - len
    } else {
        ns
    };
    if ID_CAP - next_id < a {
        ID_CAP - next_id
    } else {
        a
    }
}

/// The whole store after the plane-control pass: every plane stepped, and
/// the fired shots appended under fresh consecutive ids.
pub open spec fn spec_plane_input(s: Seq<Entity>, next_id: u64, held: Seq<u32>, dt: int) -> (
    Seq<Entity>,
    u64,
) {
    let updated = Seq::new(s.len(), |i: int| ctrl_entity(s[i], held, dt));
    let spawns = spec_spawns(s, held, dt);
    let k = spec_admitted(spawns.len() as int, s.len() as int, next_id as int);
    (
        updated + Seq::new(k as nat, |q: int| spec_shot_entity(spawns[q], (next_id + q) as u64)),
        (next_id + k) as u64,
    )
}

/// Tick every plane's fire cooldown, steer and throttle it from the held
/// keys, restart flip locks on turns, and spawn the fired shots — the
/// spawns deferred to the end of the pass, in store order.
pub fn plane_input_system(world: &mut World, input: &InputState, dt: i64)
    requires
        old(world).wf(),
        0 <= dt <= TIME_CAP,
    ensures
        final(world).wf(),
        (final(world).entities@, final(world).next_id) == spec_plane_input(
            old(world).entities@,
            old(world).next_id,
            input.held@,
            dt as int,
        ),
{
    let ghost s0 = world.entities@;
    let ghost next0 = world.next_id;
    let ghost held = input.held@;
    let n: usize = world.entities.len();
    let mut out: Vec<Entity> = Vec::new();
    let mut buf: Vec<ShotSpawn> = Vec::new();
    let mut i: usize = 0;
    while i < n
        invariant
            world.entities@ == s0,
            world.next_id == next0,
            old(world).wf(),
            held == input.held@,
            n == s0.len(),
            0 <= i <= n,
            0 <= dt <= TIME_CAP,
            out@.len() == i,
            forall|j: int|
                0 <= j < i ==> #[trigger] out@[j] == ctrl_entity(s0[j], held, dt as int),
            forall|j: int| 0 <= j < i ==> entity_wf(#[trigger] out@[j]),
            forall|j: int| 0 <= j < i ==> (#[trigger] out@[j]).id == s0[j].id,
            buf@ == spec_spawns(s0.take(i as int), held, dt as int),
            forall|q: int|
                0 <= q < buf@.len() ==> (#[trigger] buf@[q]).mob.wf() && buf@[q].transform.wf(),
        decreases n - i,
    {
        let e: Entity = world.entities[i];
        assert(entity_wf(e));
        proof {
            assert(s0.take(i + 1).drop_last() =~= s0.take(i as int));
            assert(s0.take(i + 1).last() == s0[i as int]);
        }
        if e.plane.is_some() && e.mob.is_some() && e.transform.is_some() {
            let p = e.plane.unwrap();
            let m = e.mob.unwrap();
            let t = e.transform.unwrap();
            let r = control_step(&p, &m, &t, input, dt);
            out.push(Entity { plane: Some(r.0), mob: Some(r.1), ..e });
            match r.2 {
                Some(sp) => {
                    let ghost buf_old = buf@;
                    buf.push(sp);
                    proof {
                        assert(buf@ =~= buf_old + seq![sp]);
                    }
                },
                None => {
                    proof {
                        assert(buf@ + Seq::<ShotSpawn>::empty() =~= buf@);
                    }
                },
            }
        } else {
            out.push(e);
            proof {
                assert(buf@ + Seq::<ShotSpawn>::empty() =~= buf@);
            }
        }
        i = i + 1;
    }
    proof {
        assert(s0.take(s0.len() as int) =~= s0);
    }
    let ghost upd = out@;
    let n_spawn: usize = buf.len();
    let room_len: usize = ENT_CAP - n;
    let room_id: u64 = ID_CAP - world.next_id;
    let mut k: usize = n_spawn;
    if k > room_len {
        k = room_len;
    }
    if (k as u64) > room_id {
        k = room_id as usize;
    }
    assert(k as int == spec_admitted(buf@.len() as int, s0.len() as int, next0 as int));
    let mut j: usize = 0;
    while j < k
        invariant
            world.entities@ == s0,
            world.next_id == next0,
            old(world).wf(),
            n == s0.len(),
            next0 + k <= ID_CAP,
            n + k <= ENT_CAP,
            k <= n_spawn == buf@.len(),
            0 <= j <= k,
            forall|q: int|
                0 <= q < buf@.len() ==> (#[trigger] buf@[q]).mob.wf() && buf@[q].transform.wf(),
            out@.len() == n + j,
            forall|q: int| 0 <= q < n ==> #[trigger] out@[q] == upd[q],
            forall|q: int|
                n <= q < n + j ==> #[trigger] out@[q] == spec_shot_entity(
                    buf@[q - n],
                    (next0 + q - n) as u64,
                ),
            upd.len() == n,
            forall|q: int| 0 <= q < n ==> entity_wf(#[trigger] upd[q]),
            forall|q: int| 0 <= q < n ==> (#[trigger] upd[q]).id == s0[q].id,
        decreases k - j,
    {
        let id: u64 = world.next_id + (j as u64);
        let e = shot_entity(&buf[j], id);
        out.push(e);
        j = j + 1;
    }
    let new_next: u64 = world.next_id + (k as u64);
    world.entities = out;
    world.next_id = new_next;
    proof {
        let spec_r = spec_plane_input(s0, next0, held, dt as int);
        assert(world.entities@ =~= spec_r.0);
        assert forall|q: int| 0 <= q < world.entities@.len() implies entity_wf(
            #[trigger] world.entities@[q],
        ) by {
            if q < n {
            } else {
                assert(world.entities@[q] == spec_shot_entity(buf@[q - n], (next0 + q - n) as u64));
            }
        }
        assert forall|q: int| 0 <= q < world.entities@.len() implies (
        #[trigger] world.entities@[q]).id < world.next_id by {
            if q < n {
                assert(world.entities@[q].id == s0[q].id);
            } else {
                assert(world.entities@[q].id == next0 + q - n);
            }
        }
        assert forall|q1: int, q2: int|
            0 <= q1 < q2 < world.entities@.len() implies (#[trigger] world.entities@[q1]).id != (
        #[trigger] world.entities@[q2]).id by {
            if q1 < n && q2 < n {
                assert(world.entities@[q1].id == s0[q1].id);
                assert(world.entities@[q2].id == s0[q2].id);
            } else if q1 < n {
                assert(world.entities@[q1].id == s0[q1].id);
                assert(world.entities@[q2].id == next0 + q2 - n);
            } else {
                assert(world.entities@[q1].id == next0 + q1 - n);
                assert(world.entities@[q2].id == next0 + q2 - n);
            }
        }
    }
}

/// One entity after the flight-dynamics step, entities without flight
/// state untouched.
pub open spec fn move_entity(e: Entity, dt: int) -> Entity {
    if e.mob is Some && e.transform is Some {
        let r = spec_movement(e.mob.unwrap(), e.transform.unwrap(), dt);
        Entity { mob: Option::Some(r.0), transform: Option::Some(r.1), ..e }
    } else {
        e
    }
}

/// The whole store after the flight-dynamics pass.
pub open spec fn spec_movement_sys(s: Seq<Entity>, dt: int) -> Seq<Entity> {
    Seq::new(s.len(), |i: int| move_entity(s[i], dt))
}

/// Integrate every mob's velocity and position over `dt`.
pub fn movement_system(world: &mut World, dt: i64)
    requires
        old(world).wf(),
        0 <= dt <= TIME_CAP,
    ensures
        final(world).wf(),
        final(world).entities@ == spec_movement_sys(old(world).entities@, dt as int),
        final(world).next_id == old(world).next_id,
{
    let ghost s0 = world.entities@;
    let n: usize = world.entities.len();
    let mut out: Vec<Entity> = Vec::new();
    let mut i: usize = 0;
    while i < n
        invariant
            world.entities@ == s0,
            old(world).wf(),
            n == s0.len(),
            0 <= i <= n,
            0 <= dt <= TIME_CAP,
            out@.len() == i,
            forall|j: int| 0 <= j < i ==> #[trigger] out@[j] == move_entity(s0[j], dt as int),
            forall|j: int| 0 <= j < i ==> entity_wf(#[trigger] out@[j]),
            forall|j: int| 0 <= j < i ==> (#[trigger] out@[j]).id == s0[j].id,
        decreases n - i,
    {
        let e: Entity = world.entities[i];
        assert(entity_wf(e));
        if e.mob.is_some() && e.transform.is_some() {
            let mob = e.mob.unwrap();
            let t = e.transform.unwrap();
            let r = movement_step(&mob, &t, dt);
            out.push(Entity { mob: Some(r.0), transform: Some(r.1), ..e });
        } else {
            out.push(e);
        }
        i = i + 1;
    }
    world.entities = out;
    proof {
        assert(world.entities@ =~= spec_movement_sys(s0, dt as int));
    }
}

/// One entity after the flip-animation step, entities without a plane
/// untouched.
pub open spec fn flip_entity(e: Entity, dt: int) -> Entity {
    if e.plane is Some && e.transform is Some && e.sprite_index is Some {
        let r = spec_flip(e.plane.unwrap(), e.transform.unwrap(), e.sprite_index.unwrap() as int,
            dt);
        Entity { plane: Option::Some(r.0), sprite_index: Option::Some(r.1 as usize), ..e }
    } else {
        e
    }
}

/// The whole store after the flip-animation pass.
pub open spec fn spec_flip_sys(s: Seq<Entity>, dt: int) -> Seq<Entity> {
    Seq::new(s.len(), |i: int| flip_entity(s[i], dt))
}

/// Advance every plane's flip timers and sprite frame over `dt`.
pub fn plane_flip_system(world: &mut World, dt: i64)
    requires
        old(world).wf(),
        0 <= dt <= TIME_CAP,
    ensures
        final(world).wf(),
        final(world).entities@ == spec_flip_sys(old(world).entities@, dt as int),
        final(world).next_id == old(world).next_id,
{
    let ghost s0 = world.entities@;
    let n: usize = world.entities.len();
    let mut out: Vec<Entity> = Vec::new();
    let mut i: usize = 0;
    while i < n
        invariant
            world.entities@ == s0,
            old(world).wf(),
            n == s0.len(),
            0 <= i <= n,
            0 <= dt <= TIME_CAP,
            out@.len() == i,
            forall|j: int| 0 <= j < i ==> #[trigger] out@[j] == flip_entity(s0[j], dt as int),
            forall|j: int| 0 <= j < i ==> entity_wf(#[trigger] out@[j]),
            forall|j: int| 0 <= j < i ==> (#[trigger] out@[j]).id == s0[j].id,
        decreases n - i,
    {
        let e: Entity = world.entities[i];
        assert(entity_wf(e));
        if e.plane.is_some() && e.transform.is_some() && e.sprite_index.is_some() {
            let p = e.plane.unwrap();
            let t = e.transform.unwrap();
            let idx = e.sprite_index.unwrap();
            let r = flip_step(&p, &t, idx, dt);
            out.push(Entity { plane: Some(r.0), sprite_index: Some(r.1), ..e });
        } else {
            out.push(e);
        }
        i = i + 1;
    }
    world.entities = out;
    proof {
        assert(world.entities@ =~= spec_flip_sys(s0, dt as int));
    }
}

/// The colliders of the store, in store order, as the collision pass
/// tests them.
pub open spec fn collider_views(s: Seq<Entity>) -> Seq<ColliderBox>
    decreases s.len(),
{
    if s.len() == 0 {
        Seq::empty()
    } else {
        let r = collider_views(s.drop_last());
        let e = s.last();
        if e.collider is Some {
            r.push(
                ColliderBox {
                    id: e.id,
                    kind: e.collider.unwrap(),
                    pos: e.transform.unwrap().pos,
                    size: e.box_size.unwrap(),
                },
            )
        } else {
            r
        }
    }
}

/// Whether the collision pass treats `e` as a shot.
pub open spec fn is_shot(e: Entity) -> bool {
    e.shot && e.mob is Some && e.transform is Some && e.box_size is Some
}

/// What resolving one shot against the colliders yields: its new velocity
/// and the struck scorables.
pub open spec fn shot_result(e: Entity, cols: Seq<ColliderBox>) -> (Vec2, Seq<u64>) {
    spec_resolve(e.mob.unwrap().velocity, e.transform.unwrap().pos, e.box_size.unwrap(), cols)
}

/// One entity after the collision pass's velocity update.
pub open spec fn collide_entity(e: Entity, cols: Seq<ColliderBox>) -> Entity {
    if is_shot(e) {
        Entity {
            mob: Option::Some(Mob { velocity: shot_result(e, cols).0, ..e.mob.unwrap() }),
            ..e
        }
    } else {
        e
    }
}

/// Every scorable owner struck by any shot this tick, shots in store order.
pub open spec fn removed_ids(s: Seq<Entity>, cols: Seq<ColliderBox>) -> Seq<u64>
    decreases s.len(),
{
    if s.len() == 0 {
        Seq::empty()
    } else {
        removed_ids(s.drop_last(), cols) + (if is_shot(s.last()) {
            shot_result(s.last(), cols).1
        } else {
            Seq::empty()
        })
    }
}

/// `s` without the entities whose id was struck off, order kept.
pub open spec fn spec_filter_removed(s: Seq<Entity>, rem: Seq<u64>) -> Seq<Entity>
    decreases s.len(),
{
    if s.len() == 0 {
        Seq::empty()
    } else {
        let r = spec_filter_removed(s.drop_last(), rem);
        if rem.contains(s.last().id) {
            r
        } else {
            r.push(s.last())
        }
    }
}

/// The whole store after the collision pass: every shot's velocity
/// resolved against the colliders as they stood at the start of the pass,
/// then every struck scorable removed.
pub open spec fn spec_collision_sys(s: Seq<Entity>) -> Seq<Entity> {
    let cols = collider_views(s);
    let rem = removed_ids(s, cols);
    spec_filter_removed(Seq::new(s.len(), |i: int| collide_entity(s[i], cols)), rem)
}

/// Whether `x` stands in `v`.
fn contains_u64(v: &Vec<u64>, x: u64) -> (r: bool)
    ensures
        r == v@.contains(x),
{
    let mut i: usize = 0;
    while i < v.len()
        invariant
            0 <= i <= v@.len(),
            forall|j: int| 0 <= j < i ==> v@[j] != x,
        decreases v@.len() - i,
    {
        if v[i] == x {
            return true;
        }
        i = i + 1;
    }
    false
}

/// Test every shot against every collider, in store order: reflect on
/// hits, stop a shot's scan at the first struck solid, and remove the
/// struck scorables — removals deferred to the end of the pass, so every
/// shot tests the same colliders.
pub fn shot_collision_system(world: &mut World)
    requires
        old(world).wf(),
    ensures
        final(world).wf(),
        final(world).entities@ == spec_collision_sys(old(world).entities@),
        final(world).next_id == old(world).next_id,
{
    let ghost s0 = world.entities@;
    let n: usize = world.entities.len();
    let mut cols: Vec<ColliderBox> = Vec::new();
    let mut i: usize = 0;
    while i < n
        invariant
            world.entities@ == s0,
            old(world).wf(),
            n == s0.len(),
            0 <= i <= n,
            cols@ == collider_views(s0.take(i as int)),
            forall|q: int| 0 <= q < cols@.len() ==> box_wf(#[trigger] cols@[q]),
        decreases n - i,
    {
        let e: Entity = world.entities[i];
        assert(entity_wf(e));
        proof {
            assert(s0.take(i + 1).drop_last() =~= s0.take(i as int));
            assert(s0.take(i + 1).last() == s0[i as int]);
        }
        if e.collider.is_some() {
            let t = e.transform.unwrap();
            let b = e.box_size.unwrap();
            cols.push(ColliderBox { id: e.id, kind: e.collider.unwrap(), pos: t.pos, size: b });
        }
        i = i + 1;
    }
    proof {
        assert(s0.take(s0.len() as int) =~= s0);
    }
    let mut upd: Vec<Entity> = Vec::new();
    let mut removed: Vec<u64> = Vec::new();
    let mut i2: usize = 0;
    while i2 < n
        invariant
            world.entities@ == s0,
            old(world).wf(),
            n == s0.len(),
            0 <= i2 <= n,
            cols@ == collider_views(s0),
            forall|q: int| 0 <= q < cols@.len() ==> box_wf(#[trigger] cols@[q]),
            upd@.len() == i2,
            forall|j: int| 0 <= j < i2 ==> #[trigger] upd@[j] == collide_entity(s0[j], cols@),
            forall|j: int| 0 <= j < i2 ==> entity_wf(#[trigger] upd@[j]),
            forall|j: int| 0 <= j < i2 ==> (#[trigger] upd@[j]).id == s0[j].id,
            removed@ == removed_ids(s0.take(i2 as int), cols@),
        decreases n - i2,
    {
        let e: Entity = world.entities[i2];
        assert(entity_wf(e));
        proof {
            assert(s0.take(i2 + 1).drop_last() =~= s0.take(i2 as int));
            assert(s0.take(i2 + 1).last() == s0[i2 as int]);
        }
        if e.shot {
            let m = e.mob.unwrap();
            let t = e.transform.unwrap();
            let b = e.box_size.unwrap();
            let r = resolve_shot(m.velocity, t.pos, b, &cols);
            upd.push(Entity { mob: Some(Mob { velocity: r.0, ..m }), ..e });
            let ghost rem_before = removed@;
            let hits: Vec<u64> = r.1;
            let mut q: usize = 0;
            while q < hits.len()
                invariant
                    0 <= q <= hits@.len(),
                    removed@ == rem_before + hits@.take(q as int),
                decreases hits@.len() - q,
            {
                proof {
                    assert(hits@.take(q + 1) =~= hits@.take(q as int).push(hits@[q as int]));
                    assert(rem_before + hits@.take(q + 1) =~= (rem_before + hits@.take(
                        q as int,
                    )).push(hits@[q as int]));
                }
                removed.push(hits[q]);
                q = q + 1;
            }
            proof {
                assert(hits@.take(hits@.len() as int) =~= hits@);
            }
        } else {
            upd.push(e);
            proof {
                assert(removed@ + Seq::<u64>::empty() =~= removed@);
            }
        }
        i2 = i2 + 1;
    }
    proof {
        assert(s0.take(s0.len() as int) =~= s0);
    }
    let ghost updv = upd@;
    let ghost remv = removed@;
    let mut out: Vec<Entity> = Vec::new();
    let mut i3: usize = 0;
    while i3 < n
        invariant
            world.entities@ == s0,
            old(world).wf(),
            n == s0.len(),
            0 <= i3 <= n,
            upd@ == updv,
            removed@ == remv,
            updv.len() == n,
            forall|j: int| 0 <= j < n ==> entity_wf(#[trigger] updv[j]),
            forall|j: int| 0 <= j < n ==> (#[trigger] updv[j]).id == s0[j].id,
            out@ == spec_filter_removed(updv.take(i3 as int), remv),
            out@.len() <= i3,
            forall|j: int| 0 <= j < out@.len() ==> entity_wf(#[trigger] out@[j]),
            forall|j: int| 0 <= j < out@.len() ==> exists|k: int|
                0 <= k < i3 && (#[trigger] out@[j]).id == s0[k].id,
            forall|j1: int, j2: int|
                0 <= j1 < j2 < out@.len() ==> (#[trigger] out@[j1]).id != (#[trigger] out@[j2]).id,
        decreases n - i3,
    {
        let e: Entity = upd[i3];
        proof {
            assert(updv.take(i3 + 1).drop_last() =~= updv.take(i3 as int));
            assert(updv.take(i3 + 1).last() == updv[i3 as int]);
        }
        if !contains_u64(&removed, e.id) {
            out.push(e);
        }
        i3 = i3 + 1;
    }
    proof {
        assert(updv.take(updv.len() as int) =~= updv);
        assert(updv =~= Seq::new(s0.len(), |i: int| collide_entity(s0[i], cols@)));
        assert forall|j: int| 0 <= j < out@.len() implies (#[trigger] out@[j]).id
            < old(world).next_id by {
            let k = choose|k: int| 0 <= k < n && out@[j].id == s0[k].id;
            assert(s0[k].id < old(world).next_id);
        }
    }
    world.entities = out;
}

/// The plane-control pass packaged as a system object.
pub struct PlaneSystem;

impl PlaneSystem {
    /// Run the plane-control pass; see `plane_input_system`.
    pub fn run(&self, world: &mut World, input: &InputState, dt: i64)
        requires
            old(world).wf(),
            0 <= dt <= TIME_CAP,
        ensures
            final(world).wf(),
            (final(world).entities@, final(world).next_id) == spec_plane_input(
                old(world).entities@,
                old(world).next_id,
                input.held@,
                dt as int,
            ),
    {
        plane_input_system(world, input, dt);
    }
}

/// One entity with its expiry timer advanced, entities without one
/// untouched.
pub open spec fn tick_expiry(e: Entity, dt: int) -> Entity {
    if e.expiry is Some {
        Entity { expiry: Option::Some(e.expiry.unwrap().spec_tick(dt)), ..e }
    } else {
        e
    }
}

/// Whether an entity has outlived its expiry after this tick.
pub open spec fn is_expired(e: Entity) -> bool {
    e.expiry is Some && e.expiry.unwrap().finished
}

/// The whole store after the expiry pass: timers advanced, finished
/// entities removed, order kept.
pub open spec fn spec_expiry_sys(s: Seq<Entity>, dt: int) -> Seq<Entity>
    decreases s.len(),
{
    if s.len() == 0 {
        Seq::empty()
    } else {
        let r = spec_expiry_sys(s.drop_last(), dt);
        let te = tick_expiry(s.last(), dt);
        if is_expired(te) {
            r
        } else {
            r.push(te)
        }
    }
}

/// Advance every expiry timer over `dt` and remove the entities whose
/// timer finished, immediately and unconditionally.
pub fn shot_expiry_system(world: &mut World, dt: i64)
    requires
        old(world).wf(),
        0 <= dt <= TIME_CAP,
    ensures
        final(world).wf(),
        final(world).entities@ == spec_expiry_sys(old(world).entities@, dt as int),
        final(world).next_id == old(world).next_id,
{
    let ghost s0 = world.entities@;
    let n: usize = world.entities.len();
    let mut out: Vec<Entity> = Vec::new();
    let mut i: usize = 0;
    while i < n
        invariant
            world.entities@ == s0,
            old(world).wf(),
            n == s0.len(),
            0 <= i <= n,
            0 <= dt <= TIME_CAP,
            out@ == spec_expiry_sys(s0.take(i as int), dt as int),
            out@.len() <= i,
            forall|j: int| 0 <= j < out@.len() ==> entity_wf(#[trigger] out@[j]),
            forall|j: int| 0 <= j < out@.len() ==> exists|k: int|
                0 <= k < i && (#[trigger] out@[j]).id == s0[k].id,
            forall|j1: int, j2: int|
                0 <= j1 < j2 < out@.len() ==> (#[trigger] out@[j1]).id != (#[trigger] out@[j2]).id,
        decreases n - i,
    {
        let e: Entity = world.entities[i];
        assert(entity_wf(e));
        proof {
            assert(s0.take(i + 1).drop_last() =~= s0.take(i as int));
            assert(s0.take(i + 1).last() == s0[i as int]);
        }
        let te: Entity = if e.expiry.is_some() {
            let mut timer = e.expiry.unwrap();
            timer.tick(dt);
            Entity { expiry: Some(timer), ..e }
        } else {
            e
        };
        let keep: bool = match te.expiry {
            Some(timer) => !timer.finished,
            None => true,
        };
        if keep {
            out.push(te);
        }
        i = i + 1;
    }
    proof {
        assert(s0.take(s0.len() as int) =~= s0);
        assert forall|j: int| 0 <= j < out@.len() implies (#[trigger] out@[j]).id
            < old(world).next_id by {
            let k = choose|k: int| 0 <= k < n && out@[j].id == s0[k].id;
            assert(s0[k].id < old(world).next_id);
        }
    }
    world.entities = out;
}

} // verus!
