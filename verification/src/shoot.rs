//! Projectiles: spawned on the fire trigger's rising edge, removed on
//! their first physical contact.

use vstd::prelude::*;
use crate::input::ButtonState;
use crate::math::{Vec3Fx, abs, mul_fx, vec_bounded, vec3_of, lemma_mul_fx_bound, COORD_LIMIT};

verus! {

/// Speed given to a projectile at spawn, in units per second.
pub const BULLET_SPEED_FX: i64 = 200_000_000;

/// Bound asked of each component of the camera's look direction: the
/// collaborator hands in a unit vector.
pub const AIM_LIMIT: i64 = 2_000_000;

/// A live projectile: its handle and its spawn-time kinematic state.
/// The velocity is fixed at spawn; the physics engine owns the flight,
/// and the projectile never receives further control input.
#[derive(Clone, Copy, PartialEq, Eq, Structural, Debug)]
pub struct Bullet {
    pub id: u64,
    pub position: Vec3Fx,
    pub velocity: Vec3Fx,
}

/// Where the camera sits and where it looks, handed in by the transform
/// collaborator that owns the orientation trigonometry.
#[derive(Clone, Copy, PartialEq, Eq, Structural, Debug)]
pub struct CameraRay {
    pub position: Vec3Fx,
    pub forward: Vec3Fx,
}

/// A camera ray the spawner accepts: position in the world's coordinate
/// bound, look direction near unit length.
pub open spec fn camera_ray_wf(cam: CameraRay) -> bool {
    vec_bounded(cam.position, COORD_LIMIT as int) && vec_bounded(cam.forward, AIM_LIMIT as int)
}

/// The projectile one trigger edge creates: placed one unit ahead of
/// the camera along its look direction, flying that way at full speed.
pub open spec fn spec_spawned(cam: CameraRay, id: u64) -> Bullet {
    Bullet {
        id,
        position: vec3_of(
            cam.position.x + cam.forward.x,
            cam.position.y + cam.forward.y,
            cam.position.z + cam.forward.z,
        ),
        velocity: vec3_of(
            mul_fx(cam.forward.x as int, BULLET_SPEED_FX as int),
            mul_fx(cam.forward.y as int, BULLET_SPEED_FX as int),
            mul_fx(cam.forward.z as int, BULLET_SPEED_FX as int),
        ),
    }
}

/// Spawn exactly one projectile on the fire trigger's rising edge —
/// never one per tick while the trigger is merely held — and none
/// without a camera this tick.
pub fn handle_shooting(
    bullets: &mut Vec<Bullet>,
    next_id: &mut u64,
    camera: Option<CameraRay>,
    fire: ButtonState,
)
    requires
        camera matches Some(cam) ==> camera_ray_wf(cam),
        *old(next_id) < u64::MAX,
    ensures
        match camera {
            Some(cam) => if fire.spec_just_pressed() {
                &&& final(bullets)@ == old(bullets)@.push(spec_spawned(cam, *old(next_id)))
                &&& *final(next_id) == *old(next_id) + 1
            } else {
                &&& final(bullets)@ == old(bullets)@
                &&& *final(next_id) == *old(next_id)
            },
            None => final(bullets)@ == old(bullets)@ && *final(next_id) == *old(next_id),
        },
{
    match camera {
        Some(cam) => {
            if fire.just_pressed() {
                proof {
                    lemma_mul_fx_bound(
                        cam.forward.x as int,
                        BULLET_SPEED_FX as int,
                        AIM_LIMIT as int,
                        BULLET_SPEED_FX as int,
                    );
                    lemma_mul_fx_bound(
                        cam.forward.y as int,
                        BULLET_SPEED_FX as int,
                        AIM_LIMIT as int,
                        BULLET_SPEED_FX as int,
                    );
                    lemma_mul_fx_bound(
                        cam.forward.z as int,
                        BULLET_SPEED_FX as int,
                        AIM_LIMIT as int,
                        BULLET_SPEED_FX as int,
                    );
                }
                let spawn_pos = cam.position.plus(cam.forward);
                let velocity = cam.forward.scaled(BULLET_SPEED_FX);
                let bullet = Bullet { id: *next_id, position: spawn_pos, velocity };
                bullets.push(bullet);
                *next_id = *next_id + 1;
            }
        },
        None => {},
    }
}

/// Whether a projectile handle is among the entities the physics engine
/// reports as currently touching something.
fn id_in_contact(contacts: &Vec<u64>, id: u64) -> (r: bool)
    ensures
        r == contacts@.contains(id),
{
    let n = contacts.len();
    let mut i: usize = 0;
    while i < n
        invariant
            i <= n,
            n == contacts@.len(),
            forall|j: int| 0 <= j < i ==> contacts@[j] != id,
        decreases n - i,
    {
        if contacts[i] == id {
            assert(contacts@[i as int] == id);
            return true;
        }
        i = i + 1;
    }
    false
}

/// Keeps exactly the projectiles that are not in contact.
pub open spec fn surviving(bullets: Seq<Bullet>, contacts: Seq<u64>) -> Seq<Bullet> {
    bullets.filter(|b: Bullet| !contacts.contains(b.id))
}

/// Remove every projectile on its first physical contact: the engine's
/// per-entity contact query decides, and a projectile never bounces or
/// persists through contact.
pub fn bullet_collision(bullets: &mut Vec<Bullet>, contacts: &Vec<u64>)
    ensures
        final(bullets)@ == surviving(old(bullets)@, contacts@),
{
    let n = bullets.len();
    let mut kept: Vec<Bullet> = Vec::new();
    let mut i: usize = 0;
    proof {
        assert(old(bullets)@.subrange(0, 0) =~= Seq::<Bullet>::empty());
        reveal_with_fuel(Seq::filter, 1);
        assert(Seq::<Bullet>::empty().filter(|b: Bullet| !contacts@.contains(b.id)) =~= Seq::<
            Bullet,
        >::empty());
    }
    while i < n
        invariant
            i <= n,
            n == bullets@.len(),
            bullets@ == old(bullets)@,
            kept@ == bullets@.subrange(0, i as int).filter(
                |b: Bullet| !contacts@.contains(b.id),
            ),
        decreases n - i,
    {
        let b = bullets[i];
        let hit = id_in_contact(contacts, b.id);
        proof {
            let pred = |b: Bullet| !contacts@.contains(b.id);
            let pre = bullets@.subrange(0, i as int);
            let cur = bullets@.subrange(0, i + 1);
            assert(cur.drop_last() =~= pre);
            assert(cur.last() == bullets@[i as int]);
            reveal_with_fuel(Seq::filter, 2);
            if pred(b) {
                assert(cur.filter(pred) == pre.filter(pred).push(b));
            } else {
                assert(cur.filter(pred) == pre.filter(pred));
            }
        }
        if !hit {
            kept.push(b);
        }
        i = i + 1;
    }
    proof {
        assert(bullets@.subrange(0, n as int) =~= bullets@);
    }
    *bullets = kept;
}

} // verus!
