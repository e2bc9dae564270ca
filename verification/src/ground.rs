//! Ground probe: an iterative, deduplicating downward shape-cast over a
//! model of the colliders the probe can reach this tick.
//!
//! The physics engine's cast returns one nearest hit per query; casting
//! again with every recorded entity excluded walks all candidate
//! surfaces in distance order, so a steep nearest surface can be
//! skipped in favor of a deeper walkable one.

use vstd::prelude::*;
use vstd::set_lib::lemma_int_range;
use crate::math::{Vec3Fx, abs, vec_bounded, len2_exec, COORD_LIMIT};

verus! {

/// Longest travel of the downward probe: one unit.
pub const CAST_MAX_TOI_FX: i64 = 1_000_000;

/// Capsule half-height plus probe standoff: the travel distance at
/// which the character floats exactly on a surface.
pub const FLOAT_DISTANCE_FX: i64 = 550_000;

/// Lower edge of the float-offset band accepted as grounded.
pub const GROUND_BAND_LO_FX: i64 = -300_000;

/// Upper edge of the float-offset band accepted as grounded.
pub const GROUND_BAND_HI_FX: i64 = 50_000;

/// What one collider reports when the downward probe is cast at it:
/// the collider's handle, the travel distance to impact, whether the
/// probe already overlaps it at the cast origin, and the contact
/// normal when the engine supplies details.
#[derive(Clone, Copy, Debug)]
pub struct CastHit {
    pub entity: u64,
    pub toi: i64,
    pub start_penetrating: bool,
    pub normal: Option<Vec3Fx>,
}

/// A well-formed model world: each solid collider the probe could
/// reach appears once, with a non-negative travel distance and a
/// bounded normal.
pub open spec fn world_wf(w: Seq<CastHit>) -> bool {
    &&& forall|i: int, j: int|
        0 <= i < w.len() && 0 <= j < w.len() && i != j ==> #[trigger] w[i].entity != #[trigger] w[j].entity
    &&& forall|i: int| 0 <= i < w.len() ==> 0 <= (#[trigger] w[i]).toi
    &&& forall|i: int|
        0 <= i < w.len() ==> ((#[trigger] w[i]).normal matches Some(n) ==> vec_bounded(
            n,
            COORD_LIMIT as int,
        ))
}

/// A hit the cast may return: not the character's own collider, and
/// within the probe's travel limit.
pub open spec fn eligible(h: CastHit, self_entity: u64) -> bool {
    h.entity != self_entity && h.toi <= CAST_MAX_TOI_FX
}

/// Some recorded hit already carries this entity.
pub open spec fn contains_entity(s: Seq<CastHit>, e: u64) -> bool {
    exists|i: int| #![trigger s[i]] 0 <= i < s.len() && s[i].entity == e
}

/// Travel distances never decrease along the sequence.
pub open spec fn sorted_by_toi(s: Seq<CastHit>) -> bool {
    forall|i: int, j: int| #![trigger s[i], s[j]] 0 <= i < j < s.len() ==> s[i].toi <= s[j].toi
}

/// No entity appears twice.
pub open spec fn distinct_entities(s: Seq<CastHit>) -> bool {
    forall|i: int, j: int|
        #![trigger s[i], s[j]]
        0 <= i < s.len() && 0 <= j < s.len() && i != j ==> s[i].entity != s[j].entity
}

/// Linear scan for an entity among the recorded hits.
fn has_entity(s: &Vec<CastHit>, e: u64) -> (r: bool)
    ensures
        r == contains_entity(s@, e),
{
    let n = s.len();
    let mut i: usize = 0;
    while i < n
        invariant
            i <= n,
            n == s@.len(),
            forall|j: int| #![trigger s@[j]] 0 <= j < i ==> s@[j].entity != e,
        decreases n - i,
    {
        if s[i].entity == e {
            return true;
        }
        i = i + 1;
    }
    false
}

/// One cast of the probe against the model world: what the physics
/// engine's shape-cast returns under the exclusion predicate — the
/// nearest eligible collider whose entity is not yet recorded, if any.
fn cast_shape_model(world: &Vec<CastHit>, self_entity: u64, collisions: &Vec<CastHit>) -> (r:
    Option<usize>)
    ensures
        r matches Some(idx) ==> {
            &&& idx < world@.len()
            &&& eligible(world@[idx as int], self_entity)
            &&& !contains_entity(collisions@, world@[idx as int].entity)
            &&& forall|k: int|
                #![trigger world@[k]]
                0 <= k < world@.len() && eligible(world@[k], self_entity) && !contains_entity(
                    collisions@,
                    world@[k].entity,
                ) ==> world@[idx as int].toi <= world@[k].toi
        },
        r is None ==> forall|k: int|
            #![trigger world@[k]]
            0 <= k < world@.len() && eligible(world@[k], self_entity) ==> contains_entity(
                collisions@,
                world@[k].entity,
            ),
{
    let n = world.len();
    let mut best: Option<usize> = None;
    let mut k: usize = 0;
    while k < n
        invariant
            k <= n,
            n == world@.len(),
            best matches Some(b) ==> {
                &&& b < k
                &&& eligible(world@[b as int], self_entity)
                &&& !contains_entity(collisions@, world@[b as int].entity)
                &&& forall|m: int|
                    #![trigger world@[m]]
                    0 <= m < k && eligible(world@[m], self_entity) && !contains_entity(
                        collisions@,
                        world@[m].entity,
                    ) ==> world@[b as int].toi <= world@[m].toi
            },
            best is None ==> forall|m: int|
                #![trigger world@[m]]
                0 <= m < k && eligible(world@[m], self_entity) ==> contains_entity(
                    collisions@,
                    world@[m].entity,
                ),
        decreases n - k,
    {
        let h = world[k];
        if h.entity != self_entity && h.toi <= CAST_MAX_TOI_FX && !has_entity(
            collisions,
            h.entity,
        ) {
            match best {
                None => {
                    best = Some(k);
                },
                Some(b) => {
                    if h.toi < world[b].toi {
                        best = Some(k);
                    }
                },
            }
        }
        k = k + 1;
    }
    best
}

/// Walk every eligible collider of the model world, nearest first,
/// recording each once: each pass excludes everything recorded so far,
/// so the exclusion set strictly grows and the loop stops after at
/// most one pass per collider.
pub fn intersections(world: &Vec<CastHit>, self_entity: u64, collisions: &mut Vec<CastHit>)
    requires
        world_wf(world@),
    ensures
        final(collisions)@.len() <= world@.len(),
        final(collisions)@.len() == world@.filter(|h: CastHit| eligible(h, self_entity)).len(),
        sorted_by_toi(final(collisions)@),
        distinct_entities(final(collisions)@),
        forall|i: int|
            #![trigger final(collisions)@[i]]
            0 <= i < final(collisions)@.len() ==> world@.contains(final(collisions)@[i])
                && eligible(final(collisions)@[i], self_entity),
        forall|k: int|
            #![trigger world@[k]]
            0 <= k < world@.len() && eligible(world@[k], self_entity)
                ==> final(collisions)@.contains(world@[k]),
{
    collisions.clear();
    let ghost mut used: Set<int> = Set::empty();
    loop
        invariant
            world_wf(world@),
            used.finite(),
            used.len() == collisions@.len(),
            forall|idx: int| #[trigger] used.contains(idx) ==> 0 <= idx < world@.len(),
            forall|idx: int|
                #[trigger] used.contains(idx) ==> contains_entity(collisions@, world@[idx].entity),
            collisions@.len() <= world@.len(),
            sorted_by_toi(collisions@),
            distinct_entities(collisions@),
            forall|i: int|
                #![trigger collisions@[i]]
                0 <= i < collisions@.len() ==> world@.contains(collisions@[i]) && eligible(
                    collisions@[i],
                    self_entity,
                ),
            // every still-unrecorded eligible collider lies at least as
            // deep as everything recorded
            forall|k: int, i: int|
                #![trigger world@[k], collisions@[i]]
                0 <= k < world@.len() && eligible(world@[k], self_entity) && !contains_entity(
                    collisions@,
                    world@[k].entity,
                ) && 0 <= i < collisions@.len() ==> collisions@[i].toi <= world@[k].toi,
        ensures
            forall|k: int|
                #![trigger world@[k]]
                0 <= k < world@.len() && eligible(world@[k], self_entity) ==> contains_entity(
                    collisions@,
                    world@[k].entity,
                ),
        decreases world@.len() - collisions@.len(),
    {
        match cast_shape_model(world, self_entity, collisions) {
            Some(idx) => {
                let hit = world[idx];
                let ghost pre = collisions@;
                proof {
                    // the found index is fresh, so the ghost index set grows
                    if used.contains(idx as int) {
                        assert(contains_entity(pre, world@[idx as int].entity));
                        assert(false);
                    }
                    used = used.insert(idx as int);
                    lemma_int_range(0, world@.len() as int);
                    assert(used.subset_of(vstd::set_lib::set_int_range(0, world@.len() as int)));
                    vstd::set_lib::lemma_len_subset(
                        used,
                        vstd::set_lib::set_int_range(0, world@.len() as int),
                    );
                }
                collisions.push(hit);
                proof {
                    let post = collisions@;
                    assert(post =~= pre.push(hit));
                    let last = post.len() - 1;
                    // entities recorded before stay recorded
                    assert forall|idx2: int| #[trigger] used.contains(idx2) implies contains_entity(
                        post,
                        world@[idx2].entity,
                    ) by {
                        if idx2 == idx as int {
                            assert(post[last] == hit);
                        } else {
                            let w = choose|i: int|
                                #![trigger pre[i]]
                                0 <= i < pre.len() && pre[i].entity == world@[idx2].entity;
                            assert(post[w] == pre[w]);
                        }
                    }
                    // the fresh hit lies at least as deep as everything recorded,
                    // so the records stay sorted
                    assert forall|i: int, j: int|
                        #![trigger post[i], post[j]]
                        0 <= i < j < post.len() implies post[i].toi <= post[j].toi by {
                        if j < last {
                            assert(pre[i].toi <= pre[j].toi);
                        } else {
                            assert(post[i] == pre[i]);
                        }
                    }
                    assert forall|i: int, j: int|
                        #![trigger post[i], post[j]]
                        0 <= i < post.len() && 0 <= j < post.len() && i != j implies post[i].entity
                        != post[j].entity by {
                        if i < last && j < last {
                            assert(pre[i].entity != pre[j].entity);
                        } else if i == last {
                            assert(post[j] == pre[j]);
                        } else {
                            assert(post[i] == pre[i]);
                        }
                    }
                    // the fresh hit comes from the world and is eligible
                    assert forall|i: int|
                        #![trigger post[i]]
                        0 <= i < post.len() implies world@.contains(post[i]) && eligible(
                        post[i],
                        self_entity,
                    ) by {
                        if i == last {
                            assert(world@[idx as int] == hit);
                        } else {
                            assert(post[i] == pre[i]);
                        }
                    }
                    // deeper unrecorded colliders still dominate every record
                    assert forall|k: int, i: int|
                        #![trigger world@[k], post[i]]
                        0 <= k < world@.len() && eligible(world@[k], self_entity)
                            && !contains_entity(post, world@[k].entity) && 0 <= i
                            < post.len() implies post[i].toi <= world@[k].toi by {
                        assert forall|m: int|
                            #![trigger pre[m]]
                            0 <= m < pre.len() && pre[m].entity == world@[k].entity implies false by {
                            assert(post[m] == pre[m]);
                        }
                        if i < last {
                            assert(post[i] == pre[i]);
                        }
                    }
                }
            },
            None => {
                break ;
            },
        }
    }
    proof {
        // the cast excludes by entity; distinct world entities turn an
        // entity match back into the hit itself
        assert forall|k: int|
            #![trigger world@[k]]
            0 <= k < world@.len() && eligible(world@[k], self_entity) implies collisions@.contains(
            world@[k],
        ) by {
            assert(contains_entity(collisions@, world@[k].entity));
            let i = choose|i: int|
                #![trigger collisions@[i]]
                0 <= i < collisions@.len() && collisions@[i].entity == world@[k].entity;
            assert(world@.contains(collisions@[i]));
            let m = choose|m: int| 0 <= m < world@.len() && world@[m] == collisions@[i];
            if m != k {
                assert(world@[m].entity != world@[k].entity);
            }
            assert(collisions@[i] == world@[k]);
        }
        lemma_cast_walk_count(world@, collisions@, self_entity);
    }
}

/// Every element of a filtered sequence comes from the source sequence.
proof fn lemma_filter_from_source(s: Seq<CastHit>, pred: spec_fn(CastHit) -> bool)
    ensures
        forall|j: int| 0 <= j < s.filter(pred).len() ==> s.contains(#[trigger] s.filter(pred)[j]),
    decreases s.len(),
{
    reveal(Seq::filter);
    if s.len() > 0 {
        lemma_filter_from_source(s.drop_last(), pred);
        let out = s.filter(pred);
        let sub = s.drop_last().filter(pred);
        assert forall|j: int| 0 <= j < out.len() implies s.contains(out[j]) by {
            if pred(s.last()) && j == out.len() - 1 {
                assert(out[j] == s[s.len() - 1]);
            } else {
                assert(out[j] == sub[j]);
                assert(s.drop_last().contains(sub[j]));
                let k = choose|k: int|
                    0 <= k < s.drop_last().len() && s.drop_last()[k] == sub[j];
                assert(s[k] == sub[j]);
            }
        }
    }
}

/// Filtering a duplicate-free sequence leaves it duplicate-free.
proof fn lemma_filter_no_dup(s: Seq<CastHit>, pred: spec_fn(CastHit) -> bool)
    requires
        s.no_duplicates(),
    ensures
        s.filter(pred).no_duplicates(),
    decreases s.len(),
{
    reveal(Seq::filter);
    if s.len() > 0 {
        assert(s.drop_last().no_duplicates());
        lemma_filter_no_dup(s.drop_last(), pred);
        if pred(s.last()) {
            let sub = s.drop_last().filter(pred);
            let out = s.filter(pred);
            lemma_filter_from_source(s.drop_last(), pred);
            // the last element is new to the filtered prefix
            assert(!sub.contains(s.last())) by {
                if sub.contains(s.last()) {
                    let j = choose|j: int| 0 <= j < sub.len() && sub[j] == s.last();
                    assert(s.drop_last().contains(sub[j]));
                    let k = choose|k: int|
                        0 <= k < s.drop_last().len() && s.drop_last()[k] == sub[j];
                    assert(s[k] == s[s.len() - 1]);
                    assert(false);
                }
            }
            assert forall|i: int, j: int|
                0 <= i < out.len() && 0 <= j < out.len() && i != j implies out[i] != out[j] by {
                if i < out.len() - 1 && j < out.len() - 1 {
                    assert(out[i] == sub[i] && out[j] == sub[j]);
                } else if j == out.len() - 1 {
                    assert(out[i] == sub[i] && out[j] == s.last());
                } else {
                    assert(out[j] == sub[j] && out[i] == s.last());
                }
            }
        }
    }
}

/// The walk is exhaustive and duplicate-free, so it records exactly one
/// hit per collider the cast can reach: the loop's iteration count is
/// the number of eligible colliders, plus the final empty cast.
pub proof fn lemma_cast_walk_count(w: Seq<CastHit>, c: Seq<CastHit>, self_entity: u64)
    requires
        world_wf(w),
        distinct_entities(c),
        forall|i: int|
            #![trigger c[i]]
            0 <= i < c.len() ==> w.contains(c[i]) && eligible(c[i], self_entity),
        forall|k: int|
            #![trigger w[k]]
            0 <= k < w.len() && eligible(w[k], self_entity) ==> c.contains(w[k]),
    ensures
        c.len() == w.filter(|h: CastHit| eligible(h, self_entity)).len(),
{
    broadcast use vstd::seq_lib::group_filter_ensures;

    let pred = |h: CastHit| eligible(h, self_entity);
    let f = w.filter(pred);
    lemma_filter_from_source(w, pred);
    // distinct entities make both sequences duplicate-free
    assert(c.no_duplicates()) by {
        assert forall|i: int, j: int|
            0 <= i < c.len() && 0 <= j < c.len() && i != j implies c[i] != c[j] by {
            assert(c[i].entity != c[j].entity);
        }
    }
    assert(w.no_duplicates()) by {
        assert forall|i: int, j: int|
            0 <= i < w.len() && 0 <= j < w.len() && i != j implies w[i] != w[j] by {
            assert(w[i].entity != w[j].entity);
        }
    }
    lemma_filter_no_dup(w, pred);
    // the records and the filtered world hold the same hits
    assert(c.to_set() =~= f.to_set()) by {
        assert forall|x: CastHit| c.to_set().contains(x) implies f.to_set().contains(x) by {
            let i = choose|i: int| 0 <= i < c.len() && c[i] == x;
            assert(w.contains(c[i]));
            let m = choose|m: int| 0 <= m < w.len() && w[m] == x;
            assert(pred(w[m]));
            assert(f.contains(w[m]));
        }
        assert forall|x: CastHit| f.to_set().contains(x) implies c.to_set().contains(x) by {
            let j = choose|j: int| 0 <= j < f.len() && f[j] == x;
            assert(pred(f[j]));
            assert(w.contains(f[j]));
            let k = choose|k: int| 0 <= k < w.len() && w[k] == x;
            assert(c.contains(w[k]));
        }
    }
    c.unique_seq_to_set();
    f.unique_seq_to_set();
}

/// Normal within forty-five degrees of world-up: the vertical component
/// is non-negative and its square is at least half the squared length.
/// A zero normal is rejected.
pub open spec fn walkable_normal(n: Vec3Fx) -> bool {
    &&& n.spec_len2() > 0
    &&& n.y >= 0
    &&& 2 * (n.y as int) * (n.y as int) >= n.spec_len2()
}

/// Executable walkability test on a bounded normal.
fn is_walkable_normal(n: Vec3Fx) -> (r: bool)
    requires
        vec_bounded(n, COORD_LIMIT as int),
    ensures
        r == walkable_normal(n),
{
    let l2: i128 = len2_exec(n);
    let ny: i128 = n.y as i128;
    proof {
        assert(abs(ny * ny) <= 1_000_000_000_000_000_000_000_000 && ny * ny >= 0)
            by (nonlinear_arith)
            requires
                abs(ny as int) <= 1_000_000_000_000,
        ;
    }
    let ny2: i128 = ny * ny;
    proof {
        assert(2 * (n.y as int) * (n.y as int) == 2 * ((n.y as int) * (n.y as int)))
            by (nonlinear_arith);
    }
    l2 > 0 && n.y >= 0 && 2 * ny2 >= l2
}

/// A hit the controller accepts as ground: a genuine forward hit whose
/// surface normal makes an angle of at most forty-five degrees with
/// world-up. A hit carrying no contact details cannot show a walkable
/// surface, so it does not qualify.
pub open spec fn qualifying(h: CastHit) -> bool {
    &&& !h.start_penetrating
    &&& match h.normal {
        Some(n) => walkable_normal(n),
        None => false,
    }
}

fn is_qualifying(h: &CastHit) -> (r: bool)
    requires
        h.normal matches Some(n) ==> vec_bounded(n, COORD_LIMIT as int),
    ensures
        r == qualifying(*h),
{
    if h.start_penetrating {
        return false;
    }
    match h.normal {
        Some(n) => is_walkable_normal(n),
        None => false,
    }
}

/// Every hit of the sequence carries a bounded normal, if any.
pub open spec fn normals_bounded(s: Seq<CastHit>) -> bool {
    forall|i: int|
        0 <= i < s.len() ==> ((#[trigger] s[i]).normal matches Some(n) ==> vec_bounded(
            n,
            COORD_LIMIT as int,
        ))
}

/// The first recorded hit, in cast order, that qualifies as ground.
pub fn select_ground_hit(collisions: &Vec<CastHit>) -> (r: Option<CastHit>)
    requires
        normals_bounded(collisions@),
    ensures
        r matches Some(h) ==> exists|i: int|
            #![trigger collisions@[i]]
            0 <= i < collisions@.len() && collisions@[i] == h && qualifying(h) && (forall|j: int|
                #![trigger collisions@[j]]
                0 <= j < i ==> !qualifying(collisions@[j])),
        r is None ==> forall|i: int|
            #![trigger collisions@[i]]
            0 <= i < collisions@.len() ==> !qualifying(collisions@[i]),
{
    let n = collisions.len();
    let mut i: usize = 0;
    while i < n
        invariant
            i <= n,
            n == collisions@.len(),
            normals_bounded(collisions@),
            forall|j: int| #![trigger collisions@[j]] 0 <= j < i ==> !qualifying(collisions@[j]),
        decreases n - i,
    {
        let h = collisions[i];
        if is_qualifying(&h) {
            proof {
                assert(collisions@[i as int] == h);
            }
            return Some(h);
        }
        i = i + 1;
    }
    None
}

/// Float offset inside the grounded band: the walkable surface is
/// neither far below nor penetrating.
pub open spec fn in_ground_band(toi: int) -> bool {
    GROUND_BAND_LO_FX <= toi - FLOAT_DISTANCE_FX <= GROUND_BAND_HI_FX
}

/// Eligible and qualifying: a hit the verdict can rest on.
pub open spec fn qualifying_eligible(h: CastHit, self_entity: u64) -> bool {
    eligible(h, self_entity) && qualifying(h)
}

/// The ground verdict over the model world: some qualifying eligible
/// hit is nearest among qualifying eligible hits and its float offset
/// `toi - FLOAT_DISTANCE_FX` lies inside the grounded band. "No hit"
/// and a nearest walkable hit outside the band both mean airborne.
pub open spec fn spec_grounded(w: Seq<CastHit>, self_entity: u64) -> bool {
    exists|i: int|
        #![trigger w[i]]
        0 <= i < w.len() && qualifying_eligible(w[i], self_entity) && (forall|j: int|
            #![trigger w[j]]
            0 <= j < w.len() && qualifying_eligible(w[j], self_entity) ==> w[i].toi <= w[j].toi)
            && in_ground_band(w[i].toi as int)
}

/// Run the full probe over the model world and judge the verdict,
/// exactly as `spec_grounded` states it.
pub fn probe_ground(world: &Vec<CastHit>, self_entity: u64) -> (grounded: bool)
    requires
        world_wf(world@),
    ensures
        grounded == spec_grounded(world@, self_entity),
{
    let mut collisions: Vec<CastHit> = Vec::new();
    intersections(world, self_entity, &mut collisions);
    proof {
        assert forall|i: int| 0 <= i < collisions@.len() implies ((#[trigger] collisions@[i]).normal
            matches Some(nn) ==> vec_bounded(nn, COORD_LIMIT as int)) by {
            assert(world@.contains(collisions@[i]));
            let m = choose|m: int| 0 <= m < world@.len() && world@[m] == collisions@[i];
            assert(0 <= m < world@.len());
        }
    }
    match select_ground_hit(&collisions) {
        None => {
            proof {
                if spec_grounded(world@, self_entity) {
                    let i0 = choose|i: int|
                        #![trigger world@[i]]
                        0 <= i < world@.len() && qualifying_eligible(world@[i], self_entity) && (
                        forall|j: int|
                            #![trigger world@[j]]
                            0 <= j < world@.len() && qualifying_eligible(world@[j], self_entity)
                                ==> world@[i].toi <= world@[j].toi) && in_ground_band(
                            world@[i].toi as int,
                        );
                    assert(collisions@.contains(world@[i0]));
                    let c0 = choose|c: int|
                        0 <= c < collisions@.len() && collisions@[c] == world@[i0];
                    assert(!qualifying(collisions@[c0]));
                    assert(false);
                }
            }
            false
        },
        Some(h) => {
            proof {
                let i = choose|i: int|
                    #![trigger collisions@[i]]
                    0 <= i < collisions@.len() && collisions@[i] == h && qualifying(h) && (forall|
                        j: int,
                    |
                        #![trigger collisions@[j]]
                        0 <= j < i ==> !qualifying(collisions@[j]));
                assert(world@.contains(collisions@[i]));
                let m = choose|m: int| 0 <= m < world@.len() && world@[m] == collisions@[i];
                assert(0 <= world@[m].toi);
                assert(eligible(h, self_entity));
                // the selected hit is nearest among all qualifying
                // eligible colliders of the world
                assert forall|k: int|
                    #![trigger world@[k]]
                    0 <= k < world@.len() && qualifying_eligible(world@[k], self_entity) implies
                    h.toi <= world@[k].toi by {
                    assert(collisions@.contains(world@[k]));
                    let jk = choose|c: int|
                        0 <= c < collisions@.len() && collisions@[c] == world@[k];
                    if jk < i {
                        assert(!qualifying(collisions@[jk]));
                        assert(false);
                    } else if jk > i {
                        assert(collisions@[i].toi <= collisions@[jk].toi);
                    }
                }
            }
            let grounded = GROUND_BAND_LO_FX <= h.toi - FLOAT_DISTANCE_FX && h.toi
                - FLOAT_DISTANCE_FX <= GROUND_BAND_HI_FX;
            proof {
                let m = choose|m: int| 0 <= m < world@.len() && world@[m] == h;
                if grounded {
                    assert(qualifying_eligible(world@[m], self_entity));
                    assert(in_ground_band(world@[m].toi as int));
                    assert(spec_grounded(world@, self_entity));
                } else {
                    if spec_grounded(world@, self_entity) {
                        let i0 = choose|i: int|
                            #![trigger world@[i]]
                            0 <= i < world@.len() && qualifying_eligible(world@[i], self_entity)
                                && (forall|j: int|
                                #![trigger world@[j]]
                                0 <= j < world@.len() && qualifying_eligible(world@[j], self_entity)
                                    ==> world@[i].toi <= world@[j].toi) && in_ground_band(
                                world@[i].toi as int,
                            );
                        assert(world@[i0].toi <= world@[m].toi);
                        assert(h.toi <= world@[i0].toi);
                        assert(in_ground_band(h.toi as int));
                        assert(false);
                    }
                }
            }
            grounded
        },
    }
}

} // verus!
