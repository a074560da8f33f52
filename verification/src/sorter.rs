//! The depth sorter: orders the sectors back to front.
//!
//! The distance of a sector is the average, over its walls, of the distance
//! from the camera to the middle of the wall. This orders sectors only
//! approximately: where sectors overlap in depth, a nearer one may be painted
//! before a farther one.
use vstd::prelude::*;
use crate::arith::clamp_i32;
use crate::arith::clamp_to_i32;
use crate::arith::isqrt;
use crate::arith::lemma_mul_bound;
use crate::arith::lemma_trunc_div_bounds;
use crate::arith::sqrt_floor;
use crate::arith::trunc_div;
use crate::player::Player;
use crate::player::Pose;
use crate::renderer::Renderer;
use crate::sector::Sector;
use crate::transform::camera_depth;
use crate::transform::camera_x;
use crate::transform::to_camera;
use crate::wall::Wall;

verus! {

/// Distance between two points of the plane, rounded down and cut off at the
/// largest `i32`.
pub open spec fn distance(x1: int, y1: int, x2: int, y2: int) -> int {
    clamp_i32(sqrt_floor((x2 - x1) * (x2 - x1) + (y2 - y1) * (y2 - y1)))
}

/// The middle between `a` and `b`, rounded toward zero.
pub open spec fn middle(a: int, b: int) -> int {
    trunc_div(a + b, 2)
}

/// Distance from the camera to the middle of a wall.
pub open spec fn wall_distance(wall: Wall, pose: Pose) -> int {
    let ax = camera_x(wall.x1 - pose.x, wall.y1 - pose.y, pose.heading);
    let ad = camera_depth(wall.x1 - pose.x, wall.y1 - pose.y, pose.heading);
    let bx = camera_x(wall.x2 - pose.x, wall.y2 - pose.y, pose.heading);
    let bd = camera_depth(wall.x2 - pose.x, wall.y2 - pose.y, pose.heading);
    distance(0, 0, middle(ax, bx), middle(ad, bd))
}

/// Sum of the distances from the camera of the walls `from .. upto`.
pub open spec fn distance_sum(walls: Seq<Wall>, pose: Pose, from: int, upto: int) -> int
    decreases upto - from,
{
    if upto <= from {
        0
    } else {
        distance_sum(walls, pose, from, upto - 1) + wall_distance(walls[upto - 1], pose)
    }
}

/// Distance of a sector from the camera: the average distance of its walls,
/// rounded down. A sector without walls is at distance 0.
pub open spec fn sector_distance(sector: Sector, walls: Seq<Wall>, pose: Pose) -> int {
    if sector.we <= sector.ws {
        0
    } else {
        distance_sum(walls, pose, sector.ws as int, sector.we as int) / (sector.we - sector.ws)
    }
}

/// A sector with its distance from the camera entered.
pub open spec fn measured(sector: Sector, walls: Seq<Wall>, pose: Pose) -> Sector {
    Sector { dist: sector_distance(sector, walls, pose) as i32, ..sector }
}

/// The sectors with their distances from the camera entered.
pub open spec fn measured_all(sectors: Seq<Sector>, walls: Seq<Wall>, pose: Pose) -> Seq<Sector> {
    Seq::new(sectors.len(), |i: int| measured(sectors[i], walls, pose))
}

/// Where a sector at distance `dist` goes into a list ordered back to front:
/// behind every sector that is at least as far away, counted from `from`.
pub open spec fn slot_from(ordered: Seq<Sector>, dist: int, from: int) -> int
    decreases ordered.len() - from,
{
    if from >= ordered.len() || ordered[from].dist < dist {
        from
    } else {
        slot_from(ordered, dist, from + 1)
    }
}

/// A list ordered back to front with one more sector put in its place.
pub open spec fn placed(ordered: Seq<Sector>, sector: Sector) -> Seq<Sector> {
    ordered.insert(slot_from(ordered, sector.dist as int, 0), sector)
}

/// The sectors ordered back to front: by distance, the farthest first.
/// Sectors at the same distance keep the order that they had.
pub open spec fn back_to_front(sectors: Seq<Sector>) -> Seq<Sector>
    decreases sectors.len(),
{
    if sectors.len() == 0 {
        sectors
    } else {
        placed(back_to_front(sectors.drop_last()), sectors.last())
    }
}

/// The order in which the sectors of a level are painted by a camera at
/// `pose`: with their distances entered, the farthest first.
pub open spec fn painting_order(sectors: Seq<Sector>, walls: Seq<Wall>, pose: Pose) -> Seq<Sector> {
    back_to_front(measured_all(sectors, walls, pose))
}

/// No sector of the list is nearer than one that comes after it.
pub open spec fn farthest_first(sectors: Seq<Sector>) -> bool {
    forall|i: int, j: int| 0 <= i < j < sectors.len() ==> sectors[i].dist >= sectors[j].dist
}

/// The slot of a sector lies inside the list, everything before it is at
/// least as far away, and what stands at it is nearer.
pub proof fn lemma_slot(ordered: Seq<Sector>, dist: int, from: int)
    requires
        0 <= from <= ordered.len(),
    ensures
        from <= slot_from(ordered, dist, from) <= ordered.len(),
        forall|k: int| from <= k < slot_from(ordered, dist, from) ==> ordered[k].dist >= dist,
        slot_from(ordered, dist, from) < ordered.len() ==> ordered[slot_from(
            ordered,
            dist,
            from,
        )].dist < dist,
    decreases ordered.len() - from,
{
    if from < ordered.len() && ordered[from].dist >= dist {
        lemma_slot(ordered, dist, from + 1);
    }
}

/// Putting a sector in its place keeps a list ordered and adds the sector to
/// it, nothing else.
pub proof fn lemma_placed(ordered: Seq<Sector>, sector: Sector)
    requires
        farthest_first(ordered),
    ensures
        farthest_first(placed(ordered, sector)),
        placed(ordered, sector).len() == ordered.len() + 1,
        placed(ordered, sector).to_multiset() =~= ordered.to_multiset().insert(sector),
{
    let at = slot_from(ordered, sector.dist as int, 0);
    lemma_slot(ordered, sector.dist as int, 0);
    let after = placed(ordered, sector);
    ordered.insert_ensures(at, sector);
    assert forall|i: int, j: int| 0 <= i < j < after.len() implies after[i].dist
        >= after[j].dist by {
        if j < at {
        } else if j == at {
        } else if i < at {
            assert(after[j] == ordered[j - 1]);
            if at < ordered.len() {
                assert(ordered[at].dist >= ordered[j - 1].dist || j - 1 == at);
            }
        } else if i == at {
            assert(after[j] == ordered[j - 1]);
            assert(ordered[at].dist >= ordered[j - 1].dist || j - 1 == at);
        } else {
            assert(after[i] == ordered[i - 1]);
            assert(after[j] == ordered[j - 1]);
        }
    }
    assert(after.remove(at) =~= ordered);
    vstd::seq_lib::to_multiset_remove(after, at);
    after.to_multiset_ensures();
    assert(after.contains(sector)) by {
        assert(after[at] == sector);
    }
}

/// Ordering back to front leaves a list in which no sector is nearer than
/// one that comes after it, and which holds the same sectors as before.
pub proof fn lemma_back_to_front(sectors: Seq<Sector>)
    ensures
        farthest_first(back_to_front(sectors)),
        back_to_front(sectors).len() == sectors.len(),
        back_to_front(sectors).to_multiset() =~= sectors.to_multiset(),
    decreases sectors.len(),
{
    if sectors.len() > 0 {
        lemma_back_to_front(sectors.drop_last());
        lemma_placed(back_to_front(sectors.drop_last()), sectors.last());
        vstd::seq_lib::to_multiset_build(sectors.drop_last(), sectors.last());
        assert(sectors.drop_last().push(sectors.last()) =~= sectors);
    }
}

impl Renderer {
    /// Distance between two points of the plane, rounded down.
    pub fn dist(x1: i32, y1: i32, x2: i32, y2: i32) -> (d: i32)
        ensures
            d == distance(x1 as int, y1 as int, x2 as int, y2 as int),
    {
        let dx: i128 = x2 as i128 - x1 as i128;
        let dy: i128 = y2 as i128 - y1 as i128;
        proof {
            lemma_mul_bound(dx as int, dx as int, 0x1_0000_0000, 0x1_0000_0000);
            lemma_mul_bound(dy as int, dy as int, 0x1_0000_0000, 0x1_0000_0000);
            assert(dx * dx >= 0) by (nonlinear_arith);
            assert(dy * dy >= 0) by (nonlinear_arith);
        }
        let squares: i128 = dx * dx + dy * dy;
        let root: u128 = isqrt(squares as u128);
        clamp_to_i32(root as i128)
    }
}

/// Distance from the camera to the middle of a wall.
pub fn measure_wall(wall: &Wall, p: &Player) -> (d: i32)
    ensures
        d == wall_distance(*wall, p@),
{
    let a = to_camera(wall.x1, wall.y1, 0, 0, p);
    let b = to_camera(wall.x2, wall.y2, 0, 0, p);
    let mx: i64 = (a.x as i64 + b.x as i64) / 2;
    let my: i64 = (a.depth as i64 + b.depth as i64) / 2;
    proof {
        lemma_trunc_div_bounds(a.x + b.x, 2);
        lemma_trunc_div_bounds(a.depth + b.depth, 2);
    }
    Renderer::dist(0, 0, mx as i32, my as i32)
}

/// Distance of a sector from the camera.
pub fn measure_sector(sector: &Sector, walls: &Vec<Wall>, p: &Player) -> (d: i32)
    requires
        sector@.walls_ok(walls@.len() as int),
    ensures
        d == sector_distance(*sector, walls@, p@),
{
    if sector.we <= sector.ws {
        return 0;
    }
    let mut sum: i64 = 0;
    let mut w: i32 = sector.ws;
    while w < sector.we
        invariant
            sector@.walls_ok(walls@.len() as int),
            sector.ws <= w <= sector.we,
            sum == distance_sum(walls@, p@, sector.ws as int, w as int),
            0 <= sum <= (w - sector.ws) * 0x7fff_ffff,
        decreases sector.we - w,
    {
        let d: i32 = measure_wall(&walls[w as usize], p);
        proof {
            assert(d >= 0) by {
                let wall = walls@[w as int];
                let pose = p@;
                let ax = camera_x(wall.x1 - pose.x, wall.y1 - pose.y, pose.heading);
                let ad = camera_depth(wall.x1 - pose.x, wall.y1 - pose.y, pose.heading);
                let bx = camera_x(wall.x2 - pose.x, wall.y2 - pose.y, pose.heading);
                let bd = camera_depth(wall.x2 - pose.x, wall.y2 - pose.y, pose.heading);
                lemma_distance_not_negative(0, 0, middle(ax, bx), middle(ad, bd));
            }
        }
        sum = sum + d as i64;
        w += 1;
    }
    let count: i64 = sector.we as i64 - sector.ws as i64;
    proof {
        lemma_trunc_div_bounds(sum as int, count as int);
        assert(sum <= count * 0x7fff_ffff);
        vstd::arithmetic::div_mod::lemma_div_is_ordered(
            sum as int,
            count * 0x7fff_ffff,
            count as int,
        );
        vstd::arithmetic::div_mod::lemma_div_by_multiple(0x7fff_ffff, count as int);
        assert(count * 0x7fff_ffff == 0x7fff_ffff * count) by (nonlinear_arith);
    }
    (sum / count) as i32
}

/// A distance is never negative.
pub proof fn lemma_distance_not_negative(x1: int, y1: int, x2: int, y2: int)
    ensures
        0 <= distance(x1, y1, x2, y2) <= i32::MAX,
{
    let n = (x2 - x1) * (x2 - x1) + (y2 - y1) * (y2 - y1);
    assert(n >= 0) by (nonlinear_arith)
        requires
            n == (x2 - x1) * (x2 - x1) + (y2 - y1) * (y2 - y1),
    ;
    crate::arith::lemma_sqrt_exists(n);
}

/// Enters the distance from the camera in every sector.
pub fn measure(sectors: &mut Vec<Sector>, walls: &Vec<Wall>, p: &Player)
    requires
        forall|i: int|
            0 <= i < old(sectors)@.len() ==> (#[trigger] old(sectors)@[i])@.walls_ok(
                walls@.len() as int,
            ),
    ensures
        final(sectors)@ == measured_all(old(sectors)@, walls@, p@),
{
    let n: usize = sectors.len();
    let mut i: usize = 0;
    while i < n
        invariant
            i <= n,
            n == sectors@.len(),
            n == old(sectors)@.len(),
            forall|k: int|
                0 <= k < n ==> (#[trigger] old(sectors)@[k])@.walls_ok(walls@.len() as int),
            forall|k: int| 0 <= k < i ==> #[trigger] sectors@[k] == measured(old(sectors)@[k], walls@, p@),
            forall|k: int| i <= k < n ==> #[trigger] sectors@[k] == old(sectors)@[k],
        decreases n - i,
    {
        let d: i32 = measure_sector(&sectors[i], walls, p);
        sectors[i].dist = d;
        i += 1;
    }
    assert(sectors@ =~= measured_all(old(sectors)@, walls@, p@));
}

/// Orders the sectors back to front by the distances entered in them, the
/// farthest first. Sectors at the same distance keep their order.
pub fn sort_by_distance(sectors: &mut Vec<Sector>)
    ensures
        final(sectors)@ == back_to_front(old(sectors)@),
        farthest_first(final(sectors)@),
        final(sectors)@.len() == old(sectors)@.len(),
        final(sectors)@.to_multiset() =~= old(sectors)@.to_multiset(),
{
    let n: usize = sectors.len();
    let mut i: usize = 0;
    assert(sectors@.subrange(0, 0) =~= back_to_front(old(sectors)@.subrange(0, 0)));
    while i < n
        invariant
            i <= n,
            n == sectors@.len(),
            n == old(sectors)@.len(),
            sectors@.subrange(0, i as int) == back_to_front(old(sectors)@.subrange(0, i as int)),
            sectors@.subrange(i as int, n as int) == old(sectors)@.subrange(i as int, n as int),
        decreases n - i,
    {
        let ghost before = sectors@;
        let ghost ordered = sectors@.subrange(0, i as int);
        let sector = sectors.remove(i);
        proof {
            assert(sector == before.subrange(i as int, n as int)[0]);
            assert(sector == old(sectors)@[i as int]);
        }
        let mut j: usize = 0;
        while j < i && sectors[j].dist >= sector.dist
            invariant
                j <= i,
                i < n,
                before.len() == n,
                sectors@ == before.remove(i as int),
                ordered == before.subrange(0, i as int),
                slot_from(ordered, sector.dist as int, 0) == slot_from(
                    ordered,
                    sector.dist as int,
                    j as int,
                ),
            decreases i - j,
        {
            proof {
                assert(ordered[j as int] == sectors@[j as int]);
            }
            j += 1;
        }
        proof {
            if j < i {
                assert(ordered[j as int] == sectors@[j as int]);
            }
            assert(slot_from(ordered, sector.dist as int, 0) == j);
        }
        sectors.insert(j, sector);
        proof {
            let upto = old(sectors)@.subrange(0, i as int + 1);
            assert(upto.drop_last() =~= old(sectors)@.subrange(0, i as int));
            assert(upto.last() == sector);
            assert(sectors@.subrange(0, i as int + 1) =~= placed(ordered, sector));
            let rest = sectors@.subrange(i as int + 1, n as int);
            let rest_before = old(sectors)@.subrange(i as int + 1, n as int);
            assert forall|k: int| 0 <= k < rest.len() implies #[trigger] rest[k]
                == rest_before[k] by {
                assert(before.subrange(i as int, n as int)[k + 1] == old(sectors)@.subrange(
                    i as int,
                    n as int,
                )[k + 1]);
            }
            assert(rest =~= rest_before);
        }
        i += 1;
    }
    proof {
        assert(sectors@.subrange(0, n as int) =~= sectors@);
        assert(old(sectors)@.subrange(0, n as int) =~= old(sectors)@);
        lemma_back_to_front(old(sectors)@);
    }
}

/// Sorts the sectors by depth: enters in every sector its distance from the
/// camera, and orders the sectors back to front by it.
pub fn depth_sort(sectors: &mut Vec<Sector>, walls: &Vec<Wall>, p: &Player)
    requires
        forall|i: int|
            0 <= i < old(sectors)@.len() ==> (#[trigger] old(sectors)@[i])@.walls_ok(
                walls@.len() as int,
            ),
    ensures
        final(sectors)@ == painting_order(old(sectors)@, walls@, p@),
        farthest_first(final(sectors)@),
        final(sectors)@.len() == old(sectors)@.len(),
        final(sectors)@.to_multiset() =~= measured_all(old(sectors)@, walls@, p@).to_multiset(),
{
    measure(sectors, walls, p);
    sort_by_distance(sectors);
}

} // verus!
