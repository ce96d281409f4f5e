//! Walks a ray from cell to cell until it meets a block.
//!
//! The caller works out in which order the ray crosses cell borders; this module
//! decides what it meets on the way.
use crate::environment::world::{World, WorldState};
use vstd::prelude::*;

verus! {

/// An axis along which a ray enters the next cell.
#[derive(Clone, Copy, Debug, PartialEq, Eq, Structural)]
pub enum Axis {
    X,
    Y,
    Z,
}

/// What a ray met.
#[derive(Clone, Copy, Debug, PartialEq, Eq)]
pub struct RaycastHit {
    /// The block that stopped the ray.
    pub block_pos: (i32, i32, i32),
    /// The cell the ray came from, where a new block is placed.
    pub place_pos: (i32, i32, i32),
}

/// Which way a ray goes along each axis: forwards or backwards.
#[derive(Clone, Copy, Debug, PartialEq, Eq, Structural)]
pub struct RayDirection {
    pub x_forward: bool,
    pub y_forward: bool,
    pub z_forward: bool,
}

pub open spec fn sign(forward: bool) -> int {
    if forward {
        1
    } else {
        -1
    }
}

/// The cell after a step.
pub open spec fn stepped(cell: (int, int, int), dir: RayDirection, axis: Axis) -> (int, int, int) {
    match axis {
        Axis::X => (cell.0 + sign(dir.x_forward), cell.1, cell.2),
        Axis::Y => (cell.0, cell.1 + sign(dir.y_forward), cell.2),
        Axis::Z => (cell.0, cell.1, cell.2 + sign(dir.z_forward)),
    }
}

/// The cell that a ray is in after the first `n` steps.
pub open spec fn ray_cell(
    start: (int, int, int),
    dir: RayDirection,
    steps: Seq<Axis>,
    n: int,
) -> (int, int, int)
    decreases n,
{
    if n <= 0 {
        start
    } else {
        stepped(ray_cell(start, dir, steps, n - 1), dir, steps[n - 1])
    }
}

/// The ray is stopped in the cell it is in after `n` steps.
pub open spec fn stopped(
    w: WorldState,
    start: (int, int, int),
    dir: RayDirection,
    steps: Seq<Axis>,
    n: int,
) -> bool {
    let c = ray_cell(start, dir, steps, n);
    w.block_at(c.0, c.1, c.2).collidable()
}

/// The hit is at the cell after `n` steps, the first that stops the ray. The
/// cell before it is where a block is placed; a ray that starts inside a block
/// has none, and names the block itself.
pub open spec fn is_hit(
    w: WorldState,
    start: (int, int, int),
    dir: RayDirection,
    steps: Seq<Axis>,
    n: int,
    hit: RaycastHit,
) -> bool {
    let at = ray_cell(start, dir, steps, n);
    let from = ray_cell(start, dir, steps, n - 1);
    &&& 0 <= n < steps.len()
    &&& stopped(w, start, dir, steps, n)
    &&& forall|k: int| 0 <= k < n ==> !#[trigger] stopped(w, start, dir, steps, k)
    &&& hit.block_pos == (at.0 as i32, at.1 as i32, at.2 as i32)
    &&& hit.place_pos == (from.0 as i32, from.1 as i32, from.2 as i32)
}

/// The hit is where the ray is stopped first.
pub open spec fn is_first_hit(
    w: WorldState,
    start: (int, int, int),
    dir: RayDirection,
    steps: Seq<Axis>,
    hit: RaycastHit,
) -> bool {
    exists|n: int| #[trigger] is_hit(w, start, dir, steps, n, hit)
}

/// What the walk finds.
pub open spec fn finds(
    w: WorldState,
    start: (int, int, int),
    dir: RayDirection,
    steps: Seq<Axis>,
    r: Option<RaycastHit>,
) -> bool {
    match r {
        Some(hit) => is_first_hit(w, start, dir, steps, hit),
        None => forall|k: int|
            0 <= k < steps.len() ==> !#[trigger] stopped(w, start, dir, steps, k),
    }
}

/// The axis whose border comes first, by which borders come before which.
pub open spec fn nearest_axis(x_before_y: bool, x_before_z: bool, y_before_z: bool) -> Axis {
    if x_before_y && x_before_z {
        Axis::X
    } else if y_before_z {
        Axis::Y
    } else {
        Axis::Z
    }
}

/// The axis whose next border a ray crosses first, from comparing the distances
/// to the borders: X if it is nearer than both others, else Y if it is nearer
/// than Z, else Z.
pub fn next_axis(x_before_y: bool, x_before_z: bool, y_before_z: bool) -> (r: Axis)
    ensures
        r == nearest_axis(x_before_y, x_before_z, y_before_z),
{
    if x_before_y && x_before_z {
        Axis::X
    } else if y_before_z {
        Axis::Y
    } else {
        Axis::Z
    }
}

proof fn lemma_ray_cell_range(start: (int, int, int), dir: RayDirection, steps: Seq<Axis>, n: int)
    requires
        0 <= n,
    ensures
        start.0 - n <= ray_cell(start, dir, steps, n).0 <= start.0 + n,
        start.1 - n <= ray_cell(start, dir, steps, n).1 <= start.1 + n,
        start.2 - n <= ray_cell(start, dir, steps, n).2 <= start.2 + n,
    decreases n,
{
    if n > 0 {
        lemma_ray_cell_range(start, dir, steps, n - 1);
    }
}

/// Follows a ray from `start`. `steps` lists the axis of each border that the
/// ray crosses within its reach; the cell before each step is looked at, the one
/// after the last step is out of reach. Water does not stop a ray.
pub fn raycast(
    world: &World,
    start: (i32, i32, i32),
    dir: RayDirection,
    steps: &Vec<Axis>,
) -> (r: Option<RaycastHit>)
    requires
        world@.wf(),
        i32::MIN <= start.0 - steps@.len() && start.0 + steps@.len() <= i32::MAX,
        i32::MIN <= start.1 - steps@.len() && start.1 + steps@.len() <= i32::MAX,
        i32::MIN <= start.2 - steps@.len() && start.2 + steps@.len() <= i32::MAX,
    ensures
        finds(
            world@,
            (start.0 as int, start.1 as int, start.2 as int),
            dir,
            steps@,
            r,
        ),
{
    let ghost s = (start.0 as int, start.1 as int, start.2 as int);
    let (mut x, mut y, mut z): (i32, i32, i32) = start;
    let mut last_empty: (i32, i32, i32) = start;
    let mut n: usize = 0;
    while n < steps.len()
        invariant
            world@.wf(),
            s == (start.0 as int, start.1 as int, start.2 as int),
            i32::MIN <= start.0 - steps@.len() && start.0 + steps@.len() <= i32::MAX,
            i32::MIN <= start.1 - steps@.len() && start.1 + steps@.len() <= i32::MAX,
            i32::MIN <= start.2 - steps@.len() && start.2 + steps@.len() <= i32::MAX,
            n <= steps@.len(),
            (x as int, y as int, z as int) == ray_cell(s, dir, steps@, n as int),
            (last_empty.0 as int, last_empty.1 as int, last_empty.2 as int) == ray_cell(
                s,
                dir,
                steps@,
                n - 1,
            ),
            forall|k: int| 0 <= k < n ==> !#[trigger] stopped(world@, s, dir, steps@, k),
        decreases steps@.len() - n,
    {
        if world.get_block(x, y, z).is_collidable() {
            let hit = RaycastHit { block_pos: (x, y, z), place_pos: last_empty };
            assert(stopped(world@, s, dir, steps@, n as int));
            assert(is_hit(world@, s, dir, steps@, n as int, hit));
            return Some(hit);
        }
        assert(!stopped(world@, s, dir, steps@, n as int));
        last_empty = (x, y, z);
        proof {
            lemma_ray_cell_range(s, dir, steps@, n as int);
        }
        match steps[n] {
            Axis::X => {
                x = if dir.x_forward {
                    x + 1
                } else {
                    x - 1
                };
            },
            Axis::Y => {
                y = if dir.y_forward {
                    y + 1
                } else {
                    y - 1
                };
            },
            Axis::Z => {
                z = if dir.z_forward {
                    z + 1
                } else {
                    z - 1
                };
            },
        }
        n = n + 1;
    }
    None
}

/// A ray finds one thing only.
pub proof fn law_ray_has_one_outcome(
    w: WorldState,
    start: (int, int, int),
    dir: RayDirection,
    steps: Seq<Axis>,
    a: Option<RaycastHit>,
    b: Option<RaycastHit>,
)
    requires
        finds(w, start, dir, steps, a),
        finds(w, start, dir, steps, b),
    ensures
        a == b,
{
    if let Some(p) = a {
        let n = choose|n: int| #[trigger] is_hit(w, start, dir, steps, n, p);
        assert(stopped(w, start, dir, steps, n));
        if let Some(q) = b {
            let m = choose|m: int| #[trigger] is_hit(w, start, dir, steps, m, q);
            assert(stopped(w, start, dir, steps, m));
        }
    } else if let Some(q) = b {
        let m = choose|m: int| #[trigger] is_hit(w, start, dir, steps, m, q);
        assert(stopped(w, start, dir, steps, m));
    }
}

/// The block that a ray stops at is solid, and unless the ray started inside
/// it, the cell to place a block in is free and shares a face with it.
pub proof fn law_placement_cell_is_next_to_the_hit(
    w: WorldState,
    start: (int, int, int),
    dir: RayDirection,
    steps: Seq<Axis>,
    n: int,
    hit: RaycastHit,
)
    requires
        is_hit(w, start, dir, steps, n, hit),
        i32::MIN <= start.0 - steps.len() && start.0 + steps.len() <= i32::MAX,
        i32::MIN <= start.1 - steps.len() && start.1 + steps.len() <= i32::MAX,
        i32::MIN <= start.2 - steps.len() && start.2 + steps.len() <= i32::MAX,
    ensures
        w.block_at(
            hit.block_pos.0 as int,
            hit.block_pos.1 as int,
            hit.block_pos.2 as int,
        ).collidable(),
        n > 0 ==> !w.block_at(
            hit.place_pos.0 as int,
            hit.place_pos.1 as int,
            hit.place_pos.2 as int,
        ).collidable(),
        n > 0 ==> exists|axis: Axis| #[trigger]
            stopped_along(hit, dir, axis),
        n == 0 ==> hit.place_pos == hit.block_pos,
{
    lemma_ray_cell_range(start, dir, steps, n);
    if n > 0 {
        lemma_ray_cell_range(start, dir, steps, n - 1);
        assert(!stopped(w, start, dir, steps, n - 1));
        assert(stopped_along(hit, dir, steps[n - 1]));
    }
}

/// The hit block is one step along `axis` from the placement cell.
pub open spec fn stopped_along(hit: RaycastHit, dir: RayDirection, axis: Axis) -> bool {
    (hit.block_pos.0 as int, hit.block_pos.1 as int, hit.block_pos.2 as int) == stepped(
        (hit.place_pos.0 as int, hit.place_pos.1 as int, hit.place_pos.2 as int),
        dir,
        axis,
    )
}

/// A step leads into the next cell along its axis, ahead or back as the ray
/// looks, and leaves the other two coordinates.
pub proof fn law_steps_lead_to_the_next_cell(
    start: (int, int, int),
    dir: RayDirection,
    steps: Seq<Axis>,
    n: int,
)
    requires
        0 <= n < steps.len(),
    ensures
        ray_cell(start, dir, steps, 0) == start,
        ({
            let a = ray_cell(start, dir, steps, n);
            let b = ray_cell(start, dir, steps, n + 1);
            &&& steps[n] == Axis::X ==> b.1 == a.1 && b.2 == a.2 && b.0 == if dir.x_forward {
                a.0 + 1
            } else {
                a.0 - 1
            }
            &&& steps[n] == Axis::Y ==> b.0 == a.0 && b.2 == a.2 && b.1 == if dir.y_forward {
                a.1 + 1
            } else {
                a.1 - 1
            }
            &&& steps[n] == Axis::Z ==> b.0 == a.0 && b.1 == a.1 && b.2 == if dir.z_forward {
                a.2 + 1
            } else {
                a.2 - 1
            }
        }),
{
}

/// A ray stops at the first block in its way: what it finds lies on its path,
/// everything before it lets it pass, and if it finds nothing then nothing on
/// its path would have stopped it.
pub proof fn law_rays_stop_at_the_first_block(
    w: WorldState,
    start: (int, int, int),
    dir: RayDirection,
    steps: Seq<Axis>,
    r: Option<RaycastHit>,
    k: int,
)
    requires
        finds(w, start, dir, steps, r),
        0 <= k < steps.len(),
        i32::MIN <= start.0 - steps.len() && start.0 + steps.len() <= i32::MAX,
        i32::MIN <= start.1 - steps.len() && start.1 + steps.len() <= i32::MAX,
        i32::MIN <= start.2 - steps.len() && start.2 + steps.len() <= i32::MAX,
    ensures
        ({
            let c = ray_cell(start, dir, steps, k);
            w.block_at(c.0, c.1, c.2).collidable() ==> r is Some && exists|n: int|
                0 <= n <= k && #[trigger] ray_cell(start, dir, steps, n) == (
                    r->0.block_pos.0 as int,
                    r->0.block_pos.1 as int,
                    r->0.block_pos.2 as int,
                )
        }),
        r is None ==> ({
            let c = ray_cell(start, dir, steps, k);
            !w.block_at(c.0, c.1, c.2).collidable()
        }),
        r matches Some(hit) ==> w.block_at(
            hit.block_pos.0 as int,
            hit.block_pos.1 as int,
            hit.block_pos.2 as int,
        ).collidable(),
{
    let c = ray_cell(start, dir, steps, k);
    if let Some(hit) = r {
        let n = choose|n: int| #[trigger] is_hit(w, start, dir, steps, n, hit);
        law_placement_cell_is_next_to_the_hit(w, start, dir, steps, n, hit);
        lemma_ray_cell_range(start, dir, steps, n);
        if w.block_at(c.0, c.1, c.2).collidable() {
            assert(stopped(w, start, dir, steps, k));
            assert(n <= k);
        }
    } else {
        assert(!stopped(w, start, dir, steps, k));
    }
}

/// The next border is the nearest one: whatever the distances along the three
/// axes are, none is smaller than that of the axis taken.
pub proof fn law_nearest_border_is_crossed(x: int, y: int, z: int)
    ensures
        ({
            let axis = nearest_axis(x < y, x < z, y < z);
            &&& axis == Axis::X ==> x <= y && x <= z
            &&& axis == Axis::Y ==> y <= x && y <= z
            &&& axis == Axis::Z ==> z <= x && z <= y
        }),
{
}

} // verus!
