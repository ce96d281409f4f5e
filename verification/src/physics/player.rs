//! The player's body: which cells it fills, what it bumps into, and where it
//! finds room.
//!
//! Positions and speeds are the caller's; here a body is the box of cells that
//! it touches.
use crate::environment::chunk::BlockType;
use crate::environment::world::{World, WorldState};
use vstd::prelude::*;

verus! {

/// The cells that a body touches, from the lowest to the highest on each axis,
/// both included.
#[derive(Clone, Copy, Debug, PartialEq, Eq, Structural)]
pub struct CellBox {
    pub min_x: i32,
    pub max_x: i32,
    pub min_y: i32,
    pub max_y: i32,
    pub min_z: i32,
    pub max_z: i32,
}

impl CellBox {
    pub open spec fn holds(self, x: int, y: int, z: int) -> bool {
        &&& self.min_x <= x <= self.max_x
        &&& self.min_y <= y <= self.max_y
        &&& self.min_z <= z <= self.max_z
    }

    /// The layer of cells right below the body.
    pub open spec fn under(self) -> CellBox {
        CellBox { min_y: (self.min_y - 1) as i32, max_y: (self.min_y - 1) as i32, ..self }
    }
}

/// The cell lies in the box and its block is in the way.
pub open spec fn blocks_at(w: WorldState, b: CellBox, x: int, y: int, z: int) -> bool {
    b.holds(x, y, z) && w.block_at(x, y, z).collidable()
}

/// Some block in the box is in the way.
pub open spec fn blocked(w: WorldState, b: CellBox) -> bool {
    exists|x: int, y: int, z: int| #[trigger] blocks_at(w, b, x, y, z)
}

/// Whether a body that fills the box would overlap a block.
pub fn collides_at(world: &World, b: &CellBox) -> (r: bool)
    requires
        world@.wf(),
    ensures
        r == blocked(world@, *b),
{
    let mut x: i64 = b.min_x as i64;
    while x <= b.max_x as i64
        invariant
            world@.wf(),
            b.min_x <= x,
            x <= b.max_x + 1 || x == b.min_x,
            forall|a: int, c: int, d: int|
                a < x ==> !#[trigger] blocks_at(world@, *b, a, c, d),
        decreases b.max_x + 1 - x,
    {
        let mut y: i64 = b.min_y as i64;
        while y <= b.max_y as i64
            invariant
                world@.wf(),
                b.min_x <= x <= b.max_x,
                b.min_y <= y,
                y <= b.max_y + 1 || y == b.min_y,
                forall|a: int, c: int, d: int|
                    a < x || a == x && c < y ==> !#[trigger] blocks_at(world@, *b, a, c, d),
            decreases b.max_y + 1 - y,
        {
            let mut z: i64 = b.min_z as i64;
            while z <= b.max_z as i64
                invariant
                    world@.wf(),
                    b.min_x <= x <= b.max_x,
                    b.min_y <= y <= b.max_y,
                    b.min_z <= z,
                    z <= b.max_z + 1 || z == b.min_z,
                    forall|a: int, c: int, d: int|
                        a < x || a == x && (c < y || c == y && d < z) ==> !#[trigger] blocks_at(
                            world@,
                            *b,
                            a,
                            c,
                            d,
                        ),
                decreases b.max_z + 1 - z,
            {
                if world.get_block(x as i32, y as i32, z as i32).is_collidable() {
                    assert(blocks_at(world@, *b, x as int, y as int, z as int));
                    return true;
                }
                z = z + 1;
            }
            y = y + 1;
        }
        x = x + 1;
    }
    false
}

/// Whether a body that fills the box stands on something.
pub fn is_grounded_at(world: &World, b: &CellBox) -> (r: bool)
    requires
        world@.wf(),
        b.min_y > i32::MIN,
    ensures
        r == blocked(world@, b.under()),
{
    let under = CellBox {
        min_x: b.min_x,
        max_x: b.max_x,
        min_y: b.min_y - 1,
        max_y: b.min_y - 1,
        min_z: b.min_z,
        max_z: b.max_z,
    };
    collides_at(world, &under)
}

/// Whether the body fills the cell, so that no block can be put there.
pub fn occupies_block(b: &CellBox, bx: i32, by: i32, bz: i32) -> (r: bool)
    ensures
        r == b.holds(bx as int, by as int, bz as int),
{
    b.min_x <= bx && bx <= b.max_x && b.min_y <= by && by <= b.max_y && b.min_z <= bz && bz
        <= b.max_z
}

/// How a move goes along the vertical.
#[derive(Clone, Copy, Debug, PartialEq, Eq, Structural)]
pub enum Vertical {
    Level,
    Up,
    Down,
}

/// What came of an attempt to move along one axis.
#[derive(Clone, Copy, Debug, PartialEq, Eq, Structural)]
pub struct MoveOutcome {
    /// The body takes the new position.
    pub moves: bool,
    /// The vertical speed drops to zero.
    pub stops: bool,
}

/// The cells from `x.0` to `x.1`, and so on for each axis.
pub open spec fn cells(x: (i32, i32), y: (i32, i32), z: (i32, i32)) -> CellBox {
    CellBox { min_x: x.0, max_x: x.1, min_y: y.0, max_y: y.1, min_z: z.0, max_z: z.1 }
}

fn cell_box(x: (i32, i32), y: (i32, i32), z: (i32, i32)) -> (r: CellBox)
    ensures
        r == cells(x, y, z),
{
    CellBox { min_x: x.0, max_x: x.1, min_y: y.0, max_y: y.1, min_z: z.0, max_z: z.1 }
}

/// A step that a body is about to take: the cells that it touches on each axis
/// now, and those that it would touch on that axis after the move.
#[derive(Clone, Copy, Debug)]
pub struct Step {
    pub x: (i32, i32),
    pub next_x: (i32, i32),
    pub y: (i32, i32),
    pub next_y: (i32, i32),
    pub z: (i32, i32),
    pub next_z: (i32, i32),
    /// The step has a part along X.
    pub moves_x: bool,
    /// The step has a part along Z.
    pub moves_z: bool,
    pub vertical: Vertical,
}

/// Which axes a step takes the body along.
#[derive(Clone, Copy, Debug, PartialEq, Eq, Structural)]
pub struct StepOutcome {
    pub x: bool,
    pub y: bool,
    pub z: bool,
    /// The vertical speed drops to zero.
    pub stops: bool,
}

impl Step {
    /// The cells of the body before the step.
    pub open spec fn before(self) -> CellBox {
        cells(self.x, self.y, self.z)
    }

    /// The cells of the body after the step.
    pub open spec fn after(self, r: StepOutcome) -> CellBox {
        cells(
            if r.x {
                self.next_x
            } else {
                self.x
            },
            if r.y {
                self.next_y
            } else {
                self.y
            },
            if r.z {
                self.next_z
            } else {
                self.z
            },
        )
    }

    /// What comes of the step if the body minds edges or not: an edge is where
    /// the move along that axis alone would leave nothing underfoot.
    pub open spec fn outcome(self, w: WorldState, careful: bool) -> StepOutcome {
        self.resolved(
            w,
            careful && self.moves_x && !blocked(w, cells(self.next_x, self.y, self.z).under()),
            careful && self.moves_z && !blocked(w, cells(self.x, self.y, self.next_z).under()),
        )
    }

    /// What comes of the step where the moves along X or Z may be held back:
    /// each axis starts from where the ones before it led.
    pub open spec fn resolved(self, w: WorldState, held_x: bool, held_z: bool) -> StepOutcome {
        let goes_x = !held_x && !blocked(w, cells(self.next_x, self.y, self.z));
        let x = if goes_x {
            self.next_x
        } else {
            self.x
        };
        let goes_y = !blocked(w, cells(x, self.next_y, self.z));
        let y = if goes_y {
            self.next_y
        } else {
            self.y
        };
        StepOutcome {
            x: goes_x,
            y: goes_y,
            z: !held_z && !blocked(w, cells(x, y, self.next_z)),
            stops: !goes_y && self.vertical != Vertical::Level,
        }
    }
}

/// Whether the player stands on the ground.
#[derive(Clone, Copy, Debug, PartialEq, Eq, Structural)]
pub struct Footing {
    pub on_ground: bool,
}

impl Footing {
    /// A jump leaves the ground; without ground there is no jump. Returns
    /// whether the player takes off.
    pub fn jump(&mut self) -> (r: bool)
        ensures
            r == old(self).on_ground,
            !final(self).on_ground,
    {
        let r: bool = self.on_ground;
        self.on_ground = false;
        r
    }

    /// Tries to move the body to the target box along one axis. Where something
    /// is in the way the body stays; a fall that is stopped this way lands on
    /// the ground, and any vertical move that is stopped loses its speed.
    pub fn move_axis(&mut self, world: &World, target: &CellBox, vertical: Vertical) -> (r:
        MoveOutcome)
        requires
            world@.wf(),
        ensures
            r.moves == !blocked(world@, *target),
            r.stops == (blocked(world@, *target) && vertical != Vertical::Level),
            final(self).on_ground == (old(self).on_ground || blocked(world@, *target) && vertical
                == Vertical::Down),
    {
        if collides_at(world, target) {
            if vertical == Vertical::Down {
                self.on_ground = true;
            }
            MoveOutcome { moves: false, stops: vertical != Vertical::Level }
        } else {
            MoveOutcome { moves: true, stops: false }
        }
    }

    /// Whether a crouching player keeps from stepping off an edge: on the
    /// ground, a step to the given box is held back if nothing is under it.
    pub fn holds_at_edge(&self, world: &World, crouching: bool, target: &CellBox) -> (r: bool)
        requires
            world@.wf(),
            target.min_y > i32::MIN,
        ensures
            r == (crouching && self.on_ground && !blocked(world@, target.under())),
    {
        crouching && self.on_ground && !is_grounded_at(world, target)
    }

    /// Takes one step on foot: X, then the vertical, then Z. Crouching on the
    /// ground keeps the body from stepping off an edge. After the step the body
    /// stands on the ground only if something stopped its fall.
    pub fn walk(&mut self, world: &World, step: &Step, crouching: bool) -> (r: StepOutcome)
        requires
            world@.wf(),
            step.y.0 > i32::MIN,
        ensures
            r == step.outcome(world@, crouching && old(self).on_ground),
            final(self).on_ground == (!r.y && step.vertical == Vertical::Down),
    {
        let held_x: bool = step.moves_x && self.holds_at_edge(
            world,
            crouching,
            &cell_box(step.next_x, step.y, step.z),
        );
        let held_z: bool = step.moves_z && self.holds_at_edge(
            world,
            crouching,
            &cell_box(step.x, step.y, step.next_z),
        );
        self.resolve(world, step, held_x, held_z)
    }

    /// Takes one step in the air, in the same order of the axes.
    pub fn fly(&mut self, world: &World, step: &Step) -> (r: StepOutcome)
        requires
            world@.wf(),
        ensures
            r == step.outcome(world@, false),
            final(self).on_ground == (!r.y && step.vertical == Vertical::Down),
    {
        self.resolve(world, step, false, false)
    }

    /// Moves axis by axis, leaving out the ones that are held back.
    fn resolve(&mut self, world: &World, step: &Step, held_x: bool, held_z: bool) -> (r:
        StepOutcome)
        requires
            world@.wf(),
        ensures
            r == step.resolved(world@, held_x, held_z),
            final(self).on_ground == (!r.y && step.vertical == Vertical::Down),
    {
        let mut x: (i32, i32) = step.x;
        let mut y: (i32, i32) = step.y;
        let to_x: MoveOutcome = self.move_axis(
            world,
            &cell_box(step.next_x, y, step.z),
            Vertical::Level,
        );
        let goes_x: bool = !held_x && to_x.moves;
        if goes_x {
            x = step.next_x;
        }
        self.on_ground = false;
        let to_y: MoveOutcome = self.move_axis(
            world,
            &cell_box(x, step.next_y, step.z),
            step.vertical,
        );
        if to_y.moves {
            y = step.next_y;
        }
        let to_z: MoveOutcome = self.move_axis(world, &cell_box(x, y, step.next_z), Vertical::Level);
        StepOutcome { x: goes_x, y: to_y.moves, z: !held_z && to_z.moves, stops: to_y.stops }
    }
}

/// The cells that a body touches when it stands at each of the positions of a
/// search: for every block coordinate from `radius` below to `radius` above the
/// origin the range of cells on that axis.
pub struct SearchArea {
    pub origin: (i32, i32, i32),
    pub radius: i32,
    pub spans_x: Vec<(i32, i32)>,
    pub spans_y: Vec<(i32, i32)>,
    pub spans_z: Vec<(i32, i32)>,
}

impl SearchArea {
    pub open spec fn wf(&self) -> bool {
        &&& 0 <= self.radius < 0x1000_0000
        &&& self.spans_x@.len() == 2 * self.radius + 1
        &&& self.spans_y@.len() == 2 * self.radius + 1
        &&& self.spans_z@.len() == 2 * self.radius + 1
        &&& i32::MIN <= self.origin.0 - self.radius && self.origin.0 + self.radius <= i32::MAX
        &&& i32::MIN < self.origin.1 - self.radius && self.origin.1 + self.radius <= i32::MAX
        &&& i32::MIN <= self.origin.2 - self.radius && self.origin.2 + self.radius <= i32::MAX
    }

    /// The cells of a body at an offset from the origin.
    pub open spec fn body(&self, dx: int, dy: int, dz: int) -> CellBox {
        CellBox {
            min_x: self.spans_x@[dx + self.radius].0,
            max_x: self.spans_x@[dx + self.radius].1,
            min_y: self.spans_y@[dy + self.radius].0,
            max_y: self.spans_y@[dy + self.radius].1,
            min_z: self.spans_z@[dz + self.radius].0,
            max_z: self.spans_z@[dz + self.radius].1,
        }
    }

    pub open spec fn place(&self, dx: int, dy: int, dz: int) -> (i32, i32, i32) {
        (
            (self.origin.0 + dx) as i32,
            (self.origin.1 + dy) as i32,
            (self.origin.2 + dz) as i32,
        )
    }

    /// A body has room at the offset and, where a floor is asked for, stands on
    /// a block.
    pub open spec fn suits(&self, w: WorldState, floor: bool, dx: int, dy: int, dz: int) -> bool {
        &&& !blocked(w, self.body(dx, dy, dz))
        &&& floor ==> w.block_at(
            self.origin.0 + dx,
            self.origin.1 + dy - 1,
            self.origin.2 + dz,
        ).collidable()
    }

    /// The offset suits and lies on the surface of the cube of radius `r`.
    pub open spec fn suits_on_shell(
        &self,
        w: WorldState,
        r: int,
        floor: bool,
        dx: int,
        dy: int,
        dz: int,
    ) -> bool {
        on_shell(r, dx, dy, dz) && self.suits(w, floor, dx, dy, dz)
    }

    /// Nothing on the shell suits.
    pub open spec fn shell_is_full(&self, w: WorldState, r: int, floor: bool) -> bool {
        forall|dx: int, dy: int, dz: int| !#[trigger] self.suits_on_shell(w, r, floor, dx, dy, dz)
    }

    /// The place is the first on the shell that suits, X before Y before Z.
    pub open spec fn first_on_shell(
        &self,
        w: WorldState,
        r: int,
        floor: bool,
        p: (i32, i32, i32),
    ) -> bool {
        exists|dx: int, dy: int, dz: int|
            p == self.place(dx, dy, dz) && #[trigger] self.is_first(w, r, floor, dx, dy, dz)
    }

    pub open spec fn is_first(
        &self,
        w: WorldState,
        r: int,
        floor: bool,
        dx: int,
        dy: int,
        dz: int,
    ) -> bool {
        &&& self.suits_on_shell(w, r, floor, dx, dy, dz)
        &&& forall|a: int, b: int, c: int|
            a < dx || a == dx && (b < dy || b == dy && c < dz) ==> !#[trigger] self.suits_on_shell(
                w,
                r,
                floor,
                a,
                b,
                c,
            )
    }

    /// The place is the nearest one with room: on the smallest shell that has
    /// one, with a floor under it if that shell has such a place.
    pub open spec fn is_nearest(&self, w: WorldState, r: int, p: (i32, i32, i32)) -> bool {
        &&& 0 <= r <= self.radius
        &&& forall|q: int| 0 <= q < r ==> #[trigger] self.shell_is_full(w, q, false)
        &&& self.first_on_shell(w, r, true, p) || self.shell_is_full(w, r, true)
            && self.first_on_shell(w, r, false, p)
    }

    /// What the search finds.
    pub open spec fn finds(&self, w: WorldState, p: (i32, i32, i32)) -> bool {
        exists|r: int| #[trigger] self.is_nearest(w, r, p)
    }
}

/// The offset lies on the surface of the cube of radius `r`.
pub open spec fn on_shell(r: int, dx: int, dy: int, dz: int) -> bool {
    &&& -r <= dx <= r && -r <= dy <= r && -r <= dz <= r
    &&& dx == -r || dx == r || dy == -r || dy == r || dz == -r || dz == r
}

impl SearchArea {
    /// Whether a body has room at the offset, with a floor if one is asked for.
    fn check(&self, world: &World, floor: bool, dx: i32, dy: i32, dz: i32) -> (r: bool)
        requires
            self.wf(),
            world@.wf(),
            -self.radius <= dx <= self.radius,
            -self.radius <= dy <= self.radius,
            -self.radius <= dz <= self.radius,
        ensures
            r == self.suits(world@, floor, dx as int, dy as int, dz as int),
    {
        let sx: (i32, i32) = self.spans_x[(dx + self.radius) as usize];
        let sy: (i32, i32) = self.spans_y[(dy + self.radius) as usize];
        let sz: (i32, i32) = self.spans_z[(dz + self.radius) as usize];
        let body = CellBox {
            min_x: sx.0,
            max_x: sx.1,
            min_y: sy.0,
            max_y: sy.1,
            min_z: sz.0,
            max_z: sz.1,
        };
        assert(body == self.body(dx as int, dy as int, dz as int));
        if collides_at(world, &body) {
            return false;
        }
        !floor || world.get_block(
            self.origin.0 + dx,
            self.origin.1 + dy - 1,
            self.origin.2 + dz,
        ).is_collidable()
    }

    /// The first place on the shell of radius `r` that suits.
    fn find_free_in_shell(&self, world: &World, r: i32, floor: bool) -> (found: Option<
        (i32, i32, i32),
    >)
        requires
            self.wf(),
            world@.wf(),
            0 <= r <= self.radius,
        ensures
            found matches Some(p) ==> self.first_on_shell(world@, r as int, floor, p),
            found is None <==> self.shell_is_full(world@, r as int, floor),
    {
        let mut dx: i32 = -r;
        while dx <= r
            invariant
                self.wf(),
                world@.wf(),
                0 <= r <= self.radius,
                -r <= dx <= r + 1,
                forall|a: int, b: int, c: int|
                    a < dx ==> !#[trigger] self.suits_on_shell(world@, r as int, floor, a, b, c),
            decreases r + 1 - dx,
        {
            let mut dy: i32 = -r;
            while dy <= r
                invariant
                    self.wf(),
                    world@.wf(),
                    0 <= r <= self.radius,
                    -r <= dx <= r,
                    -r <= dy <= r + 1,
                    forall|a: int, b: int, c: int|
                        a < dx || a == dx && b < dy ==> !#[trigger] self.suits_on_shell(
                            world@,
                            r as int,
                            floor,
                            a,
                            b,
                            c,
                        ),
                decreases r + 1 - dy,
            {
                let mut dz: i32 = -r;
                while dz <= r
                    invariant
                        self.wf(),
                        world@.wf(),
                        0 <= r <= self.radius,
                        -r <= dx <= r,
                        -r <= dy <= r,
                        -r <= dz <= r + 1,
                        forall|a: int, b: int, c: int|
                            a < dx || a == dx && (b < dy || b == dy && c < dz)
                                ==> !#[trigger] self.suits_on_shell(
                                world@,
                                r as int,
                                floor,
                                a,
                                b,
                                c,
                            ),
                    decreases r + 1 - dz,
                {
                    let shell: bool = dx == -r || dx == r || dy == -r || dy == r || dz == -r || dz
                        == r;
                    if shell && self.check(world, floor, dx, dy, dz) {
                        proof {
                            assert(self.suits_on_shell(
                                world@,
                                r as int,
                                floor,
                                dx as int,
                                dy as int,
                                dz as int,
                            ));
                            assert(self.is_first(
                                world@,
                                r as int,
                                floor,
                                dx as int,
                                dy as int,
                                dz as int,
                            ));
                        }
                        return Some(
                            (self.origin.0 + dx, self.origin.1 + dy, self.origin.2 + dz),
                        );
                    }
                    dz = dz + 1;
                }
                dy = dy + 1;
            }
            dx = dx + 1;
        }
        None
    }

    /// The nearest place where a body has room, within the radius of the area.
    pub fn find_nearest_free_position(&self, world: &World) -> (found: Option<(i32, i32, i32)>)
        requires
            self.wf(),
            world@.wf(),
        ensures
            found matches Some(p) ==> self.finds(world@, p),
            found is None <==> forall|r: int|
                0 <= r <= self.radius ==> #[trigger] self.shell_is_full(world@, r, false),
    {
        let mut r: i32 = 0;
        while r <= self.radius
            invariant
                self.wf(),
                world@.wf(),
                0 <= r <= self.radius + 1,
                forall|q: int| 0 <= q < r ==> #[trigger] self.shell_is_full(world@, q, false),
            decreases self.radius + 1 - r,
        {
            if let Some(p) = self.find_free_in_shell(world, r, true) {
                assert(self.is_nearest(world@, r as int, p));
                proof {
                    lemma_floor_is_extra(self, world@, r as int);
                }
                return Some(p);
            }
            if let Some(p) = self.find_free_in_shell(world, r, false) {
                assert(self.is_nearest(world@, r as int, p));
                return Some(p);
            }
            r = r + 1;
        }
        None
    }
}

proof fn lemma_floor_is_extra(s: &SearchArea, w: WorldState, r: int)
    ensures
        s.shell_is_full(w, r, false) ==> s.shell_is_full(w, r, true),
{
    if s.shell_is_full(w, r, false) {
        assert forall|dx: int, dy: int, dz: int| !#[trigger] s.suits_on_shell(
            w,
            r,
            true,
            dx,
            dy,
            dz,
        ) by {
            assert(!s.suits_on_shell(w, r, false, dx, dy, dz));
        }
    }
}

/// A rescued player has room, and no place closer to the origin (in the sense
/// of the largest difference along an axis) has any.
pub proof fn law_rescue_finds_the_nearest_room(
    s: &SearchArea,
    w: WorldState,
    r: int,
    p: (i32, i32, i32),
    dx: int,
    dy: int,
    dz: int,
)
    requires
        s.is_nearest(w, r, p),
    ensures
        exists|a: int, b: int, c: int|
            on_shell(r, a, b, c) && p == s.place(a, b, c) && !#[trigger] blocked(
                w,
                s.body(a, b, c),
            ),
        -r < dx < r && -r < dy < r && -r < dz < r ==> blocked(w, s.body(dx, dy, dz)),
{
    let floor = s.first_on_shell(w, r, true, p);
    let (a, b, c) = choose|a: int, b: int, c: int|
        p == s.place(a, b, c) && #[trigger] s.is_first(w, r, floor, a, b, c);
    assert(!blocked(w, s.body(a, b, c)));
    if -r < dx < r && -r < dy < r && -r < dz < r {
        let ax = if dx < 0 {
            -dx
        } else {
            dx
        };
        let ay = if dy < 0 {
            -dy
        } else {
            dy
        };
        let az = if dz < 0 {
            -dz
        } else {
            dz
        };
        let q = if ax >= ay && ax >= az {
            ax
        } else if ay >= az {
            ay
        } else {
            az
        };
        assert(on_shell(q, dx, dy, dz));
        assert(s.shell_is_full(w, q, false));
        assert(!s.suits_on_shell(w, q, false, dx, dy, dz));
    }
}

/// A body that is free before a step is free after it.
pub proof fn law_steps_end_in_room(w: WorldState, step: Step, careful: bool)
    requires
        !blocked(w, step.before()),
    ensures
        !blocked(w, step.after(step.outcome(w, careful))),
{
}

/// Along each axis a step takes the body all the way or not at all, and a fall
/// that is stopped loses its speed. So a body that stands on the ground after a
/// step does not fall any more.
pub proof fn law_landing_stops_the_fall(w: WorldState, step: Step, careful: bool)
    ensures
        ({
            let r = step.outcome(w, careful);
            let end = step.after(r);
            &&& (end.min_x, end.max_x) == step.x || (end.min_x, end.max_x) == step.next_x
            &&& (end.min_y, end.max_y) == step.y || (end.min_y, end.max_y) == step.next_y
            &&& (end.min_z, end.max_z) == step.z || (end.min_z, end.max_z) == step.next_z
            &&& !r.y && step.vertical == Vertical::Down ==> r.stops
        }),
{
}

/// Crouching, a body that walks in a straight line along X or Z does not leave
/// its ground: it stays on the same layer with something underfoot, as long as
/// the fall of one step is no longer than the body.
pub proof fn law_crouching_keeps_the_ground(w: WorldState, step: Step)
    requires
        step.y.0 > i32::MIN,
        blocked(w, step.before().under()),
        !step.moves_x ==> step.next_x == step.x,
        !step.moves_z ==> step.next_z == step.z,
        !step.moves_x || !step.moves_z,
        step.next_y.0 <= step.y.0 && step.y.0 - 1 <= step.next_y.1,
    ensures
        ({
            let end = step.after(step.outcome(w, true));
            end.min_y == step.y.0 && blocked(w, end.under())
        }),
{
    let r = step.outcome(w, true);
    let x = if r.x {
        step.next_x
    } else {
        step.x
    };
    let ground = cells(x, step.y, step.z).under();
    let (a, b, c) = choose|a: int, b: int, c: int| #[trigger] blocks_at(w, ground, a, b, c);
    assert(blocks_at(w, ground, a, b, c));
    if step.next_y.0 < step.y.0 {
        assert(blocks_at(w, cells(x, step.next_y, step.z), a, b, c));
    }
}

/// A body never ends a step inside a block: it takes the new position only
/// where nothing is in the way.
pub proof fn law_moves_only_into_room(w: WorldState, target: CellBox, x: int, y: int, z: int)
    requires
        !blocked(w, target),
        target.holds(x, y, z),
    ensures
        !w.block_at(x, y, z).collidable(),
{
    assert(!blocks_at(w, target, x, y, z));
}

/// A box of cells is blocked exactly by the collidable blocks in it: one such
/// block anywhere in it is enough, and air and water are no obstacle.
pub proof fn law_only_collidable_blocks_are_in_the_way(
    w: WorldState,
    b: CellBox,
    x: int,
    y: int,
    z: int,
)
    ensures
        b.min_x <= x <= b.max_x && b.min_y <= y <= b.max_y && b.min_z <= z <= b.max_z && w.block_at(
            x,
            y,
            z,
        ).collidable() ==> blocked(w, b),
        (forall|i: int, j: int, k: int|
            b.min_x <= i <= b.max_x && b.min_y <= j <= b.max_y && b.min_z <= k <= b.max_z ==> (
            #[trigger] w.block_at(i, j, k) == BlockType::Air || w.block_at(i, j, k) is Water))
            ==> !blocked(w, b),
{
    if b.min_x <= x <= b.max_x && b.min_y <= y <= b.max_y && b.min_z <= z <= b.max_z && w.block_at(
        x,
        y,
        z,
    ).collidable() {
        assert(blocks_at(w, b, x, y, z));
    }
}

/// The cells of a body with one span of cells along each axis are free.
pub open spec fn room(w: WorldState, x: (i32, i32), y: (i32, i32), z: (i32, i32)) -> bool {
    !blocked(
        w,
        CellBox { min_x: x.0, max_x: x.1, min_y: y.0, max_y: y.1, min_z: z.0, max_z: z.1 },
    )
}

/// Nothing but blocks and edges holds a body back, whichever way it goes. Along
/// X it moves where the cells beside it are free; then up or down where those
/// above or below its new place are free; then along Z from where it is by then.
pub proof fn law_free_steps_are_taken(w: WorldState, step: Step)
    ensures
        ({
            let r = step.outcome(w, false);
            let x = if r.x {
                step.next_x
            } else {
                step.x
            };
            let y = if r.y {
                step.next_y
            } else {
                step.y
            };
            &&& r.x <==> room(w, step.next_x, step.y, step.z)
            &&& r.y <==> room(w, x, step.next_y, step.z)
            &&& r.z <==> room(w, x, y, step.next_z)
            &&& r.stops <==> !r.y && step.vertical != Vertical::Level
        }),
{
}

/// Minding edges holds a body back along X or Z only, and only where it moves
/// along that axis and nothing is under the place that this move alone leads to.
/// Otherwise the step is the one of a body that minds none.
pub proof fn law_edges_hold_only_over_a_drop(w: WorldState, step: Step)
    requires
        i32::MIN < step.y.0,
    ensures
        ({
            let below = ((step.y.0 - 1) as i32, (step.y.0 - 1) as i32);
            let r = step.outcome(w, true);
            let x = if r.x {
                step.next_x
            } else {
                step.x
            };
            let y = if r.y {
                step.next_y
            } else {
                step.y
            };
            &&& r.x <==> room(w, step.next_x, step.y, step.z) && !(step.moves_x && room(
                w,
                step.next_x,
                below,
                step.z,
            ))
            &&& r.y <==> room(w, x, step.next_y, step.z)
            &&& r.z <==> room(w, x, y, step.next_z) && !(step.moves_z && room(
                w,
                step.x,
                below,
                step.next_z,
            ))
        }),
{
}

/// A rescue prefers firm ground: if some place as near as the one found has room
/// and a block to stand on, the one found has too.
pub proof fn law_rescue_prefers_ground(
    s: &SearchArea,
    w: WorldState,
    r: int,
    p: (i32, i32, i32),
    dx: int,
    dy: int,
    dz: int,
)
    requires
        s.wf(),
        s.is_nearest(w, r, p),
        -r <= dx <= r && -r <= dy <= r && -r <= dz <= r,
        dx == r || dx == -r || dy == r || dy == -r || dz == r || dz == -r,
        !blocked(w, s.body(dx, dy, dz)),
        w.block_at(
            s.origin.0 + dx,
            s.origin.1 + dy - 1,
            s.origin.2 + dz,
        ).collidable(),
    ensures
        w.block_at(p.0 as int, p.1 - 1, p.2 as int).collidable(),
{
    assert(s.suits_on_shell(w, r, true, dx, dy, dz));
    assert(!s.shell_is_full(w, r, true));
    let (a, b, c) = choose|a: int, b: int, c: int|
        p == s.place(a, b, c) && #[trigger] s.is_first(w, r, true, a, b, c);
    assert(s.suits(w, true, a, b, c));
    assert(p.0 == s.origin.0 + a && p.1 == s.origin.1 + b && p.2 == s.origin.2 + c);
}

/// A place of the search is so many blocks from its origin as its offset says,
/// and the body there touches the cells of that offset along each axis.
pub proof fn law_places_follow_their_offset(s: &SearchArea, dx: int, dy: int, dz: int)
    requires
        s.wf(),
        -s.radius <= dx <= s.radius,
        -s.radius <= dy <= s.radius,
        -s.radius <= dz <= s.radius,
    ensures
        s.place(dx, dy, dz).0 == s.origin.0 + dx,
        s.place(dx, dy, dz).1 == s.origin.1 + dy,
        s.place(dx, dy, dz).2 == s.origin.2 + dz,
        ({
            let b = s.body(dx, dy, dz);
            &&& (b.min_x, b.max_x) == s.spans_x@[dx + s.radius]
            &&& (b.min_y, b.max_y) == s.spans_y@[dy + s.radius]
            &&& (b.min_z, b.max_z) == s.spans_z@[dz + s.radius]
        }),
{
}

/// Of the places on one shell the one lowest along X is found, of these the one
/// lowest along Y, and of these the one lowest along Z.
pub proof fn law_search_runs_from_low_to_high(
    s: &SearchArea,
    w: WorldState,
    r: int,
    floor: bool,
    a: (int, int, int),
    b: (int, int, int),
)
    requires
        s.is_first(w, r, floor, a.0, a.1, a.2),
        s.suits_on_shell(w, r, floor, b.0, b.1, b.2),
    ensures
        a.0 < b.0 || a.0 == b.0 && (a.1 < b.1 || a.1 == b.1 && a.2 <= b.2),
{
}

/// A shell is the surface of a cube: its places are exactly so far from the
/// middle along the axis on which they are furthest.
pub proof fn law_shells_are_cubes(r: int, dx: int, dy: int, dz: int)
    requires
        0 <= r,
    ensures
        ({
            let far = |d: int| if d < 0 {
                -d
            } else {
                d
            };
            let m = if far(dx) >= far(dy) && far(dx) >= far(dz) {
                far(dx)
            } else if far(dy) >= far(dz) {
                far(dy)
            } else {
                far(dz)
            };
            on_shell(r, dx, dy, dz) <==> m == r
        }),
{
}

} // verus!
