//! Flowing water: springs spread outwards up to a distance, water falls where
//! there is room below, flow that nothing feeds dries up, and sponges soak up
//! what is near them.
//!
//! The simulation is a queue of cells to look at. Only changes feed it. A tick
//! works off a bounded number of the cells that wait when it starts; what they
//! wake waits for the next tick, so water spreads step by step.
use crate::environment::chunk::BlockType;
use crate::environment::world::{
    law_get_after_set_block, remesh_after, ChunkPos, World, WorldState,
};
use std::collections::{HashSet, VecDeque};
use vstd::prelude::*;

verus! {

broadcast use vstd::std_specs::hash::group_hash_axioms;

/// Flow of this level spreads no further.
pub const MAX_FLOW_LEVEL: u8 = 7;

/// A sponge works on the cube of this radius around it.
pub const SPONGE_RADIUS: i32 = 4;

/// How many cells one tick looks at, at most.
pub const MAX_UPDATES_PER_TICK: usize = 96;

/// Coordinates of a cell in the world.
pub type CellPos = (i32, i32, i32);

/// The queue with a cell added, unless it is waiting already.
pub open spec fn queue_with(queue: Seq<CellPos>, pos: CellPos) -> Seq<CellPos> {
    if queue.contains(pos) {
        queue
    } else {
        queue.push(pos)
    }
}

/// The queue with cells added one after the other.
pub open spec fn queue_with_all(queue: Seq<CellPos>, cells: Seq<CellPos>) -> Seq<CellPos>
    decreases cells.len(),
{
    if cells.len() == 0 {
        queue
    } else {
        queue_with(queue_with_all(queue, cells.drop_last()), cells.last())
    }
}

pub open spec fn offset(pos: CellPos, dx: int, dy: int, dz: int) -> CellPos {
    ((pos.0 + dx) as i32, (pos.1 + dy) as i32, (pos.2 + dz) as i32)
}

/// The six cells next to a cell.
pub open spec fn neighbours(pos: CellPos) -> Seq<CellPos> {
    seq![
        offset(pos, 1, 0, 0),
        offset(pos, -1, 0, 0),
        offset(pos, 0, 1, 0),
        offset(pos, 0, -1, 0),
        offset(pos, 0, 0, 1),
        offset(pos, 0, 0, -1),
    ]
}

/// All cells of the cube that a sponge at `pos` works on.
pub open spec fn sponge_cube(pos: CellPos) -> Seq<CellPos> {
    Seq::new(729, |k: int| offset(pos, k / 81 - 4, (k / 9) % 9 - 4, k % 9 - 4))
}

pub open spec fn distance(a: int, b: int) -> int {
    if a < b {
        b - a
    } else {
        a - b
    }
}

/// Both cells lie in one cube of the sponge radius around the other.
pub open spec fn within_sponge_reach(a: CellPos, b: CellPos) -> bool {
    &&& distance(a.0 as int, b.0 as int) <= SPONGE_RADIUS
    &&& distance(a.1 as int, b.1 as int) <= SPONGE_RADIUS
    &&& distance(a.2 as int, b.2 as int) <= SPONGE_RADIUS
}

/// A sponge reaches the cell.
pub open spec fn soaked(sponges: Set<CellPos>, pos: CellPos) -> bool {
    exists|s: CellPos| #[trigger] sponges.contains(s) && within_sponge_reach(s, pos)
}

pub open spec fn water_level(block: BlockType) -> Option<u8> {
    match block {
        BlockType::Water(level) => Some(level),
        _ => None,
    }
}

/// The fuller of two waters: the lower level.
pub open spec fn fuller(a: Option<u8>, b: Option<u8>) -> Option<u8> {
    match (a, b) {
        (Some(x), Some(y)) => Some(
            if x <= y {
                x
            } else {
                y
            },
        ),
        (Some(x), None) => Some(x),
        (None, y) => y,
    }
}

/// The water level of the cell beside `pos`.
pub open spec fn level_beside(w: WorldState, pos: CellPos, dx: int, dz: int) -> Option<u8> {
    water_level(w.block_at(pos.0 + dx, pos.1 as int, pos.2 + dz))
}

/// The level that a cell should have by its surroundings: full under any water,
/// otherwise one step emptier than the fullest water beside it, as long as that
/// still spreads.
pub open spec fn fed_level(w: WorldState, pos: CellPos) -> Option<u8> {
    if w.block_at(pos.0 as int, pos.1 + 1, pos.2 as int) is Water {
        Some(0)
    } else {
        let best = fuller(
            fuller(level_beside(w, pos, 1, 0), level_beside(w, pos, -1, 0)),
            fuller(level_beside(w, pos, 0, 1), level_beside(w, pos, 0, -1)),
        );
        match best {
            Some(level) => if level >= MAX_FLOW_LEVEL {
                None
            } else {
                Some((level + 1) as u8)
            },
            None => None,
        }
    }
}

/// What looking at a cell does: the block that it becomes, if it changes, and
/// whether its neighbours are to be looked at in turn.
pub struct Reaction {
    pub becomes: Option<BlockType>,
    pub wakes: bool,
}

/// Water near a sponge vanishes. Air gets wet where it is fed. A spring stays
/// and wakes its neighbours. Flow takes the level that it is fed with, and dries
/// up when nothing feeds it. Other blocks stay.
pub open spec fn reaction(w: WorldState, sponges: Set<CellPos>, pos: CellPos) -> Reaction {
    let current = w.block_at(pos.0 as int, pos.1 as int, pos.2 as int);
    match current {
        BlockType::Water(level) => if soaked(sponges, pos) {
            Reaction { becomes: Some(BlockType::Air), wakes: true }
        } else if level == 0 {
            Reaction { becomes: None, wakes: true }
        } else {
            match fed_level(w, pos) {
                Some(fed) => if fed == level {
                    Reaction { becomes: None, wakes: false }
                } else {
                    Reaction { becomes: Some(BlockType::Water(fed)), wakes: true }
                },
                None => Reaction { becomes: Some(BlockType::Air), wakes: true },
            }
        },
        BlockType::Air => match fed_level(w, pos) {
            Some(fed) => Reaction { becomes: Some(BlockType::Water(fed)), wakes: true },
            None => Reaction { becomes: None, wakes: false },
        },
        _ => Reaction { becomes: None, wakes: false },
    }
}

/// Where a tick stands: the queue, the world and the chunks to mesh again.
#[verifier::ext_equal]
pub struct TickState {
    pub queue: Seq<CellPos>,
    pub world: WorldState,
    pub remesh: Seq<ChunkPos>,
}

impl TickState {
    /// The first cell of the queue is taken out and reacts.
    pub open spec fn step(self, sponges: Set<CellPos>) -> TickState {
        let pos = self.queue[0];
        let rest = self.queue.drop_first();
        let r = reaction(self.world, sponges, pos);
        let queue = if r.wakes {
            queue_with_all(rest, neighbours(pos))
        } else {
            rest
        };
        match r.becomes {
            Some(block) => TickState {
                queue,
                world: self.world.with_block(pos.0 as int, pos.1 as int, pos.2 as int, block),
                remesh: self.remesh + remesh_after(pos.0 as int, pos.1 as int, pos.2 as int),
            },
            None => TickState { queue, world: self.world, remesh: self.remesh },
        }
    }

    /// At most `n` cells react, fewer if the queue runs empty.
    pub open spec fn steps(self, sponges: Set<CellPos>, n: nat) -> TickState
        decreases n,
    {
        if n == 0 || self.queue.len() == 0 {
            self
        } else {
            self.step(sponges).steps(sponges, (n - 1) as nat)
        }
    }
}

/// How many cells a tick looks at: all that wait when it starts, up to the limit.
pub open spec fn updates(queue: Seq<CellPos>) -> nat {
    if queue.len() < MAX_UPDATES_PER_TICK {
        queue.len()
    } else {
        MAX_UPDATES_PER_TICK as nat
    }
}

pub open spec fn has_margin(pos: CellPos, margin: int) -> bool {
    &&& i32::MIN + margin <= pos.0 <= i32::MAX - margin
    &&& i32::MIN + margin <= pos.1 <= i32::MAX - margin
    &&& i32::MIN + margin <= pos.2 <= i32::MAX - margin
}

/// Every waiting cell is at least `margin` cells away from the end of the
/// coordinate range.
pub open spec fn queue_has_margin(queue: Seq<CellPos>, margin: int) -> bool {
    forall|k: int| 0 <= k < queue.len() ==> has_margin(#[trigger] queue[k], margin)
}

/// A cell as one number.
spec fn cell_key(pos: CellPos) -> u128 {
    ((pos.0 + 0x8000_0000) * 0x1_0000_0000_0000_0000 + (pos.1 + 0x8000_0000) * 0x1_0000_0000 + (pos.2
        + 0x8000_0000)) as u128
}

/// The cell that a number stands for.
spec fn key_cell(k: u128) -> CellPos {
    (
        (k / 0x1_0000_0000_0000_0000 - 0x8000_0000) as i32,
        ((k / 0x1_0000_0000) % 0x1_0000_0000 - 0x8000_0000) as i32,
        (k % 0x1_0000_0000 - 0x8000_0000) as i32,
    )
}

/// The number stands for a cell.
spec fn is_cell_key(k: u128) -> bool {
    k < 0x1_0000_0000_0000_0000_0000_0000
}

proof fn lemma_cell_key_round_trip(pos: CellPos, k: u128)
    ensures
        is_cell_key(cell_key(pos)),
        key_cell(cell_key(pos)) == pos,
        is_cell_key(k) ==> cell_key(key_cell(k)) == k,
{
}

proof fn lemma_cell_key_is_injective(a: CellPos, b: CellPos)
    requires
        cell_key(a) == cell_key(b),
    ensures
        a == b,
{
}

fn pack_cell(pos: CellPos) -> (k: u128)
    ensures
        k == cell_key(pos),
{
    let x: u128 = (pos.0 as i64 + 0x8000_0000) as u128;
    let y: u128 = (pos.1 as i64 + 0x8000_0000) as u128;
    let z: u128 = (pos.2 as i64 + 0x8000_0000) as u128;
    x * 0x1_0000_0000_0000_0000 + y * 0x1_0000_0000 + z
}

fn unpack_cell(k: u128) -> (pos: CellPos)
    requires
        is_cell_key(k),
    ensures
        pos == key_cell(k),
{
    (
        ((k / 0x1_0000_0000_0000_0000) as i64 - 0x8000_0000) as i32,
        (((k / 0x1_0000_0000) % 0x1_0000_0000) as i64 - 0x8000_0000) as i32,
        ((k % 0x1_0000_0000) as i64 - 0x8000_0000) as i32,
    )
}

fn near(a: i32, b: i32) -> (r: bool)
    ensures
        r == (distance(a as int, b as int) <= SPONGE_RADIUS),
{
    let d: i64 = a as i64 - b as i64;
    -(SPONGE_RADIUS as i64) <= d && d <= SPONGE_RADIUS as i64
}

/// The queue of cells to look at, and the sponges at work.
pub struct FluidSim {
    pending: VecDeque<CellPos>,
    queued: HashSet<u128>,
    sponges: HashSet<u128>,
}

impl FluidSim {
    /// The cells that wait to be looked at, in order.
    pub closed spec fn queue(&self) -> Seq<CellPos> {
        self.pending@
    }

    /// The cells that hold a sponge.
    pub closed spec fn sponge_cells(&self) -> Set<CellPos> {
        Set::new(|pos: CellPos| self.sponges@.contains(cell_key(pos)))
    }

    /// No cell waits twice, the lookup set knows exactly the waiting cells, and
    /// every sponge is at a cell.
    pub closed spec fn wf(&self) -> bool {
        &&& self.pending@.no_duplicates()
        &&& forall|k: u128| #[trigger] self.sponges@.contains(k) ==> is_cell_key(k)
        &&& forall|pos: CellPos| #[trigger]
            self.pending@.contains(pos) <==> self.queued@.contains(cell_key(pos))
    }

    /// Nothing waiting, no sponges.
    pub fn new() -> (r: Self)
        ensures
            r.wf(),
            r.queue() == Seq::<CellPos>::empty(),
            r.sponge_cells() == Set::<CellPos>::empty(),
    {
        let r = FluidSim { pending: VecDeque::new(), queued: HashSet::new(), sponges: HashSet::new() };
        assert(r.sponge_cells() =~= Set::<CellPos>::empty());
        r
    }

    /// Adds a cell to the queue unless it is waiting already.
    fn enqueue(&mut self, pos: CellPos)
        requires
            old(self).wf(),
        ensures
            final(self).wf(),
            final(self).queue() == queue_with(old(self).queue(), pos),
            final(self).sponge_cells() == old(self).sponge_cells(),
    {
        let k: u128 = pack_cell(pos);
        if self.queued.insert(k) {
            self.pending.push_back(pos);
        }
        proof {
            let before = old(self).pending@;
            assert(before.contains(pos) == old(self).queued@.contains(k));
            if !before.contains(pos) {
                assert forall|i: int, j: int|
                    0 <= i < self.pending@.len() && 0 <= j < self.pending@.len() && i
                        != j implies self.pending@[i] != self.pending@[j] by {
                    if i < before.len() {
                        assert(before.contains(before[i]));
                    }
                    if j < before.len() {
                        assert(before.contains(before[j]));
                    }
                }
            }
            assert forall|p: CellPos| #[trigger] self.pending@.contains(p) <==> self.queued@.contains(
                cell_key(p),
            ) by {
                if cell_key(p) == k {
                    lemma_cell_key_is_injective(p, pos);
                    if !before.contains(pos) {
                        assert(self.pending@[before.len() as int] == pos);
                    }
                } else {
                    if before.contains(p) {
                        let i = choose|i: int| 0 <= i < before.len() && before[i] == p;
                        assert(self.pending@[i] == p);
                    }
                    if self.pending@.contains(p) {
                        let i = choose|i: int|
                            0 <= i < self.pending@.len() && self.pending@[i] == p;
                        assert(before.contains(p)) by {
                            assert(i < before.len() ==> before[i] == p);
                        }
                    }
                }
            }
        }
    }

    /// Adds the six cells next to a cell to the queue.
    fn enqueue_neighbors(&mut self, pos: CellPos)
        requires
            old(self).wf(),
            has_margin(pos, 1),
        ensures
            final(self).wf(),
            final(self).queue() == queue_with_all(old(self).queue(), neighbours(pos)),
            final(self).sponge_cells() == old(self).sponge_cells(),
    {
        let (x, y, z) = pos;
        self.enqueue((x + 1, y, z));
        self.enqueue((x - 1, y, z));
        self.enqueue((x, y + 1, z));
        self.enqueue((x, y - 1, z));
        self.enqueue((x, y, z + 1));
        self.enqueue((x, y, z - 1));
        proof {
            let n = neighbours(pos);
            reveal_with_fuel(queue_with_all, 7);
            assert(n.drop_last().drop_last().drop_last().drop_last().drop_last().last() == n[0]);
            assert(n.drop_last().drop_last().drop_last().drop_last().last() == n[1]);
            assert(n.drop_last().drop_last().drop_last().last() == n[2]);
            assert(n.drop_last().drop_last().last() == n[3]);
            assert(n.drop_last().last() == n[4]);
        }
    }

    /// Tells the simulation that a cell changed from `old` to `new`. The cell
    /// and its neighbours are queued; a new sponge queues its whole cube first.
    pub fn notify_block_changed(&mut self, pos: CellPos, was: BlockType, now: BlockType)
        requires
            old(self).wf(),
            has_margin(
                pos,
                if now == BlockType::Sponge {
                    4
                } else {
                    1
                },
            ),
        ensures
            final(self).wf(),
            final(self).sponge_cells() == sponges_after(old(self).sponge_cells(), pos, was, now),
            final(self).queue() == queue_after_change(old(self).queue(), pos, now),
    {
        if was == BlockType::Sponge {
            self.remove_sponge(pos);
        }
        if now == BlockType::Sponge {
            self.add_sponge(pos);
            self.enqueue_cube(pos);
        }
        self.enqueue(pos);
        self.enqueue_neighbors(pos);
    }

    fn remove_sponge(&mut self, pos: CellPos)
        requires
            old(self).wf(),
        ensures
            final(self).wf(),
            final(self).queue() == old(self).queue(),
            final(self).sponge_cells() == old(self).sponge_cells().remove(pos),
    {
        let k: u128 = pack_cell(pos);
        self.sponges.remove(&k);
        proof {
            assert forall|c: CellPos| #[trigger] self.sponge_cells().contains(c) <==> old(
                self,
            ).sponge_cells().remove(pos).contains(c) by {
                if cell_key(c) == k {
                    lemma_cell_key_is_injective(c, pos);
                }
            }
            assert(self.sponge_cells() =~= old(self).sponge_cells().remove(pos));
        }
    }

    fn add_sponge(&mut self, pos: CellPos)
        requires
            old(self).wf(),
        ensures
            final(self).wf(),
            final(self).queue() == old(self).queue(),
            final(self).sponge_cells() == old(self).sponge_cells().insert(pos),
    {
        let k: u128 = pack_cell(pos);
        self.sponges.insert(k);
        proof {
            lemma_cell_key_round_trip(pos, k);
            assert forall|c: CellPos| #[trigger] self.sponge_cells().contains(c) <==> old(
                self,
            ).sponge_cells().insert(pos).contains(c) by {
                if cell_key(c) == k {
                    lemma_cell_key_is_injective(c, pos);
                }
            }
            assert(self.sponge_cells() =~= old(self).sponge_cells().insert(pos));
        }
    }

    /// Adds all cells of a sponge's cube to the queue, X outermost, Z innermost.
    fn enqueue_cube(&mut self, pos: CellPos)
        requires
            old(self).wf(),
            has_margin(pos, 4),
        ensures
            final(self).wf(),
            final(self).queue() == queue_with_all(old(self).queue(), sponge_cube(pos)),
            final(self).sponge_cells() == old(self).sponge_cells(),
    {
        let ghost start = self.pending@;
        let ghost cube = sponge_cube(pos);
        let ghost mut k: int = 0;
        assert(cube.take(0) =~= Seq::<CellPos>::empty());
        let mut dx: i32 = -SPONGE_RADIUS;
        while dx <= SPONGE_RADIUS
            invariant
                -4 <= dx <= 5,
                k == (dx + 4) * 81,
                has_margin(pos, 4),
                cube == sponge_cube(pos),
                self.wf(),
                self.pending@ == queue_with_all(start, cube.take(k)),
                self.sponge_cells() == old(self).sponge_cells(),
            decreases 5 - dx,
        {
            let mut dy: i32 = -SPONGE_RADIUS;
            while dy <= SPONGE_RADIUS
                invariant
                    -4 <= dx <= 4,
                    -4 <= dy <= 5,
                    k == (dx + 4) * 81 + (dy + 4) * 9,
                    has_margin(pos, 4),
                    cube == sponge_cube(pos),
                    self.wf(),
                    self.pending@ == queue_with_all(start, cube.take(k)),
                    self.sponge_cells() == old(self).sponge_cells(),
                decreases 5 - dy,
            {
                let mut dz: i32 = -SPONGE_RADIUS;
                while dz <= SPONGE_RADIUS
                    invariant
                        -4 <= dx <= 4,
                        -4 <= dy <= 4,
                        -4 <= dz <= 5,
                        k == cube_index(dx as int, dy as int, dz as int),
                        has_margin(pos, 4),
                        cube == sponge_cube(pos),
                        self.wf(),
                        self.pending@ == queue_with_all(start, cube.take(k)),
                        self.sponge_cells() == old(self).sponge_cells(),
                    decreases 5 - dz,
                {
                    self.enqueue((pos.0 + dx, pos.1 + dy, pos.2 + dz));
                    proof {
                        lemma_cube_cell(pos, dx as int, dy as int, dz as int);
                        lemma_queue_next(start, cube, k);
                        k = k + 1;
                    }
                    dz = dz + 1;
                }
                dy = dy + 1;
            }
            dx = dx + 1;
        }
        assert(cube.take(729) =~= cube);
    }

    /// Whether a sponge reaches the cell.
    fn near_sponge(&self, pos: CellPos) -> (r: bool)
        requires
            self.wf(),
        ensures
            r == soaked(self.sponge_cells(), pos),
    {
        let mut found: bool = false;
        let ghost mut seen: Seq<u128> = Seq::empty();
        for k in it: self.sponges.iter()
            invariant
                self.wf(),
                seen.len() == it.index(),
                forall|j: int| 0 <= j < seen.len() ==> #[trigger] seen[j] == *it.seq()[j],
                it.index() == it.seq().len() ==> seen == it.seq().unref(),
                it.seq().unref().to_set() == self.sponges@,
                found ==> soaked(self.sponge_cells(), pos),
                !found ==> forall|j: int|
                    0 <= j < seen.len() ==> !within_sponge_reach(#[trigger] key_cell(seen[j]), pos),
        {
            proof {
                assert(it.seq().unref()[it.index() as int] == *k);
                assert(it.seq().unref().to_set().contains(*k));
            }
            let s: CellPos = unpack_cell(*k);
            if near(s.0, pos.0) && near(s.1, pos.1) && near(s.2, pos.2) {
                proof {
                    lemma_cell_key_round_trip(s, *k);
                    assert(self.sponge_cells().contains(s));
                }
                found = true;
            }
            proof {
                seen = seen.push(*k);
            }
        }
        proof {
            assert(seen.to_set() == self.sponges@);
            if !found {
                assert forall|s: CellPos| #[trigger] self.sponge_cells().contains(
                    s,
                ) implies !within_sponge_reach(s, pos) by {
                    assert(seen.to_set().contains(cell_key(s)));
                    let j = choose|j: int| 0 <= j < seen.len() && seen[j] == cell_key(s);
                    lemma_cell_key_round_trip(s, seen[j]);
                    assert(!within_sponge_reach(key_cell(seen[j]), pos));
                }
            }
        }
        found
    }

    fn level_of(world: &World, x: i32, y: i32, z: i32) -> (r: Option<u8>)
        requires
            world@.wf(),
        ensures
            r == water_level(world@.block_at(x as int, y as int, z as int)),
    {
        match world.get_block(x, y, z) {
            BlockType::Water(level) => Some(level),
            _ => None,
        }
    }

    fn fuller_of(a: Option<u8>, b: Option<u8>) -> (r: Option<u8>)
        ensures
            r == fuller(a, b),
    {
        match (a, b) {
            (Some(x), Some(y)) => if x <= y {
                Some(x)
            } else {
                Some(y)
            },
            (Some(x), None) => Some(x),
            (None, y) => y,
        }
    }

    /// The level that the cell's surroundings feed it with.
    fn desired_level(world: &World, pos: CellPos) -> (r: Option<u8>)
        requires
            world@.wf(),
            has_margin(pos, 1),
        ensures
            r == fed_level(world@, pos),
    {
        let (x, y, z) = pos;
        if let BlockType::Water(_) = world.get_block(x, y + 1, z) {
            return Some(0);
        }
        let east = Self::level_of(world, x + 1, y, z);
        let west = Self::level_of(world, x - 1, y, z);
        let south = Self::level_of(world, x, y, z + 1);
        let north = Self::level_of(world, x, y, z - 1);
        let best = Self::fuller_of(Self::fuller_of(east, west), Self::fuller_of(south, north));
        match best {
            Some(level) => if level >= MAX_FLOW_LEVEL {
                None
            } else {
                Some(level + 1)
            },
            None => None,
        }
    }

    /// What looking at the cell does.
    fn react(&self, world: &World, pos: CellPos) -> (r: Reaction)
        requires
            self.wf(),
            world@.wf(),
            has_margin(pos, 1),
        ensures
            r == reaction(world@, self.sponge_cells(), pos),
    {
        let current = world.get_block(pos.0, pos.1, pos.2);
        match current {
            BlockType::Water(level) => if self.near_sponge(pos) {
                Reaction { becomes: Some(BlockType::Air), wakes: true }
            } else if level == 0 {
                Reaction { becomes: None, wakes: true }
            } else {
                match Self::desired_level(world, pos) {
                    Some(fed) => if fed == level {
                        Reaction { becomes: None, wakes: false }
                    } else {
                        Reaction { becomes: Some(BlockType::Water(fed)), wakes: true }
                    },
                    None => Reaction { becomes: Some(BlockType::Air), wakes: true },
                }
            },
            BlockType::Air => match Self::desired_level(world, pos) {
                Some(fed) => Reaction { becomes: Some(BlockType::Water(fed)), wakes: true },
                None => Reaction { becomes: None, wakes: false },
            },
            _ => Reaction { becomes: None, wakes: false },
        }
    }

    /// Takes the first cell out of the queue.
    fn dequeue(&mut self) -> (r: Option<CellPos>)
        requires
            old(self).wf(),
        ensures
            final(self).wf(),
            final(self).sponge_cells() == old(self).sponge_cells(),
            r is None <==> old(self).queue().len() == 0,
            r matches Some(pos) ==> pos == old(self).queue()[0],
            r is Some ==> final(self).queue() == old(self).queue().drop_first(),
            r is None ==> final(self).queue() == old(self).queue(),
    {
        match self.pending.pop_front() {
            Some(pos) => {
                let k: u128 = pack_cell(pos);
                self.queued.remove(&k);
                proof {
                    let before = old(self).pending@;
                    let after = self.pending@;
                    assert(after =~= before.drop_first());
                    assert(before[0] == pos);
                    assert forall|p: CellPos| #[trigger] after.contains(p) <==> self.queued@.contains(
                        cell_key(p),
                    ) by {
                        assert(before.contains(p) <==> old(self).queued@.contains(cell_key(p)));
                        if after.contains(p) {
                            let i = choose|i: int| 0 <= i < after.len() && after[i] == p;
                            assert(before[i + 1] == p);
                            if cell_key(p) == k {
                                lemma_cell_key_is_injective(p, pos);
                                assert(before[0] == before[i + 1]);
                            }
                        }
                        if before.contains(p) && p != pos {
                            let i = choose|i: int| 0 <= i < before.len() && before[i] == p;
                            assert(after[i - 1] == p);
                        }
                        if cell_key(p) == k {
                            lemma_cell_key_is_injective(p, pos);
                        }
                    }
                }
                Some(pos)
            },
            None => None,
        }
    }
}

impl FluidSim {
    /// Whether a tick stays clear of the end of the coordinate range.
    pub fn has_room(&self) -> (r: bool)
        ensures
            r == queue_has_margin(self.queue(), 1),
    {
        let low: i32 = i32::MIN + 1;
        let high: i32 = i32::MAX - 1;
        let mut i: usize = 0;
        while i < self.pending.len()
            invariant
                low == i32::MIN + 1,
                high == i32::MAX - 1,
                i <= self.pending@.len(),
                forall|j: int| 0 <= j < i ==> has_margin(#[trigger] self.pending@[j], 1),
            decreases self.pending@.len() - i,
        {
            let p: CellPos = self.pending[i];
            if p.0 < low || p.0 > high || p.1 < low || p.1 > high || p.2 < low || p.2 > high {
                assert(!has_margin(self.pending@[i as int], 1));
                return false;
            }
            i = i + 1;
        }
        true
    }

    /// Works off the first of the waiting cells, at most `MAX_UPDATES_PER_TICK`,
    /// and returns the chunks to mesh again. What they wake waits for the next
    /// tick.
    pub fn tick(&mut self, world: &mut World) -> (dirty: Vec<ChunkPos>)
        requires
            old(self).wf(),
            old(world)@.wf(),
            queue_has_margin(old(self).queue(), 1),
        ensures
            final(self).wf(),
            final(world)@.wf(),
            final(self).sponge_cells() == old(self).sponge_cells(),
            final(world).terrain_seed() == old(world).terrain_seed(),
            final(world).directory() == old(world).directory(),
            (TickState { queue: final(self).queue(), world: final(world)@, remesh: dirty@ }) == (
            TickState { queue: old(self).queue(), world: old(world)@, remesh: seq![] }).steps(
                old(self).sponge_cells(),
                updates(old(self).queue()),
            ),
    {
        let waiting: usize = self.pending.len();
        let limit: usize = if waiting < MAX_UPDATES_PER_TICK {
            waiting
        } else {
            MAX_UPDATES_PER_TICK
        };
        let ghost sponges = self.sponge_cells();
        let ghost goal = (TickState { queue: self.queue(), world: world@, remesh: seq![] }).steps(
            sponges,
            limit as nat,
        );
        let mut dirty: Vec<ChunkPos> = Vec::new();
        let mut processed: usize = 0;
        assert(dirty@ =~= seq![]);
        while processed < limit
            invariant
                processed <= limit <= 96,
                limit == updates(old(self).queue()),
                self.wf(),
                world@.wf(),
                world.terrain_seed() == old(world).terrain_seed(),
                world.directory() == old(world).directory(),
                sponges == old(self).sponge_cells(),
                self.sponge_cells() == sponges,
                front_has_margin(self.queue(), limit - processed),
                goal == (TickState { queue: self.queue(), world: world@, remesh: dirty@ }).steps(
                    sponges,
                    (limit - processed) as nat,
                ),
                goal == (TickState {
                    queue: old(self).queue(),
                    world: old(world)@,
                    remesh: seq![],
                }).steps(sponges, limit as nat),
            decreases limit - processed,
        {
            let ghost before = TickState { queue: self.queue(), world: world@, remesh: dirty@ };
            let pos: CellPos = match self.dequeue() {
                Some(pos) => pos,
                None => {
                    return dirty;
                },
            };
            processed = processed + 1;
            assert(has_margin(before.queue[0], 1));
            let r = self.react(world, pos);
            if let Some(block) = r.becomes {
                let mut changed = world.set_block(pos.0, pos.1, pos.2, block);
                dirty.append(&mut changed);
            }
            if r.wakes {
                self.enqueue_neighbors(pos);
            }
            proof {
                let after = TickState { queue: self.queue(), world: world@, remesh: dirty@ };
                assert(after =~= before.step(sponges));
                lemma_step_keeps_front(before, sponges, limit - processed + 1);
            }
        }
        dirty
    }
}

impl Default for FluidSim {
    fn default() -> (r: Self)
        ensures
            r.wf(),
            r.queue() == Seq::<CellPos>::empty(),
            r.sponge_cells() == Set::<CellPos>::empty(),
    {
        Self::new()
    }
}

/// Where the cell at an offset stands in the cube's list.
spec fn cube_index(dx: int, dy: int, dz: int) -> int {
    (dx + 4) * 81 + (dy + 4) * 9 + (dz + 4)
}

proof fn lemma_cube_cell(pos: CellPos, dx: int, dy: int, dz: int)
    requires
        -4 <= dx <= 4,
        -4 <= dy <= 4,
        -4 <= dz <= 4,
    ensures
        0 <= cube_index(dx, dy, dz) < 729,
        sponge_cube(pos)[cube_index(dx, dy, dz)] == offset(pos, dx, dy, dz),
{
    let k = cube_index(dx, dy, dz);
    assert(k / 81 == dx + 4);
    assert(k / 9 == (dx + 4) * 9 + (dy + 4));
    assert((k / 9) % 9 == dy + 4);
    assert(k % 9 == dz + 4);
}

proof fn lemma_queue_next(queue: Seq<CellPos>, cells: Seq<CellPos>, k: int)
    requires
        0 <= k < cells.len(),
    ensures
        queue_with_all(queue, cells.take(k + 1)) == queue_with(
            queue_with_all(queue, cells.take(k)),
            cells[k],
        ),
{
    assert(cells.take(k + 1).drop_last() =~= cells.take(k));
}

proof fn lemma_queue_with_all_elements(queue: Seq<CellPos>, cells: Seq<CellPos>, pos: CellPos)
    ensures
        queue_with_all(queue, cells).contains(pos) <==> queue.contains(pos) || cells.contains(pos),
    decreases cells.len(),
{
    if cells.len() > 0 {
        let init = cells.drop_last();
        let mid = queue_with_all(queue, init);
        lemma_queue_with_all_elements(queue, init, pos);
        assert(cells =~= init.push(cells.last()));
        lemma_push_contains(mid, cells.last(), pos);
        lemma_push_contains(init, cells.last(), pos);
    }
}

proof fn lemma_push_contains(s: Seq<CellPos>, x: CellPos, pos: CellPos)
    ensures
        s.push(x).contains(pos) <==> s.contains(pos) || x == pos,
{
    if s.contains(pos) {
        let i = choose|i: int| 0 <= i < s.len() && s[i] == pos;
        assert(s.push(x)[i] == pos);
    }
    if x == pos {
        assert(s.push(x)[s.len() as int] == pos);
    }
    if s.push(x).contains(pos) {
        let i = choose|i: int| 0 <= i < s.push(x).len() && s.push(x)[i] == pos;
        if i < s.len() {
            assert(s[i] == pos);
        }
    }
}

/// The sponges after a cell changed.
pub open spec fn sponges_after(
    sponges: Set<CellPos>,
    pos: CellPos,
    was: BlockType,
    now: BlockType,
) -> Set<CellPos> {
    let kept = if was == BlockType::Sponge {
        sponges.remove(pos)
    } else {
        sponges
    };
    if now == BlockType::Sponge {
        kept.insert(pos)
    } else {
        kept
    }
}

/// The queue after a cell changed: a new sponge adds its cube, and in any case
/// the cell itself and then its neighbours are added.
pub open spec fn queue_after_change(queue: Seq<CellPos>, pos: CellPos, now: BlockType) -> Seq<
    CellPos,
> {
    let first = if now == BlockType::Sponge {
        queue_with_all(queue, sponge_cube(pos))
    } else {
        queue
    };
    queue_with_all(queue_with(first, pos), neighbours(pos))
}

proof fn lemma_steps_keep(
    st: TickState,
    sponges: Set<CellPos>,
    n: nat,
    pos: CellPos,
    block: BlockType,
)
    requires
        st.world.wf(),
        st.world.block_at(pos.0 as int, pos.1 as int, pos.2 as int) == block,
        block == BlockType::Water(0) && !soaked(sponges, pos) || block.collidable(),
    ensures
        st.steps(sponges, n).world.wf(),
        st.steps(sponges, n).world.block_at(pos.0 as int, pos.1 as int, pos.2 as int) == block,
    decreases n,
{
    if n > 0 && st.queue.len() > 0 {
        let q = st.queue[0];
        let r = reaction(st.world, sponges, q);
        if let Some(b) = r.becomes {
            assert(q != pos);
            law_get_after_set_block(st.world, q.0 as int, q.1 as int, q.2 as int, b);
        }
        lemma_steps_keep(st.step(sponges), sponges, (n - 1) as nat, pos, block);
    }
}

/// A spring out of reach of every sponge never dries up, however many cells react.
pub proof fn law_springs_do_not_dry_up(
    st: TickState,
    sponges: Set<CellPos>,
    n: nat,
    pos: CellPos,
)
    requires
        st.world.wf(),
        st.world.block_at(pos.0 as int, pos.1 as int, pos.2 as int) == BlockType::Water(0),
        !soaked(sponges, pos),
    ensures
        st.steps(sponges, n).world.block_at(pos.0 as int, pos.1 as int, pos.2 as int)
            == BlockType::Water(0),
{
    lemma_steps_keep(st, sponges, n, pos, BlockType::Water(0));
}

/// Water never washes away a solid block: what is neither air nor water stays.
pub proof fn law_water_keeps_solid_blocks(
    st: TickState,
    sponges: Set<CellPos>,
    n: nat,
    pos: CellPos,
)
    requires
        st.world.wf(),
        st.world.block_at(pos.0 as int, pos.1 as int, pos.2 as int).collidable(),
    ensures
        st.steps(sponges, n).world.block_at(pos.0 as int, pos.1 as int, pos.2 as int)
            == st.world.block_at(pos.0 as int, pos.1 as int, pos.2 as int),
{
    lemma_steps_keep(
        st,
        sponges,
        n,
        pos,
        st.world.block_at(pos.0 as int, pos.1 as int, pos.2 as int),
    );
}

/// The first `n` cells of the queue have neighbours on all sides.
spec fn front_has_margin(queue: Seq<CellPos>, n: int) -> bool {
    n <= queue.len() && forall|k: int| 0 <= k < n ==> has_margin(#[trigger] queue[k], 1)
}

/// What a cell wakes lines up behind the cells still to come.
proof fn lemma_step_keeps_front(st: TickState, sponges: Set<CellPos>, n: int)
    requires
        0 < n,
        front_has_margin(st.queue, n),
    ensures
        front_has_margin(st.step(sponges).queue, n - 1),
{
    let rest = st.queue.drop_first();
    let near = neighbours(st.queue[0]);
    let next = st.step(sponges).queue;
    lemma_queue_with_all_appends(rest, near);
    assert(next == rest || next == queue_with_all(rest, near));
    assert forall|k: int| 0 <= k < n - 1 implies has_margin(#[trigger] next[k], 1) by {
        assert(queue_with_all(rest, near).take(rest.len() as int)[k] == queue_with_all(
            rest,
            near,
        )[k]);
        assert(next[k] == rest[k]);
        assert(has_margin(st.queue[k + 1], 1));
    }
}

/// The cell changed in the course of a number of reactions.
pub open spec fn changed(st: TickState, end: TickState, pos: CellPos) -> bool {
    end.world.block_at(pos.0 as int, pos.1 as int, pos.2 as int) != st.world.block_at(
        pos.0 as int,
        pos.1 as int,
        pos.2 as int,
    )
}

/// New cells line up behind those that wait.
proof fn lemma_queue_with_all_appends(queue: Seq<CellPos>, cells: Seq<CellPos>)
    ensures
        queue.len() <= queue_with_all(queue, cells).len(),
        queue_with_all(queue, cells).take(queue.len() as int) == queue,
    decreases cells.len(),
{
    if cells.len() > 0 {
        lemma_queue_with_all_appends(queue, cells.drop_last());
        let mid = queue_with_all(queue, cells.drop_last());
        assert(queue_with_all(queue, cells).take(queue.len() as int) =~= mid.take(
            queue.len() as int,
        ));
    } else {
        assert(queue.take(queue.len() as int) =~= queue);
    }
}

/// One reaction changes only its own cell.
proof fn lemma_step(st: TickState, sponges: Set<CellPos>, pos: CellPos)
    requires
        st.world.wf(),
        st.queue.len() > 0,
    ensures
        st.step(sponges).world.wf(),
        changed(st, st.step(sponges), pos) ==> pos == st.queue[0] && reaction(
            st.world,
            sponges,
            pos,
        ).becomes is Some && st.step(sponges).world.block_at(
            pos.0 as int,
            pos.1 as int,
            pos.2 as int,
        ) == reaction(st.world, sponges, pos).becomes->0,
{
    let q = st.queue[0];
    if let Some(b) = reaction(st.world, sponges, q).becomes {
        law_get_after_set_block(st.world, q.0 as int, q.1 as int, q.2 as int, b);
    }
}

/// A tick changes only cells that waited when it started: what one cell wakes is
/// looked at in the next tick at the earliest. So water spreads by one step a
/// tick, and nothing changes when nothing waits.
pub proof fn law_only_waiting_cells_change(
    st: TickState,
    sponges: Set<CellPos>,
    n: nat,
    pos: CellPos,
)
    requires
        st.world.wf(),
        n <= st.queue.len(),
        changed(st, st.steps(sponges, n), pos),
    ensures
        st.queue.take(n as int).contains(pos),
    decreases n,
{
    if n > 0 {
        let next = st.step(sponges);
        let rest = st.queue.drop_first();
        lemma_queue_with_all_appends(rest, neighbours(st.queue[0]));
        lemma_step(st, sponges, pos);
        if changed(st, next, pos) {
            assert(st.queue.take(n as int)[0] == pos);
        } else {
            let m = (n - 1) as nat;
            law_only_waiting_cells_change(next, sponges, m, pos);
            let i = choose|i: int| 0 <= i < m && next.queue.take(m as int)[i] == pos;
            assert(next.queue[i] == next.queue.take(rest.len() as int)[i] || next.queue == rest);
            assert(rest[i] == pos);
            assert(st.queue.take(n as int)[i + 1] == pos);
        }
    }
}

/// A tick changes at most `MAX_UPDATES_PER_TICK` cells.
pub proof fn law_a_tick_changes_few_cells(st: TickState, sponges: Set<CellPos>)
    requires
        st.world.wf(),
    ensures
        ({
            let end = st.steps(sponges, updates(st.queue));
            let cells = Set::new(|pos: CellPos| changed(st, end, pos));
            cells.finite() && cells.len() <= MAX_UPDATES_PER_TICK
        }),
{
    let n = updates(st.queue);
    let end = st.steps(sponges, n);
    let cells = Set::new(|pos: CellPos| changed(st, end, pos));
    let looked_at = st.queue.take(n as int);
    assert forall|pos: CellPos| cells.contains(pos) implies looked_at.to_set().contains(pos) by {
        law_only_waiting_cells_change(st, sponges, n, pos);
    }
    looked_at.lemma_cardinality_of_set();
    vstd::set_lib::lemma_len_subset(cells, looked_at.to_set());
}

/// Nothing happens in a tick while nothing waits: the world stays as it is, and
/// no chunk is to be meshed again.
pub proof fn law_still_water_rests(st: TickState, sponges: Set<CellPos>)
    requires
        st.queue.len() == 0,
    ensures
        st.steps(sponges, updates(st.queue)) == st,
{
}

/// A cell that changes becomes air or water of level `MAX_FLOW_LEVEL` at most.
pub proof fn law_changes_are_air_or_water(
    st: TickState,
    sponges: Set<CellPos>,
    n: nat,
    pos: CellPos,
)
    requires
        st.world.wf(),
        changed(st, st.steps(sponges, n), pos),
    ensures
        ({
            let now = st.steps(sponges, n).world.block_at(
                pos.0 as int,
                pos.1 as int,
                pos.2 as int,
            );
            now == BlockType::Air || (now matches BlockType::Water(level) && level
                <= MAX_FLOW_LEVEL)
        }),
    decreases n,
{
    if n > 0 && st.queue.len() > 0 {
        let next = st.step(sponges);
        lemma_step(st, sponges, pos);
        law_flow_is_fed_and_bounded(st.world, pos);
        if changed(next, next.steps(sponges, (n - 1) as nat), pos) {
            law_changes_are_air_or_water(next, sponges, (n - 1) as nat, pos);
        }
    }
}

/// What is to be meshed again stays on the list.
proof fn lemma_remesh_grows(st: TickState, sponges: Set<CellPos>, n: nat, c: ChunkPos)
    requires
        st.remesh.contains(c),
    ensures
        st.steps(sponges, n).remesh.contains(c),
    decreases n,
{
    if n > 0 && st.queue.len() > 0 {
        let next = st.step(sponges);
        let i = choose|i: int| 0 <= i < st.remesh.len() && st.remesh[i] == c;
        assert(next.remesh[i] == c);
        lemma_remesh_grows(next, sponges, (n - 1) as nat, c);
    }
}

/// Every chunk whose mesh depends on a cell that changed is to be meshed again.
pub proof fn law_changed_chunks_are_reported(
    st: TickState,
    sponges: Set<CellPos>,
    n: nat,
    pos: CellPos,
    c: ChunkPos,
)
    requires
        st.world.wf(),
        changed(st, st.steps(sponges, n), pos),
        remesh_after(pos.0 as int, pos.1 as int, pos.2 as int).contains(c),
    ensures
        st.steps(sponges, n).remesh.contains(c),
    decreases n,
{
    if n > 0 && st.queue.len() > 0 {
        let next = st.step(sponges);
        lemma_step(st, sponges, pos);
        if changed(st, next, pos) {
            let more = remesh_after(pos.0 as int, pos.1 as int, pos.2 as int);
            let i = choose|i: int| 0 <= i < more.len() && more[i] == c;
            assert(next.remesh[st.remesh.len() + i] == c);
            lemma_remesh_grows(next, sponges, (n - 1) as nat, c);
        } else {
            law_changed_chunks_are_reported(next, sponges, (n - 1) as nat, pos, c);
        }
    }
}

/// Water in reach of a sponge vanishes as soon as its cell is looked at, a
/// spring too.
pub proof fn law_sponges_soak_up_water(w: WorldState, sponges: Set<CellPos>, pos: CellPos)
    requires
        w.block_at(pos.0 as int, pos.1 as int, pos.2 as int) is Water,
        soaked(sponges, pos),
    ensures
        reaction(w, sponges, pos) == (Reaction { becomes: Some(BlockType::Air), wakes: true }),
{
}

/// Water that flows into a cell is at most `MAX_FLOW_LEVEL` steps from its
/// spring, and something feeds it: water above, or fuller water beside it.
pub proof fn law_flow_is_fed_and_bounded(w: WorldState, pos: CellPos)
    ensures
        fed_level(w, pos) matches Some(level) ==> {
            &&& level <= MAX_FLOW_LEVEL
            &&& level == 0 <==> w.block_at(pos.0 as int, pos.1 + 1, pos.2 as int) is Water
            &&& level > 0 ==> {
                ||| level_beside(w, pos, 1, 0) == Some((level - 1) as u8)
                ||| level_beside(w, pos, -1, 0) == Some((level - 1) as u8)
                ||| level_beside(w, pos, 0, 1) == Some((level - 1) as u8)
                ||| level_beside(w, pos, 0, -1) == Some((level - 1) as u8)
            }
        },
{
}

/// Flow that neither water above nor spreading water beside it feeds dries up
/// when its cell is looked at.
pub proof fn law_unfed_flow_dries_up(w: WorldState, sponges: Set<CellPos>, pos: CellPos, level: u8)
    requires
        w.block_at(pos.0 as int, pos.1 as int, pos.2 as int) == BlockType::Water(level),
        level > 0,
        fed_level(w, pos) is None,
    ensures
        reaction(w, sponges, pos) == (Reaction { becomes: Some(BlockType::Air), wakes: true }),
{
}

/// The queue never holds a cell twice, whatever is added to it.
pub proof fn law_queue_has_no_duplicates(queue: Seq<CellPos>, cells: Seq<CellPos>)
    requires
        queue.no_duplicates(),
    ensures
        queue_with_all(queue, cells).no_duplicates(),
    decreases cells.len(),
{
    if cells.len() > 0 {
        law_queue_has_no_duplicates(queue, cells.drop_last());
        let mid = queue_with_all(queue, cells.drop_last());
        if !mid.contains(cells.last()) {
            let all = mid.push(cells.last());
            assert forall|i: int, j: int| 0 <= i < all.len() && 0 <= j < all.len() && i
                != j implies all[i] != all[j] by {
                if i < mid.len() {
                    assert(mid.contains(mid[i]));
                }
                if j < mid.len() {
                    assert(mid.contains(mid[j]));
                }
            }
        }
    }
}

/// A new sponge has every cell in its reach looked at.
pub proof fn law_sponge_queues_its_reach(queue: Seq<CellPos>, pos: CellPos, cell: CellPos)
    requires
        has_margin(pos, 4),
        within_sponge_reach(pos, cell),
    ensures
        queue_after_change(queue, pos, BlockType::Sponge).contains(cell),
{
    let cube = sponge_cube(pos);
    let k = cube_index(cell.0 - pos.0, cell.1 - pos.1, cell.2 - pos.2);
    lemma_cube_cell(pos, cell.0 - pos.0, cell.1 - pos.1, cell.2 - pos.2);
    assert(cube[k] == cell);
    assert(cube.contains(cell));
    let first = queue_with_all(queue, cube);
    lemma_queue_with_all_elements(queue, cube, cell);
    lemma_push_contains(first, pos, cell);
    lemma_queue_with_all_elements(queue_with(first, pos), neighbours(pos), cell);
}

/// The cells at the four sides of a cell, on its own height.
pub open spec fn is_side(dx: int, dz: int) -> bool {
    (dx == 0 && (dz == 1 || dz == -1)) || (dz == 0 && (dx == 1 || dx == -1))
}

/// Water feeds the cells at its four sides alike. Without water above it a cell
/// is fed as soon as one of them holds water that still spreads, and it is one
/// step emptier than the fullest of them; it is not fed if none does.
pub proof fn law_water_spreads_to_all_sides(w: WorldState, pos: CellPos)
    requires
        !(w.block_at(pos.0 as int, pos.1 + 1, pos.2 as int) is Water),
    ensures
        forall|dx: int, dz: int|
            is_side(dx, dz) ==> (#[trigger] w.block_at(
                pos.0 + dx,
                pos.1 as int,
                pos.2 + dz,
            ) matches BlockType::Water(l) ==> l < 7 ==> fed_level(w, pos) is Some && 1
                <= fed_level(w, pos)->0 <= l + 1),
        fed_level(w, pos) matches Some(f) ==> exists|dx: int, dz: int|
            is_side(dx, dz) && #[trigger] w.block_at(pos.0 + dx, pos.1 as int, pos.2 + dz)
                == BlockType::Water((f - 1) as u8),
{
    let (x, y, z) = (pos.0 as int, pos.1 as int, pos.2 as int);
    let east = w.block_at(x + 1, y, z);
    let west = w.block_at(x + (-1), y, z);
    let south = w.block_at(x, y, z + 1);
    let north = w.block_at(x, y, z + (-1));
    assert(west == w.block_at(x - 1, y, z) && north == w.block_at(x, y, z - 1));
    assert(east == w.block_at(x + 1, y, z + 0) && west == w.block_at(x + (-1), y, z + 0));
    assert(south == w.block_at(x + 0, y, z + 1) && north == w.block_at(x + 0, y, z + (-1)));
    assert(level_beside(w, pos, 1, 0) == water_level(east));
    assert(level_beside(w, pos, -1, 0) == water_level(west));
    assert(level_beside(w, pos, 0, 1) == water_level(south));
    assert(level_beside(w, pos, 0, -1) == water_level(north));
    assert(is_side(1, 0) && is_side(-1, 0) && is_side(0, 1) && is_side(0, -1));
}

/// Water falls: under any water a cell fills up, whatever is beside it.
pub proof fn law_water_falls(w: WorldState, pos: CellPos, l: u8)
    requires
        w.block_at(pos.0 as int, pos.1 + 1, pos.2 as int) == BlockType::Water(l),
    ensures
        fed_level(w, pos) == Some(0u8),
{
}

/// What comes of the cell at the front of the queue. Air that is fed turns to
/// water of that level, and air that is not stays. A spring stays and flow takes
/// the level that it is fed with or dries up, unless a sponge is near, which
/// takes either away. Other blocks stay.
pub proof fn law_cells_follow_their_feed(st: TickState, sponges: Set<CellPos>)
    requires
        st.world.wf(),
        st.queue.len() > 0,
        0 <= st.queue[0].1 < 64,
    ensures
        ({
            let p = st.queue[0];
            let (x, y, z) = (p.0 as int, p.1 as int, p.2 as int);
            let was = st.world.block_at(x, y, z);
            let now = st.step(sponges).world.block_at(x, y, z);
            let fed = fed_level(st.world, p);
            &&& was == BlockType::Air ==> now == (match fed {
                Some(f) => BlockType::Water(f),
                None => BlockType::Air,
            })
            &&& was is Water && soaked(sponges, p) ==> now == BlockType::Air
            &&& was == BlockType::Water(0) && !soaked(sponges, p) ==> now == was
            &&& (was matches BlockType::Water(l) && l > 0) && !soaked(sponges, p) ==> now == (
            match fed {
                Some(f) => BlockType::Water(f),
                None => BlockType::Air,
            })
            &&& !(was is Water) && was != BlockType::Air ==> now == was
        }),
{
    let p = st.queue[0];
    if let Some(b) = reaction(st.world, sponges, p).becomes {
        law_get_after_set_block(st.world, p.0 as int, p.1 as int, p.2 as int, b);
    }
}

/// The six cells that share a face with a cell.
pub open spec fn shares_face(dx: int, dy: int, dz: int) -> bool {
    ||| dy == 0 && dz == 0 && (dx == 1 || dx == -1)
    ||| dx == 0 && dz == 0 && (dy == 1 || dy == -1)
    ||| dx == 0 && dy == 0 && (dz == 1 || dz == -1)
}

proof fn lemma_neighbours(pos: CellPos, dx: int, dy: int, dz: int)
    requires
        shares_face(dx, dy, dz),
    ensures
        neighbours(pos).contains(offset(pos, dx, dy, dz)),
{
    let n = neighbours(pos);
    let k: int = if dx == 1 {
        0
    } else if dx == -1 {
        1
    } else if dy == 1 {
        2
    } else if dy == -1 {
        3
    } else if dz == 1 {
        4
    } else {
        5
    };
    assert(n[k] == offset(pos, dx, dy, dz));
}

/// A change has the cell itself and all six cells that share a face with it
/// looked at, and none that waited is forgotten.
pub proof fn law_a_change_wakes_its_neighbours(
    queue: Seq<CellPos>,
    pos: CellPos,
    now: BlockType,
    dx: int,
    dy: int,
    dz: int,
    other: CellPos,
)
    requires
        shares_face(dx, dy, dz),
    ensures
        queue_after_change(queue, pos, now).contains(pos),
        queue_after_change(queue, pos, now).contains(
            ((pos.0 + dx) as i32, (pos.1 + dy) as i32, (pos.2 + dz) as i32),
        ),
        queue.contains(other) ==> queue_after_change(queue, pos, now).contains(other),
{
    let first = if now == BlockType::Sponge {
        queue_with_all(queue, sponge_cube(pos))
    } else {
        queue
    };
    let cell = offset(pos, dx, dy, dz);
    lemma_neighbours(pos, dx, dy, dz);
    lemma_queue_with_all_elements(queue, sponge_cube(pos), other);
    lemma_push_contains(first, pos, pos);
    lemma_push_contains(first, pos, other);
    lemma_queue_with_all_elements(queue_with(first, pos), neighbours(pos), pos);
    lemma_queue_with_all_elements(queue_with(first, pos), neighbours(pos), cell);
    lemma_queue_with_all_elements(queue_with(first, pos), neighbours(pos), other);
}

/// A cell that changes, and a spring that is looked at, has all six cells that
/// share a face with it looked at in turn. So water reaches every free cell
/// beside it, and what it fed learns that it is gone.
pub proof fn law_reactions_wake_all_neighbours(
    st: TickState,
    sponges: Set<CellPos>,
    dx: int,
    dy: int,
    dz: int,
)
    requires
        st.world.wf(),
        st.queue.len() > 0,
        shares_face(dx, dy, dz),
        ({
            let p = st.queue[0];
            ||| changed(st, st.step(sponges), p)
            ||| st.world.block_at(p.0 as int, p.1 as int, p.2 as int) == BlockType::Water(0)
        }),
    ensures
        ({
            let p = st.queue[0];
            st.step(sponges).queue.contains(
                ((p.0 + dx) as i32, (p.1 + dy) as i32, (p.2 + dz) as i32),
            )
        }),
{
    let p = st.queue[0];
    lemma_step(st, sponges, p);
    lemma_neighbours(p, dx, dy, dz);
    lemma_queue_with_all_elements(
        st.queue.drop_first(),
        neighbours(p),
        offset(p, dx, dy, dz),
    );
}

/// A tick takes its cells from the front: those beyond the first 96 wait on in
/// their order, ahead of everything that is woken. When fewer wait, all of them
/// get their turn.
pub proof fn law_waiting_cells_get_their_turn(st: TickState, sponges: Set<CellPos>, n: nat)
    requires
        n == updates(st.queue),
    ensures
        n == if st.queue.len() < 96 {
            st.queue.len()
        } else {
            96
        },
        st.queue.skip(n as int).is_prefix_of(st.steps(sponges, n).queue),
{
    lemma_rest_stays_ahead(st, sponges, n);
}

proof fn lemma_rest_stays_ahead(st: TickState, sponges: Set<CellPos>, n: nat)
    requires
        n <= st.queue.len(),
    ensures
        st.queue.skip(n as int).is_prefix_of(st.steps(sponges, n).queue),
    decreases n,
{
    if n == 0 {
        assert(st.queue.skip(0) =~= st.queue);
        assert(st.queue.is_prefix_of(st.queue)) by {
            assert(st.queue =~= st.queue.take(st.queue.len() as int));
        }
    } else {
        let next = st.step(sponges);
        let rest = st.queue.drop_first();
        let near = neighbours(st.queue[0]);
        let m = (n - 1) as nat;
        lemma_queue_with_all_appends(rest, near);
        assert(next.queue == rest || next.queue == queue_with_all(rest, near));
        assert(next.queue.take(rest.len() as int) =~= rest);
        lemma_rest_stays_ahead(next, sponges, m);
        let end = st.steps(sponges, n).queue;
        let ahead = st.queue.skip(n as int);
        let later = next.queue.skip(m as int);
        assert forall|k: int| 0 <= k < ahead.len() implies ahead[k] == end[k] by {
            assert(ahead[k] == rest[k + m]);
            assert(next.queue.take(rest.len() as int)[k + m] == next.queue[k + m]);
            assert(later[k] == next.queue[k + m]);
            assert(later == end.take(later.len() as int));
            assert(end.take(later.len() as int)[k] == end[k]);
        }
        assert(later.len() <= end.len());
        assert(ahead =~= end.take(ahead.len() as int));
    }
}

/// A sponge soaks up the cube of nine cells a side around it, and nothing beyond.
pub proof fn law_sponge_reach_is_a_cube(sponge: CellPos, pos: CellPos, sponges: Set<CellPos>)
    ensures
        -4 <= pos.0 - sponge.0 <= 4 && -4 <= pos.1 - sponge.1 <= 4 && -4 <= pos.2 - sponge.2 <= 4
            && sponges.contains(sponge) ==> soaked(sponges, pos),
        soaked(Set::empty().insert(sponge), pos) ==> -4 <= pos.0 - sponge.0 <= 4 && -4 <= pos.1
            - sponge.1 <= 4 && -4 <= pos.2 - sponge.2 <= 4,
        !soaked(Set::empty(), pos),
{
}

/// A placed sponge works from then on, a broken one no longer, and the others
/// work on.
pub proof fn law_sponges_come_and_go(
    sponges: Set<CellPos>,
    pos: CellPos,
    was: BlockType,
    now: BlockType,
    other: CellPos,
)
    ensures
        now == BlockType::Sponge ==> sponges_after(sponges, pos, was, now).contains(pos),
        was == BlockType::Sponge && now != BlockType::Sponge ==> !sponges_after(
            sponges,
            pos,
            was,
            now,
        ).contains(pos),
        was != BlockType::Sponge && now != BlockType::Sponge ==> sponges_after(
            sponges,
            pos,
            was,
            now,
        ) == sponges,
        other != pos ==> (sponges_after(sponges, pos, was, now).contains(other)
            <==> sponges.contains(other)),
{
}

} // verus!
