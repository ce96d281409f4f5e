//! The editable world: a map from chunk coordinates to chunks, with the set of
//! chunks that changed since they were last saved.
use crate::environment::chunk::{
    cell_index, in_chunk, law_cell_index_is_a_bijection, lemma_cell_index_in_range, BlockType, Chunk,
    CHUNK_SIZE_X, CHUNK_SIZE_Y, CHUNK_SIZE_Z, CHUNK_VOLUME,
};
use crate::environment::mesher::{
    generate_mesh, is_mesh_of, law_mesh_is_determined, ChunkNeighborhood, MeshData, Surroundings,
};
use crate::environment::save_manager::{below, chunk_file, chunk_file_path};
use crate::environment::worldgen::{generated, ColumnSample, WorldGenerator};
use std::collections::{HashMap, HashSet};
use vstd::prelude::*;
use vstd::string::StringExecFns;

verus! {

broadcast use vstd::std_specs::hash::group_hash_axioms;

/// Coordinates of a chunk, in chunks.
pub type ChunkPos = (i32, i32);

/// A chunk of air.
pub open spec fn air_blocks() -> Seq<BlockType> {
    Seq::new(CHUNK_VOLUME as nat, |i: int| BlockType::Air)
}

/// The chunk that a block column belongs to.
pub open spec fn chunk_of(x: int, z: int) -> ChunkPos {
    ((x / 16) as i32, (z / 16) as i32)
}

/// What a world holds: its loaded chunks and which of them are unsaved.
#[verifier::ext_equal]
pub struct WorldState {
    pub chunks: Map<ChunkPos, Seq<BlockType>>,
    pub unsaved: Set<ChunkPos>,
}

impl WorldState {
    pub open spec fn wf(self) -> bool {
        forall|c: ChunkPos| #[trigger]
            self.chunks.contains_key(c) ==> self.chunks[c].len() == CHUNK_VOLUME
    }

    /// The blocks of a chunk; a chunk that is not loaded is air.
    pub open spec fn blocks(self, c: ChunkPos) -> Seq<BlockType> {
        if self.chunks.contains_key(c) {
            self.chunks[c]
        } else {
            air_blocks()
        }
    }

    /// The block at world coordinates; above and below the world there is air.
    pub open spec fn block_at(self, x: int, y: int, z: int) -> BlockType {
        if 0 <= y < CHUNK_SIZE_Y {
            self.blocks(chunk_of(x, z))[cell_index(x % 16, y, z % 16)]
        } else {
            BlockType::Air
        }
    }

    /// The world after a block was placed. Placing into a chunk that is not
    /// loaded makes it a chunk of air first; above and below the world nothing
    /// happens.
    pub open spec fn with_block(self, x: int, y: int, z: int, block: BlockType) -> WorldState {
        if 0 <= y < CHUNK_SIZE_Y {
            let c = chunk_of(x, z);
            WorldState {
                chunks: self.chunks.insert(
                    c,
                    self.blocks(c).update(cell_index(x % 16, y, z % 16), block),
                ),
                unsaved: self.unsaved.insert(c),
            }
        } else {
            self
        }
    }
}

/// The chunks whose mesh depends on a block: its own chunk, and the chunk past
/// each side that the block touches.
pub open spec fn remesh_after(x: int, y: int, z: int) -> Seq<ChunkPos> {
    let (cx, cz) = chunk_of(x, z);
    if 0 <= y < CHUNK_SIZE_Y {
        seq![(cx, cz)] + (if x % 16 == 0 {
            seq![((cx - 1) as i32, cz)]
        } else {
            seq![]
        }) + (if x % 16 == 15 {
            seq![((cx + 1) as i32, cz)]
        } else {
            seq![]
        }) + (if z % 16 == 0 {
            seq![(cx, (cz - 1) as i32)]
        } else {
            seq![]
        }) + (if z % 16 == 15 {
            seq![(cx, (cz + 1) as i32)]
        } else {
            seq![]
        })
    } else {
        seq![]
    }
}

/// Chunk coordinates as one number.
pub open spec fn chunk_key(c: ChunkPos) -> u64 {
    ((c.0 + 0x8000_0000) * 0x1_0000_0000 + (c.1 + 0x8000_0000)) as u64
}

/// The chunk coordinates that a number stands for.
pub open spec fn key_chunk(k: u64) -> ChunkPos {
    ((k / 0x1_0000_0000 - 0x8000_0000) as i32, (k % 0x1_0000_0000 - 0x8000_0000) as i32)
}

/// Chunk coordinates and their numbers stand for each other.
pub broadcast proof fn lemma_chunk_key_round_trip(c: ChunkPos)
    ensures
        key_chunk(#[trigger] chunk_key(c)) == c,
{
}

pub broadcast proof fn lemma_key_chunk_round_trip(k: u64)
    ensures
        chunk_key(#[trigger] key_chunk(k)) == k,
{
}

pub(crate) fn pack(c: ChunkPos) -> (k: u64)
    ensures
        k == chunk_key(c),
{
    ((c.0 as i64 + 0x8000_0000) as u64) * 0x1_0000_0000 + (c.1 as i64 + 0x8000_0000) as u64
}

fn unpack(k: u64) -> (c: ChunkPos)
    ensures
        c == key_chunk(k),
{
    (
        ((k / 0x1_0000_0000) as i64 - 0x8000_0000) as i32,
        ((k % 0x1_0000_0000) as i64 - 0x8000_0000) as i32,
    )
}

pub struct World {
    chunks: HashMap<u64, Chunk>,
    dirty_for_save: HashSet<u64>,
    seed: u32,
    save_dir: String,
}

impl View for World {
    type V = WorldState;

    closed spec fn view(&self) -> WorldState {
        WorldState {
            chunks: Map::new(
                |c: ChunkPos| self.chunks@.contains_key(chunk_key(c)),
                |c: ChunkPos| self.chunks@[chunk_key(c)].blocks@,
            ),
            unsaved: Set::new(|c: ChunkPos| self.dirty_for_save@.contains(chunk_key(c))),
        }
    }
}

impl World {
    /// The seed that the world's terrain grows from.
    pub closed spec fn terrain_seed(&self) -> u32 {
        self.seed
    }

    /// The directory that the world is saved in.
    pub closed spec fn directory(&self) -> Seq<char> {
        self.save_dir@
    }

    proof fn lemma_wf_chunk(&self, k: u64)
        requires
            self@.wf(),
            self.chunks@.contains_key(k),
        ensures
            self.chunks@[k].wf(),
    {
        lemma_key_chunk_round_trip(k);
        assert(self@.chunks.contains_key(key_chunk(k)));
    }

    /// A world with nothing loaded.
    pub fn new(seed: u32, save_dir: String) -> (r: Self)
        ensures
            r@.wf(),
            r@.chunks == Map::<ChunkPos, Seq<BlockType>>::empty(),
            r@.unsaved == Set::<ChunkPos>::empty(),
            r.terrain_seed() == seed,
            r.directory() == save_dir@,
    {
        let r = World { chunks: HashMap::new(), dirty_for_save: HashSet::new(), seed, save_dir };
        assert(r@.chunks =~= Map::<ChunkPos, Seq<BlockType>>::empty());
        assert(r@.unsaved =~= Set::<ChunkPos>::empty());
        r
    }

    pub fn seed(&self) -> (r: u32)
        ensures
            r == self.terrain_seed(),
    {
        self.seed
    }

    pub fn save_dir(&self) -> (r: &str)
        ensures
            r@ == self.directory(),
    {
        self.save_dir.as_str()
    }

    /// Splits world coordinates into chunk coordinates and coordinates in the chunk.
    fn world_to_chunk(x: i32, y: i32, z: i32) -> (r: (ChunkPos, (i32, i32, i32)))
        ensures
            r.0 == chunk_of(x as int, z as int),
            r.1 == ((x as int % 16) as i32, y, (z as int % 16) as i32),
            -0x800_0000 <= r.0.0 < 0x800_0000,
            -0x800_0000 <= r.0.1 < 0x800_0000,
            0 <= r.1.0 < 16,
            0 <= r.1.2 < 16,
    {
        let chunk_x: i32 = x.checked_div_euclid(16).unwrap();
        let chunk_z: i32 = z.checked_div_euclid(16).unwrap();
        let local_x: i32 = x.checked_rem_euclid(16).unwrap();
        let local_z: i32 = z.checked_rem_euclid(16).unwrap();
        ((chunk_x, chunk_z), (local_x, y, local_z))
    }

    /// The chunk that holds the block column at `x`, `z`.
    pub fn world_pos_to_chunk(x: i32, z: i32) -> (r: ChunkPos)
        ensures
            r == chunk_of(x as int, z as int),
    {
        Self::world_to_chunk(x, 0, z).0
    }

    /// Whether a chunk is loaded.
    pub fn has_chunk(&self, cx: i32, cz: i32) -> (r: bool)
        ensures
            r == self@.chunks.contains_key((cx, cz)),
    {
        self.chunks.contains_key(&pack((cx, cz)))
    }

    /// The chunk at the given chunk coordinates, if it is loaded.
    pub fn chunk(&self, cx: i32, cz: i32) -> (r: Option<&Chunk>)
        ensures
            match r {
                Some(c) => self@.chunks.contains_key((cx, cz)) && c.blocks@ == self@.chunks[(
                    cx,
                    cz,
                )],
                None => !self@.chunks.contains_key((cx, cz)),
            },
    {
        self.chunks.get(&pack((cx, cz)))
    }

    /// The block at world coordinates. Outside the loaded world there is air.
    pub fn get_block(&self, x: i32, y: i32, z: i32) -> (r: BlockType)
        requires
            self@.wf(),
        ensures
            r == self@.block_at(x as int, y as int, z as int),
    {
        if y < 0 || y >= CHUNK_SIZE_Y as i32 {
            return BlockType::Air;
        }
        let (pos, (lx, ly, lz)) = Self::world_to_chunk(x, y, z);
        let k: u64 = pack(pos);
        proof {
            lemma_cell_index_in_range();
            if self.chunks@.contains_key(k) {
                self.lemma_wf_chunk(k);
            }
        }
        match self.chunks.get(&k) {
            Some(chunk) => chunk.get(lx, ly, lz),
            None => BlockType::Air,
        }
    }

    /// Places a block and returns the chunks to mesh again.
    pub fn set_block(&mut self, x: i32, y: i32, z: i32, block: BlockType) -> (dirty: Vec<ChunkPos>)
        requires
            old(self)@.wf(),
        ensures
            final(self)@.wf(),
            final(self)@ == old(self)@.with_block(x as int, y as int, z as int, block),
            final(self).terrain_seed() == old(self).terrain_seed(),
            final(self).directory() == old(self).directory(),
            dirty@ == remesh_after(x as int, y as int, z as int),
    {
        if y < 0 || y >= CHUNK_SIZE_Y as i32 {
            return Vec::new();
        }
        let (pos, (lx, ly, lz)) = Self::world_to_chunk(x, y, z);
        let k: u64 = pack(pos);
        proof {
            lemma_cell_index_in_range();
            if self.chunks@.contains_key(k) {
                self.lemma_wf_chunk(k);
            }
        }
        let mut chunk: Chunk = match self.chunks.remove(&k) {
            Some(c) => c,
            None => Chunk::empty(),
        };
        assert(chunk.blocks@ == old(self)@.blocks(pos));
        chunk.set(lx as usize, ly as usize, lz as usize, block);
        self.chunks.insert(k, chunk);
        self.dirty_for_save.insert(k);
        proof {
            broadcast use {lemma_chunk_key_round_trip, lemma_key_chunk_round_trip};

            let after = old(self)@.with_block(x as int, y as int, z as int, block);
            assert(self@.chunks =~= after.chunks);
            assert(self@.unsaved =~= after.unsaved);
            assert(self@.wf());
        }
        let mut dirty: Vec<ChunkPos> = Vec::new();
        dirty.push(pos);
        if lx == 0 {
            dirty.push((pos.0 - 1, pos.1));
        }
        if lx == CHUNK_SIZE_X as i32 - 1 {
            dirty.push((pos.0 + 1, pos.1));
        }
        if lz == 0 {
            dirty.push((pos.0, pos.1 - 1));
        }
        if lz == CHUNK_SIZE_Z as i32 - 1 {
            dirty.push((pos.0, pos.1 + 1));
        }
        assert(dirty@ =~= remesh_after(x as int, y as int, z as int));
        dirty
    }
}

/// The chunks from `-radius` to `radius` around a center on both axes, X outermost.
pub open spec fn square(center: ChunkPos, radius: int) -> Seq<ChunkPos> {
    let n = square_side(radius);
    Seq::new(
        (n * n) as nat,
        |k: int| ((center.0 - radius + k / n) as i32, (center.1 - radius + k % n) as i32),
    )
}

pub open spec fn square_side(radius: int) -> int {
    if radius < 0 {
        0
    } else {
        2 * radius + 1
    }
}

pub open spec fn in_square(center: ChunkPos, radius: int, c: ChunkPos) -> bool {
    &&& center.0 - radius <= c.0 <= center.0 + radius
    &&& center.1 - radius <= c.1 <= center.1 + radius
}

/// The square fits the coordinate range.
pub open spec fn square_fits(center: ChunkPos, radius: int) -> bool {
    &&& i32::MIN <= center.0 - radius <= i32::MAX && i32::MIN <= center.0 + radius < i32::MAX
    &&& i32::MIN <= center.1 - radius <= i32::MAX && i32::MIN <= center.1 + radius < i32::MAX
}

proof fn lemma_square_index(n: int, i: int, j: int)
    requires
        0 <= i,
        0 <= j < n,
    ensures
        (i * n + j) / n == i,
        (i * n + j) % n == j,
        (i + 1) * n == i * n + n,
{
    vstd::arithmetic::div_mod::lemma_fundamental_div_mod_converse(i * n + j, n, i, j);
    assert((i + 1) * n == i * n + n) by (nonlinear_arith);
}

/// The square lists each of its chunks exactly once.
pub proof fn law_square_lists_each_chunk_once(center: ChunkPos, radius: int)
    requires
        square_fits(center, radius),
    ensures
        square(center, radius).no_duplicates(),
        forall|c: ChunkPos| #[trigger]
            square(center, radius).contains(c) <==> in_square(center, radius, c),
{
    let n = square_side(radius);
    let list = square(center, radius);
    if n > 0 {
        assert forall|k: int| 0 <= k < n * n implies 0 <= #[trigger] (k / n) < n && 0 <= k % n < n
            && k == (k / n) * n + k % n by {
            vstd::arithmetic::div_mod::lemma_fundamental_div_mod(k, n);
            assert(n * (k / n) == (k / n) * n) by (nonlinear_arith);
            assert(0 <= k / n < n && 0 <= k % n < n) by (nonlinear_arith)
                requires
                    0 <= k < n * n,
                    n > 0,
            ;
        }
        assert forall|a: int, b: int|
            0 <= a < list.len() && 0 <= b < list.len() && a != b implies list[a] != list[b] by {
            assert(0 <= a / n < n && 0 <= b / n < n);
            if list[a] == list[b] {
                assert(a / n == b / n);
                assert(a % n == b % n);
            }
        }
        assert forall|c: ChunkPos| #[trigger] list.contains(c) <==> in_square(
            center,
            radius,
            c,
        ) by {
            if list.contains(c) {
                let k = choose|k: int| 0 <= k < list.len() && list[k] == c;
                assert(0 <= k / n < n);
            }
            if in_square(center, radius, c) {
                let i = c.0 - center.0 + radius;
                let j = c.1 - center.1 + radius;
                lemma_square_index(n, i, j);
                assert(0 <= i * n + j < n * n) by (nonlinear_arith)
                    requires
                        0 <= i < n,
                        0 <= j < n,
                ;
                assert(list[i * n + j] == c);
            }
        }
    }
}

/// The chunks around a center, in the order in which they are generated.
pub fn chunks_around(center: ChunkPos, radius: i32) -> (r: Vec<ChunkPos>)
    requires
        square_fits(center, radius as int),
    ensures
        r@ == square(center, radius as int),
{
    let mut out: Vec<ChunkPos> = Vec::new();
    if radius < 0 {
        assert(out@ =~= square(center, radius as int));
        return out;
    }
    let ghost n = square_side(radius as int);
    let mut cx: i32 = center.0 - radius;
    assert(0 * n == 0) by (nonlinear_arith);
    while cx <= center.0 + radius
        invariant
            radius >= 0,
            square_fits(center, radius as int),
            n == square_side(radius as int),
            center.0 - radius <= cx <= center.0 + radius + 1,
            out@.len() == (cx - center.0 + radius) * n,
            forall|k: int| 0 <= k < out@.len() ==> #[trigger] out@[k] == square_cell(center, radius as int, k),
        decreases center.0 + radius + 1 - cx,
    {
        let mut cz: i32 = center.1 - radius;
        while cz <= center.1 + radius
            invariant
                radius >= 0,
                square_fits(center, radius as int),
                n == square_side(radius as int),
                center.0 - radius <= cx <= center.0 + radius,
                center.1 - radius <= cz <= center.1 + radius + 1,
                out@.len() == (cx - center.0 + radius) * n + (cz - center.1 + radius),
                forall|k: int|
                    0 <= k < out@.len() ==> #[trigger] out@[k] == square_cell(center, radius as int, k),
            decreases center.1 + radius + 1 - cz,
        {
            proof {
                lemma_square_index(n, cx - center.0 + radius, cz - center.1 + radius);
            }
            out.push((cx, cz));
            cz = cz + 1;
        }
        proof {
            lemma_square_index(n, cx - center.0 + radius, 0);
        }
        cx = cx + 1;
    }
    assert(out@ =~= square(center, radius as int));
    out
}

spec fn square_cell(center: ChunkPos, radius: int, k: int) -> ChunkPos {
    let n = square_side(radius);
    ((center.0 - radius + k / n) as i32, (center.1 - radius + k % n) as i32)
}

/// The four chunks at the sides of a chunk: west, east, north, south.
pub open spec fn sides(cx: i32, cz: i32) -> Seq<ChunkPos> {
    seq![
        ((cx - 1) as i32, cz),
        ((cx + 1) as i32, cz),
        (cx, (cz - 1) as i32),
        (cx, (cz + 1) as i32),
    ]
}

/// The chunk has a chunk on every side in the coordinate range.
pub open spec fn has_sides(cx: i32, cz: i32) -> bool {
    i32::MIN < cx < i32::MAX && i32::MIN < cz < i32::MAX
}

/// The blocks of a chunk, if it is loaded.
pub open spec fn loaded_blocks(w: WorldState, c: ChunkPos) -> Option<Seq<BlockType>> {
    if w.chunks.contains_key(c) {
        Some(w.chunks[c])
    } else {
        None
    }
}

/// A loaded chunk with the loaded chunks at its sides.
pub open spec fn surroundings(w: WorldState, cx: i32, cz: i32) -> Surroundings {
    Surroundings {
        center: w.chunks[(cx, cz)],
        neg_x: loaded_blocks(w, sides(cx, cz)[0]),
        pos_x: loaded_blocks(w, sides(cx, cz)[1]),
        neg_z: loaded_blocks(w, sides(cx, cz)[2]),
        pos_z: loaded_blocks(w, sides(cx, cz)[3]),
    }
}

/// The world after chunks were taken out of memory.
pub open spec fn without_chunk(w: WorldState, c: ChunkPos) -> WorldState {
    WorldState { chunks: w.chunks.remove(c), unsaved: w.unsaved.remove(c) }
}

/// The world after a chunk was put in place, not counted as changed.
pub open spec fn with_chunk(w: WorldState, c: ChunkPos, blocks: Seq<BlockType>) -> WorldState {
    WorldState { chunks: w.chunks.insert(c, blocks), unsaved: w.unsaved }
}

/// The world after the chunks of a list were put in place one after the other.
pub open spec fn with_chunks(
    w: WorldState,
    places: Seq<ChunkPos>,
    chunks: Seq<Chunk>,
) -> WorldState
    decreases places.len(),
{
    if places.len() == 0 {
        w
    } else {
        with_chunk(
            with_chunks(w, places.drop_last(), chunks.drop_last()),
            places.last(),
            chunks.last().blocks@,
        )
    }
}

pub open spec fn count_true(flags: Seq<bool>) -> nat
    decreases flags.len(),
{
    if flags.len() == 0 {
        0
    } else {
        count_true(flags.drop_last()) + if flags.last() {
            1nat
        } else {
            0nat
        }
    }
}

impl World {
    fn chunk_keys(&self) -> (r: Vec<u64>)
        ensures
            r@.no_duplicates(),
            forall|k: u64| #[trigger] r@.contains(k) <==> self.chunks@.contains_key(k),
    {
        let mut out: Vec<u64> = Vec::new();
        for k in it: self.chunks.keys()
            invariant
                out@.len() == it.index(),
                forall|j: int| 0 <= j < out@.len() ==> #[trigger] out@[j] == *it.seq()[j],
                it.seq().no_duplicates(),
                it.index() == it.seq().len() ==> out@ == it.seq().unref(),
                it.seq().unref().to_set() == self.chunks@.dom(),
        {
            out.push(*k);
        }
        assert(out@.to_set() == self.chunks@.dom());
        assert forall|k: u64| #[trigger] out@.contains(k) <==> self.chunks@.contains_key(k) by {
            assert(out@.contains(k) <==> out@.to_set().contains(k));
        }
        out
    }

    fn unsaved_keys(&self) -> (r: Vec<u64>)
        ensures
            r@.no_duplicates(),
            forall|k: u64| #[trigger] r@.contains(k) <==> self.dirty_for_save@.contains(k),
    {
        let mut out: Vec<u64> = Vec::new();
        for k in it: self.dirty_for_save.iter()
            invariant
                out@.len() == it.index(),
                forall|j: int| 0 <= j < out@.len() ==> #[trigger] out@[j] == *it.seq()[j],
                it.seq().no_duplicates(),
                it.index() == it.seq().len() ==> out@ == it.seq().unref(),
                it.seq().unref().to_set() == self.dirty_for_save@,
        {
            out.push(*k);
        }
        assert(out@.to_set() == self.dirty_for_save@);
        assert forall|k: u64| #[trigger] out@.contains(k) <==> self.dirty_for_save@.contains(k) by {
            assert(out@.contains(k) <==> out@.to_set().contains(k));
        }
        out
    }

    /// The coordinates of all loaded chunks, in no particular order.
    pub fn loaded_chunks(&self) -> (r: Vec<ChunkPos>)
        ensures
            r@.no_duplicates(),
            forall|c: ChunkPos| #[trigger] r@.contains(c) <==> self@.chunks.contains_key(c),
    {
        let keys = self.chunk_keys();
        let r = Self::unpack_all(&keys);
        proof {
            broadcast use {lemma_chunk_key_round_trip, lemma_key_chunk_round_trip};

            assert forall|c: ChunkPos| #[trigger] r@.contains(c) <==> self@.chunks.contains_key(
                c,
            ) by {
                assert(keys@.contains(chunk_key(c)) <==> self.chunks@.contains_key(chunk_key(c)));
            }
        }
        r
    }

    fn unpack_all(keys: &Vec<u64>) -> (r: Vec<ChunkPos>)
        requires
            keys@.no_duplicates(),
        ensures
            r@.no_duplicates(),
            forall|c: ChunkPos| #[trigger] r@.contains(c) <==> keys@.contains(chunk_key(c)),
    {
        let mut r: Vec<ChunkPos> = Vec::new();
        let mut i: usize = 0;
        while i < keys.len()
            invariant
                i <= keys@.len(),
                r@.len() == i,
                forall|j: int| 0 <= j < i ==> #[trigger] r@[j] == key_chunk(keys@[j]),
            decreases keys@.len() - i,
        {
            r.push(unpack(keys[i]));
            i = i + 1;
        }
        proof {
            broadcast use {lemma_chunk_key_round_trip, lemma_key_chunk_round_trip};

            assert forall|a: int, b: int|
                0 <= a < r@.len() && 0 <= b < r@.len() && a != b implies r@[a] != r@[b] by {
                assert(keys@[a] != keys@[b]);
            }
            assert forall|c: ChunkPos| #[trigger] r@.contains(c) <==> keys@.contains(
                chunk_key(c),
            ) by {
                if r@.contains(c) {
                    let j = choose|j: int| 0 <= j < r@.len() && r@[j] == c;
                    assert(keys@[j] == chunk_key(c));
                }
                if keys@.contains(chunk_key(c)) {
                    let j = choose|j: int| 0 <= j < keys@.len() && keys@[j] == chunk_key(c);
                    assert(r@[j] == c);
                }
            }
        }
        r
    }

    /// The chunks at the four sides of a chunk.
    pub fn direct_neighbors(cx: i32, cz: i32) -> (r: [ChunkPos; 4])
        requires
            has_sides(cx, cz),
        ensures
            r@ == sides(cx, cz),
    {
        let r = [(cx - 1, cz), (cx + 1, cz), (cx, cz - 1), (cx, cz + 1)];
        assert(r@ =~= sides(cx, cz));
        r
    }

    /// A chunk with its loaded neighbours, or nothing if the chunk itself is
    /// not loaded.
    pub fn chunk_neighborhood(&self, cx: i32, cz: i32) -> (r: Option<ChunkNeighborhood<'_>>)
        requires
            self@.wf(),
            has_sides(cx, cz),
        ensures
            r is Some <==> self@.chunks.contains_key((cx, cz)),
            r matches Some(nb) ==> nb.wf() && nb@ == surroundings(self@, cx, cz),
    {
        match self.chunk(cx, cz) {
            Some(center) => Some(
                ChunkNeighborhood {
                    center,
                    neg_x: self.chunk(cx - 1, cz),
                    pos_x: self.chunk(cx + 1, cz),
                    neg_z: self.chunk(cx, cz - 1),
                    pos_z: self.chunk(cx, cz + 1),
                },
            ),
            None => None,
        }
    }

    /// The mesh of a loaded chunk, drawn against its loaded neighbours.
    pub fn generate_chunk_mesh(&self, cx: i32, cz: i32) -> (r: Option<MeshData>)
        requires
            self@.wf(),
            has_sides(cx, cz),
        ensures
            r is Some <==> self@.chunks.contains_key((cx, cz)),
            r matches Some(mesh) ==> is_mesh_of(surroundings(self@, cx, cz), mesh),
    {
        match self.chunk_neighborhood(cx, cz) {
            Some(nb) => {
                let mesh = generate_mesh(&nb);
                Some(mesh)
            },
            None => None,
        }
    }

    /// The mesh to show for a chunk. Nothing is shown for one that is not
    /// loaded or has no faces to draw.
    pub fn remesh_chunk(&self, cx: i32, cz: i32) -> (r: Option<MeshData>)
        requires
            self@.wf(),
            has_sides(cx, cz),
        ensures
            r is Some <==> self@.chunks.contains_key((cx, cz)) && !draws_nothing(
                surroundings(self@, cx, cz),
            ),
            r matches Some(mesh) ==> is_mesh_of(surroundings(self@, cx, cz), mesh)
                && mesh.indices@.len() > 0,
    {
        match self.generate_chunk_mesh(cx, cz) {
            Some(mesh) => {
                let ghost nb = surroundings(self@, cx, cz);
                if mesh.indices.len() == 0 {
                    assert(is_empty_mesh_of(nb, mesh));
                    return None;
                }
                proof {
                    if draws_nothing(nb) {
                        let other = choose|m: MeshData| is_empty_mesh_of(nb, m);
                        law_mesh_is_determined(nb, mesh, other);
                    }
                }
                Some(mesh)
            },
            None => None,
        }
    }

    /// A loader for chunks of this world.
    pub fn loader(&self) -> (r: ChunkLoader)
        ensures
            r.terrain_seed() == self.terrain_seed(),
            r.directory() == self.directory(),
    {
        ChunkLoader {
            generator: WorldGenerator::new(self.seed),
            save_dir: String::from_str(self.save_dir.as_str()),
        }
    }

    /// Puts a chunk in place that was loaded or generated elsewhere.
    pub fn insert_loaded_chunk(&mut self, cx: i32, cz: i32, chunk: Chunk)
        requires
            old(self)@.wf(),
            chunk.wf(),
        ensures
            final(self)@.wf(),
            final(self)@ == with_chunk(old(self)@, (cx, cz), chunk.blocks@),
            final(self).terrain_seed() == old(self).terrain_seed(),
            final(self).directory() == old(self).directory(),
    {
        let ghost blocks = chunk.blocks@;
        self.chunks.insert(pack((cx, cz)), chunk);
        proof {
            broadcast use {lemma_chunk_key_round_trip, lemma_key_chunk_round_trip};

            let after = with_chunk(old(self)@, (cx, cz), blocks);
            assert(self@.chunks =~= after.chunks);
            assert(self@.unsaved =~= after.unsaved);
        }
    }

    /// Puts a chunk in place unless one is loaded there already.
    pub fn load_chunk(&mut self, cx: i32, cz: i32, chunk: Chunk)
        requires
            old(self)@.wf(),
            chunk.wf(),
        ensures
            final(self)@.wf(),
            final(self)@ == if old(self)@.chunks.contains_key((cx, cz)) {
                old(self)@
            } else {
                with_chunk(old(self)@, (cx, cz), chunk.blocks@)
            },
            final(self).terrain_seed() == old(self).terrain_seed(),
            final(self).directory() == old(self).directory(),
    {
        if self.has_chunk(cx, cz) {
            return;
        }
        self.insert_loaded_chunk(cx, cz, chunk);
    }

    /// Fills the square of the given radius around the origin with chunks, in
    /// the order of `chunks_around`.
    pub fn generate_area(&mut self, radius: i32, chunks: Vec<Chunk>)
        requires
            old(self)@.wf(),
            square_fits((0, 0), radius as int),
            chunks@.len() == square((0, 0), radius as int).len(),
            forall|k: int| 0 <= k < chunks@.len() ==> (#[trigger] chunks@[k]).wf(),
        ensures
            final(self)@.wf(),
            final(self)@ == with_chunks(old(self)@, square((0, 0), radius as int), chunks@),
            final(self).terrain_seed() == old(self).terrain_seed(),
            final(self).directory() == old(self).directory(),
    {
        let places = chunks_around((0, 0), radius);
        let ghost all = chunks@;
        let mut left: Vec<Chunk> = chunks;
        let mut i: usize = 0;
        assert(places@.take(0) =~= Seq::<ChunkPos>::empty());
        while i < places.len()
            invariant
                i <= places@.len(),
                all.len() == places@.len(),
                left@.len() == all.len() - i,
                forall|k: int| 0 <= k < left@.len() ==> #[trigger] left@[k] == all[i + k],
                forall|k: int| 0 <= k < all.len() ==> (#[trigger] all[k]).wf(),
                self@.wf(),
                self@ == with_chunks(old(self)@, places@.take(i as int), all.take(i as int)),
                self.terrain_seed() == old(self).terrain_seed(),
                self.directory() == old(self).directory(),
            decreases places@.len() - i,
        {
            let (cx, cz) = places[i];
            assert(left@[0] == all[i as int]);
            let chunk: Chunk = left.remove(0);
            proof {
                assert(all[i as int].wf());
                assert(places@.take(i + 1).drop_last() =~= places@.take(i as int));
                assert(all.take(i + 1).drop_last() =~= all.take(i as int));
            }
            self.insert_loaded_chunk(cx, cz, chunk);
            i = i + 1;
        }
        assert(places@.take(i as int) =~= places@);
        assert(all.take(i as int) =~= all);
    }

    /// The chunks to write to disk: those changed since they were last saved,
    /// as far as they are still loaded.
    pub fn chunks_to_save(&self) -> (r: Vec<ChunkPos>)
        ensures
            r@.no_duplicates(),
            forall|c: ChunkPos| #[trigger]
                r@.contains(c) <==> self@.unsaved.contains(c) && self@.chunks.contains_key(c),
    {
        let keys = self.unsaved_keys();
        let mut kept: Vec<u64> = Vec::new();
        let mut i: usize = 0;
        while i < keys.len()
            invariant
                i <= keys@.len(),
                keys@.no_duplicates(),
                kept@.no_duplicates(),
                forall|k: u64| #[trigger]
                    kept@.contains(k) <==> self.chunks@.contains_key(k) && exists|j: int|
                        0 <= j < i && #[trigger] keys@[j] == k,
            decreases keys@.len() - i,
        {
            let k: u64 = keys[i];
            let ghost before = kept@;
            if self.chunks.contains_key(&k) {
                kept.push(k);
            }
            proof {
                assert(!before.contains(k));
                assert forall|m: u64| #[trigger] kept@.contains(m) <==> self.chunks@.contains_key(m)
                    && exists|j: int| 0 <= j < i + 1 && #[trigger] keys@[j] == m by {
                    assert(before.contains(m) <==> self.chunks@.contains_key(m) && exists|j: int|
                        0 <= j < i && #[trigger] keys@[j] == m);
                    if self.chunks@.contains_key(k) {
                        assert(kept@ == before.push(k));
                        if before.contains(m) {
                            let a = choose|a: int| 0 <= a < before.len() && before[a] == m;
                            assert(kept@[a] == m);
                        }
                        if m == k {
                            assert(kept@[before.len() as int] == m);
                        }
                        if kept@.contains(m) && m != k {
                            let a = choose|a: int| 0 <= a < kept@.len() && kept@[a] == m;
                            assert(before[a] == m);
                        }
                    }
                    assert(keys@[i as int] == k);
                }
                if self.chunks@.contains_key(k) {
                    assert forall|a: int, b: int|
                        0 <= a < kept@.len() && 0 <= b < kept@.len() && a != b implies kept@[a]
                        != kept@[b] by {
                        if a < before.len() {
                            assert(before.contains(before[a]));
                        }
                        if b < before.len() {
                            assert(before.contains(before[b]));
                        }
                    }
                }
            }
            i = i + 1;
        }
        let r = Self::unpack_all(&kept);
        proof {
            broadcast use {lemma_chunk_key_round_trip, lemma_key_chunk_round_trip};

            assert forall|c: ChunkPos| #[trigger] r@.contains(c) <==> self@.unsaved.contains(c)
                && self@.chunks.contains_key(c) by {
                let k = chunk_key(c);
                assert(kept@.contains(k) <==> self.chunks@.contains_key(k) && exists|j: int|
                    0 <= j < keys@.len() && #[trigger] keys@[j] == k);
                assert(keys@.contains(k) <==> self.dirty_for_save@.contains(k));
            }
        }
        r
    }

    /// Concludes a save. `written` says of each chunk of `chunks_to_save`
    /// whether it reached the disk. Without a directory to save in nothing
    /// counts as saved; otherwise no chunk counts as changed any more. Returns
    /// how many chunks were written.
    pub fn save_dirty_chunks(&mut self, directory_ready: bool, written: &Vec<bool>) -> (saved: usize)
        requires
            old(self)@.wf(),
        ensures
            final(self)@.wf(),
            final(self)@.chunks == old(self)@.chunks,
            final(self).terrain_seed() == old(self).terrain_seed(),
            final(self).directory() == old(self).directory(),
            old(self)@.unsaved == Set::<ChunkPos>::empty() || !directory_ready ==> saved == 0 && final(
                self)@.unsaved == old(self)@.unsaved,
            old(self)@.unsaved != Set::<ChunkPos>::empty() && directory_ready ==> saved
                == count_true(written@) && final(self)@.unsaved == Set::<ChunkPos>::empty(),
    {
        if self.dirty_for_save.is_empty() {
            assert(self@.unsaved =~= Set::<ChunkPos>::empty());
            return 0;
        }
        proof {
            let k = choose|k: u64| self.dirty_for_save@.contains(k);
            lemma_key_chunk_round_trip(k);
            assert(self@.unsaved.contains(key_chunk(k)));
        }
        if !directory_ready {
            return 0;
        }
        let mut saved: usize = 0;
        let mut i: usize = 0;
        assert(written@.take(0) =~= Seq::<bool>::empty());
        while i < written.len()
            invariant
                i <= written@.len(),
                saved <= i,
                saved == count_true(written@.take(i as int)),
            decreases written@.len() - i,
        {
            assert(written@.take(i + 1).drop_last() =~= written@.take(i as int));
            if written[i] {
                saved = saved + 1;
            }
            i = i + 1;
        }
        assert(written@.take(i as int) =~= written@);
        self.dirty_for_save.clear();
        proof {
            assert(self@.unsaved =~= Set::<ChunkPos>::empty());
            assert(self@.chunks =~= old(self)@.chunks);
        }
        saved
    }

    /// Takes a chunk out of memory. If it holds changes that were not saved it
    /// is handed back, to be written to disk.
    pub fn unload_chunk(&mut self, cx: i32, cz: i32) -> (to_write: Option<Chunk>)
        requires
            old(self)@.wf(),
        ensures
            final(self)@.wf(),
            final(self)@ == without_chunk(old(self)@, (cx, cz)),
            final(self).terrain_seed() == old(self).terrain_seed(),
            final(self).directory() == old(self).directory(),
            to_write is Some <==> old(self)@.unsaved.contains((cx, cz)) && old(
                self)@.chunks.contains_key((cx, cz)),
            to_write matches Some(chunk) ==> chunk.blocks@ == old(self)@.chunks[(cx, cz)],
    {
        let k: u64 = pack((cx, cz));
        let changed: bool = self.dirty_for_save.remove(&k);
        let chunk: Option<Chunk> = self.chunks.remove(&k);
        proof {
            broadcast use {lemma_chunk_key_round_trip, lemma_key_chunk_round_trip};

            let after = without_chunk(old(self)@, (cx, cz));
            assert(self@.chunks =~= after.chunks);
            assert(self@.unsaved =~= after.unsaved);
        }
        if changed {
            chunk
        } else {
            None
        }
    }
}

/// Whether a number fits the coordinates of the world.
pub open spec fn in_world(n: int) -> bool {
    i32::MIN <= n <= i32::MAX
}

proof fn lemma_columns_are_distinct(x: int, z: int, a: int, c: int)
    requires
        in_world(x),
        in_world(z),
        in_world(a),
        in_world(c),
        chunk_of(x, z) == chunk_of(a, c),
        x % 16 == a % 16,
        z % 16 == c % 16,
    ensures
        x == a,
        z == c,
{
}

/// Inside the world's height a placed block is read back, and every other
/// block stays as it was.
pub proof fn law_get_after_set_block(w: WorldState, x: int, y: int, z: int, block: BlockType)
    requires
        w.wf(),
        in_world(x),
        in_world(z),
    ensures
        w.with_block(x, y, z, block).wf(),
        0 <= y < CHUNK_SIZE_Y ==> w.with_block(x, y, z, block).block_at(x, y, z) == block,
        forall|a: int, b: int, c: int|
            in_world(a) && in_world(c) && (a, b, c) != (x, y, z) ==> #[trigger] w.with_block(
                x,
                y,
                z,
                block,
            ).block_at(a, b, c) == w.block_at(a, b, c),
{
    lemma_cell_index_in_range();
    let after = w.with_block(x, y, z, block);
    assert forall|a: int, b: int, c: int|
        in_world(a) && in_world(c) && (a, b, c) != (x, y, z) implies #[trigger] after.block_at(
        a,
        b,
        c,
    ) == w.block_at(a, b, c) by {
        if 0 <= b < CHUNK_SIZE_Y && 0 <= y < CHUNK_SIZE_Y && chunk_of(a, c) == chunk_of(x, z) {
            if x % 16 == a % 16 && z % 16 == c % 16 {
                lemma_columns_are_distinct(x, z, a, c);
            }
            law_cell_index_is_a_bijection();
            assert(cell_index(a % 16, b, c % 16) != cell_index(x % 16, y, z % 16));
        }
    }
}

/// An edit is not lost when its chunk goes out of memory: the chunk is handed
/// over for saving, and once it is read back every block of the world is as it
/// was.
pub proof fn law_edits_survive_unloading(
    w: WorldState,
    x: int,
    y: int,
    z: int,
    block: BlockType,
    a: int,
    b: int,
    d: int,
)
    requires
        w.wf(),
        in_world(x),
        in_world(z),
        0 <= y < CHUNK_SIZE_Y,
    ensures
        ({
            let c = chunk_of(x, z);
            let edited = w.with_block(x, y, z, block);
            let back = with_chunk(without_chunk(edited, c), c, edited.chunks[c]);
            &&& edited.unsaved.contains(c)
            &&& edited.chunks.contains_key(c)
            &&& !without_chunk(edited, c).unsaved.contains(c)
            &&& back.block_at(x, y, z) == block
            &&& back.block_at(a, b, d) == edited.block_at(a, b, d)
        }),
{
    law_get_after_set_block(w, x, y, z, block);
}

/// Chunk and local coordinates together give back the world coordinates.
pub proof fn law_world_coordinates_round_trip(x: int, z: int)
    requires
        in_world(x),
        in_world(z),
    ensures
        chunk_of(x, z).0 * 16 + x % 16 == x,
        chunk_of(x, z).1 * 16 + z % 16 == z,
        0 <= x % 16 < 16,
        0 <= z % 16 < 16,
{
}

/// Whichever chunk the mesher looks into for a block, `remesh_after` names it:
/// each chunk that has the block inside it or directly past one of its sides.
pub proof fn law_remesh_covers_the_neighbours(x: int, y: int, z: int, cx: i32, cz: i32)
    requires
        in_world(x),
        in_world(z),
        0 <= y < CHUNK_SIZE_Y,
        -0x800_0000 <= cx < 0x800_0000,
        -0x800_0000 <= cz < 0x800_0000,
    ensures
        remesh_after(x, y, z).contains((cx, cz)) <==> {
            ||| cx * 16 <= x < cx * 16 + 16 && cz * 16 <= z < cz * 16 + 16
            ||| (x == cx * 16 - 1 || x == cx * 16 + 16) && cz * 16 <= z < cz * 16 + 16
            ||| cx * 16 <= x < cx * 16 + 16 && (z == cz * 16 - 1 || z == cz * 16 + 16)
        },
{
    let list = remesh_after(x, y, z);
    let (bx, bz) = chunk_of(x, z);
    assert(list[0] == (bx, bz));
    if x % 16 == 0 {
        assert(list[1] == ((bx - 1) as i32, bz));
    }
    if x % 16 == 15 {
        assert(list[1] == ((bx + 1) as i32, bz));
    }
    let n: int = if x % 16 == 0 || x % 16 == 15 {
        2
    } else {
        1
    };
    if z % 16 == 0 {
        assert(list[n] == (bx, (bz - 1) as i32));
    }
    if z % 16 == 15 {
        assert(list[n] == (bx, (bz + 1) as i32));
    }
    if list.contains((cx, cz)) {
        let k = choose|k: int| 0 <= k < list.len() && list[k] == (cx, cz);
        assert(k < 3);
    }
}

/// A loaded chunk is meshed against what the world holds in it and in the chunks
/// past its four sides.
pub proof fn law_surroundings_show_the_world(
    w: WorldState,
    cx: i32,
    cz: i32,
    x: int,
    y: int,
    z: int,
)
    requires
        w.wf(),
        w.chunks.contains_key((cx, cz)),
        has_sides(cx, cz),
        -16 <= x < 32 && 0 <= z < 16 || 0 <= x < 16 && -16 <= z < 32,
    ensures
        surroundings(w, cx, cz).at(x, y, z) == w.block_at(cx * 16 + x, y, cz * 16 + z),
{
    lemma_cell_index_in_range();
    assert(sides(cx, cz)[0] == ((cx - 1) as i32, cz));
    if 0 <= y < CHUNK_SIZE_Y {
        assert(chunk_of(cx * 16 + x, cz * 16 + z) == if x < 0 {
            ((cx - 1) as i32, cz)
        } else if x >= 16 {
            ((cx + 1) as i32, cz)
        } else if z < 0 {
            (cx, (cz - 1) as i32)
        } else if z >= 16 {
            (cx, (cz + 1) as i32)
        } else {
            (cx, cz)
        });
        assert((cx * 16 + x) % 16 == if x < 0 {
            x + 16
        } else if x >= 16 {
            x - 16
        } else {
            x
        });
        assert((cz * 16 + z) % 16 == if z < 0 {
            z + 16
        } else if z >= 16 {
            z - 16
        } else {
            z
        });
    }
}

/// A mesh that draws nothing is the mesh of these surroundings.
pub open spec fn is_empty_mesh_of(nb: Surroundings, mesh: MeshData) -> bool {
    is_mesh_of(nb, mesh) && mesh.indices@.len() == 0
}

/// There are no faces to draw.
pub open spec fn draws_nothing(nb: Surroundings) -> bool {
    exists|mesh: MeshData| is_empty_mesh_of(nb, mesh)
}

/// Loads or generates chunks of a world without touching the world.
pub struct ChunkLoader {
    generator: WorldGenerator,
    save_dir: String,
}

impl ChunkLoader {
    pub closed spec fn terrain_seed(&self) -> u32 {
        self.generator.world_seed()
    }

    pub closed spec fn directory(&self) -> Seq<char> {
        self.save_dir@
    }

    /// The generator of the world's terrain.
    pub fn generator(&self) -> (r: &WorldGenerator)
        ensures
            r.world_seed() == self.terrain_seed(),
    {
        &self.generator
    }

    /// The file that a chunk is saved in.
    pub fn chunk_file_path(&self, cx: i32, cz: i32) -> (r: String)
        ensures
            r@ == below(self.directory(), chunk_file(cx as int, cz as int)),
    {
        chunk_file_path(self.save_dir.as_str(), cx, cz)
    }

    /// The chunk at a place: the saved one if it could be read, else one grown
    /// from the samples of its columns.
    pub fn load_or_generate(
        &self,
        cx: i32,
        cz: i32,
        saved: Option<Chunk>,
        cols: &Vec<ColumnSample>,
    ) -> (chunk: Chunk)
        requires
            saved is Some ==> saved->0.wf(),
            saved is None ==> {
                &&& -0x7ff_ffff <= cx < 0x7ff_fffe
                &&& -0x7ff_ffff <= cz < 0x7ff_fffe
                &&& cols@.len() == 400
                &&& forall|n: int| 0 <= n < 400 ==> (#[trigger] cols@[n]).wf()
            },
        ensures
            chunk.wf(),
            saved is Some ==> chunk == saved->0,
            saved is None ==> forall|x: int, y: int, z: int|
                in_chunk(x, y, z) ==> #[trigger] chunk.at(x, y, z) == generated(
                    self.terrain_seed(),
                    cx as int,
                    cz as int,
                    cols@,
                    x,
                    y,
                    z,
                ),
    {
        match saved {
            Some(chunk) => chunk,
            None => self.generator.generate_chunk(cx, cz, cols),
        }
    }
}

/// An edit marks its chunk as unsaved, brings it into memory, and leaves every
/// other chunk alone. Above and below the world there is nothing to edit.
pub proof fn law_edits_mark_their_chunk(
    w: WorldState,
    x: int,
    y: int,
    z: int,
    block: BlockType,
    other: ChunkPos,
)
    requires
        in_world(x),
        in_world(z),
    ensures
        ({
            let after = w.with_block(x, y, z, block);
            let c = ((x / 16) as i32, (z / 16) as i32);
            &&& 0 <= y < 64 ==> after.unsaved.contains(c) && after.chunks.contains_key(c)
            &&& other != c ==> (after.unsaved.contains(other) <==> w.unsaved.contains(other))
            &&& other != c ==> (after.chunks.contains_key(other) <==> w.chunks.contains_key(other))
            &&& other != c && w.chunks.contains_key(other) ==> after.chunks[other]
                == w.chunks[other]
            &&& y < 0 || y >= 64 ==> after == w
        }),
{
}

/// A block of the world is the block of its chunk at the place inside it; what
/// is not in memory, and everything above and below, is air.
pub proof fn law_blocks_are_read_from_their_chunk(
    w: WorldState,
    cx: i32,
    cz: i32,
    x: int,
    y: int,
    z: int,
)
    requires
        0 <= x < 16,
        0 <= z < 16,
    ensures
        w.chunks.contains_key((cx, cz)) && 0 <= y < 64 ==> w.block_at(
            cx * 16 + x,
            y,
            cz * 16 + z,
        ) == w.chunks[(cx, cz)][x + 16 * y + 1024 * z],
        !w.chunks.contains_key((cx, cz)) ==> w.block_at(cx * 16 + x, y, cz * 16 + z)
            == BlockType::Air,
        y < 0 || y >= 64 ==> w.block_at(cx * 16 + x, y, cz * 16 + z) == BlockType::Air,
{
    assert((cx * 16 + x) / 16 == cx && (cx * 16 + x) % 16 == x);
    assert((cz * 16 + z) / 16 == cz && (cz * 16 + z) % 16 == z);
    lemma_cell_index_in_range();
}

/// The four sides of a chunk are west, east, north and south of it.
pub proof fn law_sides_lie_around_a_chunk(cx: i32, cz: i32)
    requires
        has_sides(cx, cz),
    ensures
        sides(cx, cz).len() == 4,
        sides(cx, cz)[0].0 == cx - 1 && sides(cx, cz)[0].1 == cz,
        sides(cx, cz)[1].0 == cx + 1 && sides(cx, cz)[1].1 == cz,
        sides(cx, cz)[2].0 == cx && sides(cx, cz)[2].1 == cz - 1,
        sides(cx, cz)[3].0 == cx && sides(cx, cz)[3].1 == cz + 1,
{
}

/// The square has so many chunks a side as twice the radius and one, from one
/// corner to the other, a column of X at a time.
pub proof fn law_square_runs_along_z_first(center: ChunkPos, radius: int, i: int, j: int)
    requires
        square_fits(center, radius),
        0 <= radius,
        -radius <= i <= radius,
        -radius <= j <= radius,
    ensures
        square(center, radius).len() == (2 * radius + 1) * (2 * radius + 1),
        ({
            let k = (i + radius) * (2 * radius + 1) + (j + radius);
            &&& 0 <= k < square(center, radius).len()
            &&& square(center, radius)[k] == ((center.0 + i) as i32, (center.1 + j) as i32)
        }),
{
    let n = 2 * radius + 1;
    let k = (i + radius) * n + (j + radius);
    assert(0 <= k < n * n && k / n == i + radius && k % n == j + radius) by {
        assert(0 <= (i + radius) * n && (i + radius) * n + n <= n * n) by (nonlinear_arith)
            requires
                0 <= i + radius,
                i + radius < n,
                0 < n,
        ;
        vstd::arithmetic::div_mod::lemma_fundamental_div_mod_converse(
            k,
            n,
            i + radius,
            j + radius,
        );
    }
}

/// Putting chunks in place one after the other leaves each of them in memory,
/// and a saved chunk that was put in place is not counted as changed.
pub proof fn law_placed_chunks_are_in_memory(
    w: WorldState,
    places: Seq<ChunkPos>,
    chunks: Seq<Chunk>,
    c: ChunkPos,
)
    requires
        places.len() == chunks.len(),
        places.no_duplicates(),
    ensures
        ({
            let after = with_chunks(w, places, chunks);
            &&& after.unsaved == w.unsaved
            &&& after.chunks.contains_key(c) <==> w.chunks.contains_key(c) || places.contains(c)
            &&& forall|k: int|
                0 <= k < places.len() ==> after.chunks[#[trigger] places[k]] == chunks[k].blocks@
            &&& !places.contains(c) && w.chunks.contains_key(c) ==> after.chunks[c] == w.chunks[c]
        }),
    decreases places.len(),
{
    if places.len() > 0 {
        let init = places.drop_last();
        assert(init.no_duplicates());
        law_placed_chunks_are_in_memory(w, init, chunks.drop_last(), c);
        let last = places.last();
        assert(places[places.len() - 1] == last);
        assert forall|k: int| 0 <= k < init.len() implies places[k] != last && init[k]
            == places[k] && chunks.drop_last()[k] == chunks[k] by {
            assert(places[k] != places[places.len() - 1]);
        }
        if init.contains(c) {
            let i = choose|i: int| 0 <= i < init.len() && init[i] == c;
            assert(places[i] == c);
        }
        if places.contains(c) && c != last {
            let i = choose|i: int| 0 <= i < places.len() && places[i] == c;
            assert(init[i] == c);
        }
        let before = with_chunks(w, init, chunks.drop_last());
        let after = with_chunks(w, places, chunks);
        assert forall|k: int| 0 <= k < places.len() implies after.chunks[#[trigger] places[k]]
            == chunks[k].blocks@ by {
            if k < init.len() {
                assert(before.chunks[init[k]] == chunks.drop_last()[k].blocks@);
            }
        }
    }
}

/// Counting counts each flag that is set once.
pub proof fn law_set_flags_are_counted(flags: Seq<bool>, flag: bool)
    ensures
        count_true(flags.push(flag)) == if flag {
            count_true(flags) + 1
        } else {
            count_true(flags)
        },
        count_true(Seq::empty()) == 0,
{
    assert(flags.push(flag).drop_last() =~= flags);
}

} // verus!
