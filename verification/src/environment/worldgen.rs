//! Terrain: turns samples of the height and cave noise into blocks, and plants
//! trees on it.
//!
//! Sampling the noise is the caller's part; every rule about what the samples
//! mean is here.
use crate::environment::chunk::{
    in_chunk, law_get_after_set, lemma_cell_index_in_range, BlockType, Chunk, CHUNK_SIZE_X,
    CHUNK_SIZE_Y, CHUNK_SIZE_Z,
};
use vstd::prelude::*;

verus! {

/// Trees reach at most this many columns past their trunk.
pub const TREE_MARGIN: i32 = 2;

/// Water fills everything open below this height.
pub const SEA_LEVEL: usize = 16;

/// Caverns keep their shape over this many blocks of height.
pub const CAVE_BAND_CHEESE: i32 = 4;

/// Tunnels keep their shape over this many blocks of height.
pub const CAVE_BAND_TUNNEL: i32 = 3;

/// Caves are flooded up to this height.
pub const CAVE_WATER_LEVEL: i32 = 10;

/// Ground from this height on counts as mountain.
pub const MOUNTAIN_HEIGHT: usize = 40;

/// Nothing is dug out below this height.
pub const FLOOR_BUFFER: i32 = 2;

/// How far a ravine cuts into the ground.
pub const RAVINE_DEPTH: i32 = 20;

/// Trees per thousand columns.
pub const DENSITY_PER_MILLE: u64 = 25;

/// Columns along one side of the area that a chunk's trees may stand in.
pub const SAMPLED_SIDE: usize = 20;

/// Leaves of a tree, relative to the top of its trunk.
pub const CANOPY_OFFSETS: [(i32, i32, i32); 56] = [
    (-2, -2, -1),
    (-2, -2, 0),
    (-2, -2, 1),
    (-1, -2, -2),
    (-1, -2, -1),
    (-1, -2, 0),
    (-1, -2, 1),
    (-1, -2, 2),
    (0, -2, -2),
    (0, -2, -1),
    (0, -2, 0),
    (0, -2, 1),
    (0, -2, 2),
    (1, -2, -2),
    (1, -2, -1),
    (1, -2, 0),
    (1, -2, 1),
    (1, -2, 2),
    (2, -2, -1),
    (2, -2, 0),
    (2, -2, 1),
    (-2, -1, -1),
    (-2, -1, 0),
    (-2, -1, 1),
    (-1, -1, -2),
    (-1, -1, -1),
    (-1, -1, 0),
    (-1, -1, 1),
    (-1, -1, 2),
    (0, -1, -2),
    (0, -1, -1),
    (0, -1, 0),
    (0, -1, 1),
    (0, -1, 2),
    (1, -1, -2),
    (1, -1, -1),
    (1, -1, 0),
    (1, -1, 1),
    (1, -1, 2),
    (2, -1, -1),
    (2, -1, 0),
    (2, -1, 1),
    (-1, 0, -1),
    (-1, 0, 0),
    (-1, 0, 1),
    (0, 0, -1),
    (0, 0, 0),
    (0, 0, 1),
    (1, 0, -1),
    (1, 0, 0),
    (1, 0, 1),
    (0, 1, 0),
    (1, 1, 0),
    (-1, 1, 0),
    (0, 1, 1),
    (0, 1, -1),
];

/// What the noise says about one column.
pub struct ColumnSample {
    /// How many blocks of ground the column has.
    pub height: usize,
    /// The column lies in a ravine.
    pub ravine: bool,
    /// Caves may open to the surface here.
    pub entrance: bool,
    /// For each band of `CAVE_BAND_CHEESE` blocks whether it lies in a cavern.
    pub cheese: Vec<bool>,
    /// For each band of `CAVE_BAND_TUNNEL` blocks whether it lies in a tunnel.
    pub tunnel: Vec<bool>,
}

impl ColumnSample {
    /// There is a sample for every band of the world's height.
    pub open spec fn wf(&self) -> bool {
        &&& self.height <= i32::MAX
        &&& self.cheese@.len() == 16
        &&& self.tunnel@.len() == 22
    }

    /// The ravine, if there is one, is open from here up.
    pub open spec fn ravine_bottom(&self) -> int {
        if self.height - RAVINE_DEPTH > 2 {
            self.height - RAVINE_DEPTH
        } else {
            2
        }
    }

    /// Up to here caves may dig: four blocks of cover, or one at an entrance.
    pub open spec fn cave_ceiling(&self) -> int {
        self.height - if self.entrance {
            1int
        } else {
            4int
        }
    }

    /// The block at height `y` is dug out.
    pub open spec fn dug(&self, y: int) -> bool {
        &&& y >= FLOOR_BUFFER
        &&& {
            ||| self.ravine && y >= self.ravine_bottom()
            ||| y <= self.cave_ceiling() && (self.cheese@[y / 4] || self.tunnel@[y / 3])
        }
    }

    /// The block at height `y` before trees: grass on three blocks of dirt on
    /// stone, with caves, and water up to the sea level.
    pub open spec fn ground(&self, y: int) -> BlockType {
        if 0 <= y < self.height && y < CHUNK_SIZE_Y {
            if self.dug(y) {
                if y <= CAVE_WATER_LEVEL {
                    BlockType::Water(0)
                } else {
                    BlockType::Air
                }
            } else if y == self.height - 1 {
                BlockType::Grass
            } else if y >= self.height - 4 {
                BlockType::Dirt
            } else {
                BlockType::Stone
            }
        } else if self.height <= y < SEA_LEVEL {
            BlockType::Water(0)
        } else {
            BlockType::Air
        }
    }

    /// Whether the block at height `y` is dug out.
    pub fn is_cave(&self, y: i32) -> (r: bool)
        requires
            self.wf(),
            0 <= y < 64,
        ensures
            r == self.dug(y as int),
    {
        if y < FLOOR_BUFFER {
            return false;
        }
        if self.in_ravine(y) {
            return true;
        }
        let buffer: i32 = if self.entrance {
            1
        } else {
            4
        };
        let ceiling: i32 = self.height as i32 - buffer;
        if y > ceiling {
            return false;
        }
        self.cheese[(y / CAVE_BAND_CHEESE) as usize] || self.tunnel[(y / CAVE_BAND_TUNNEL) as usize]
    }

    fn in_ravine(&self, y: i32) -> (r: bool)
        requires
            self.wf(),
        ensures
            r == (self.ravine && y >= self.ravine_bottom()),
    {
        if !self.ravine {
            return false;
        }
        let deep: i32 = self.height as i32 - RAVINE_DEPTH;
        let bottom: i32 = if deep > 2 {
            deep
        } else {
            2
        };
        y >= bottom
    }

    /// Whether a column of this height counts as mountain, where caves open to
    /// the surface more easily.
    pub fn is_mountain(height: usize) -> (r: bool)
        ensures
            r == (height >= MOUNTAIN_HEIGHT),
            r <==> height >= 40,
    {
        height >= MOUNTAIN_HEIGHT
    }
}

/// The lowest height of the band that `wy` lies in: heights of one band share
/// one noise sample.
pub fn banded_y(wy: i32, band: i32) -> (r: i32)
    requires
        band > 0,
        i32::MIN <= (wy as int / band as int) * band,
    ensures
        r == (wy as int / band as int) * band,
        r <= wy < r + band,
{
    proof {
        let q = wy as int / band as int;
        vstd::arithmetic::div_mod::lemma_fundamental_div_mod(wy as int, band as int);
        assert(q * band == band * q) by (nonlinear_arith);
        assert(i32::MIN <= q <= i32::MAX) by (nonlinear_arith)
            requires
                q == wy as int / band as int,
                band > 0,
                i32::MIN <= wy <= i32::MAX,
        ;
    }
    let q: i32 = wy.checked_div_euclid(band).unwrap();
    q * band
}

/// A number that scatters over columns, the same for the same seed and column.
pub open spec fn scatter(seed: u32, x: i32, z: i32) -> u64 {
    let a = (seed as u64).wrapping_mul(0x9E3779B97F4A7C15) ^ (x as i64 as u64).wrapping_mul(
        0xBF58476D1CE4E5B9,
    ) ^ (z as i64 as u64).wrapping_mul(0x94D049BB133111EB);
    let b = (a ^ (a >> 30)).wrapping_mul(0xBF58476D1CE4E5B9);
    let c = (b ^ (b >> 27)).wrapping_mul(0x94D049BB133111EB);
    c ^ (c >> 31)
}

/// Hashes a column.
pub fn hash_xz(seed: u32, x: i32, z: i32) -> (r: u64)
    ensures
        r == scatter(seed, x, z),
{
    let mut h: u64 = (seed as u64).wrapping_mul(0x9E3779B97F4A7C15) ^ (
    x as i64 as u64).wrapping_mul(0xBF58476D1CE4E5B9) ^ (z as i64 as u64).wrapping_mul(
        0x94D049BB133111EB,
    );
    h = h ^ (h >> 30);
    h = h.wrapping_mul(0xBF58476D1CE4E5B9);
    h = h ^ (h >> 27);
    h = h.wrapping_mul(0x94D049BB133111EB);
    h = h ^ (h >> 31);
    h
}

/// How high the trunk of the tree on a column is, if a tree stands there: on
/// dry ground below the world's top, where the surface is not dug out, on a
/// scattered choice of columns.
pub open spec fn tree_height(seed: u32, col: ColumnSample, wx: i32, wz: i32) -> Option<int> {
    if SEA_LEVEL < col.height < CHUNK_SIZE_Y && !col.dug(col.height - 1) && scatter(seed, wx, wz)
        % 1000 < DENSITY_PER_MILLE {
        Some(4 + (scatter(seed ^ 0x5EED_1234, wx, wz) % 3) as int)
    } else {
        None
    }
}

/// A block that a tree would like to put into the world.
pub struct Placement {
    pub x: int,
    pub y: int,
    pub z: int,
    pub block: BlockType,
}

/// The blocks of a tree, trunk first, in the order in which they are put.
pub open spec fn tree_blocks(wx: int, wz: int, base: int, trunk: int) -> Seq<Placement> {
    Seq::new(
        trunk as nat,
        |i: int| Placement { x: wx, y: base + i, z: wz, block: BlockType::Wood },
    ) + Seq::new(
        56,
        |i: int|
            Placement {
                x: wx + CANOPY_OFFSETS@[i].0,
                y: base + trunk - 1 + CANOPY_OFFSETS@[i].1,
                z: wz + CANOPY_OFFSETS@[i].2,
                block: BlockType::Leaves,
            },
    )
}

/// The blocks of the tree on a column, none if there is no tree.
pub open spec fn column_tree(seed: u32, col: ColumnSample, wx: i32, wz: i32) -> Seq<Placement> {
    match tree_height(seed, col, wx, wz) {
        Some(trunk) => tree_blocks(wx as int, wz as int, col.height as int, trunk),
        None => Seq::empty(),
    }
}

/// The world column of the `n`th sample of a chunk: samples run over the chunk
/// and a margin of two columns around it, X outermost.
pub open spec fn sample_x(chunk_x: int, n: int) -> int {
    chunk_x * 16 - 2 + n / 20
}

pub open spec fn sample_z(chunk_z: int, n: int) -> int {
    chunk_z * 16 - 2 + n % 20
}

/// The sample of a chunk's own column.
pub open spec fn sample_index(x: int, z: int) -> int {
    (x + 2) * 20 + (z + 2)
}

/// All tree blocks of the first `n` sampled columns.
pub open spec fn forest(
    seed: u32,
    chunk_x: int,
    chunk_z: int,
    cols: Seq<ColumnSample>,
    n: int,
) -> Seq<Placement>
    decreases n,
{
    if n <= 0 {
        Seq::empty()
    } else {
        forest(seed, chunk_x, chunk_z, cols, n - 1) + column_tree(
            seed,
            cols[n - 1],
            sample_x(chunk_x, n - 1) as i32,
            sample_z(chunk_z, n - 1) as i32,
        )
    }
}

/// What trees put into a free cell: the first block that lands there.
pub open spec fn planted(list: Seq<Placement>, x: int, y: int, z: int) -> Option<BlockType>
    decreases list.len(),
{
    if list.len() == 0 {
        None
    } else {
        let last = list.last();
        match planted(list.drop_last(), x, y, z) {
            Some(block) => Some(block),
            None => if last.x == x && last.y == y && last.z == z {
                Some(last.block)
            } else {
                None
            },
        }
    }
}

/// Ground with trees on it: ground stays, and free cells take what lands first.
pub open spec fn grown(ground: BlockType, list: Seq<Placement>, x: int, y: int, z: int) -> BlockType {
    if ground != BlockType::Air {
        ground
    } else {
        match planted(list, x, y, z) {
            Some(block) => block,
            None => BlockType::Air,
        }
    }
}

/// The block of a generated chunk at local coordinates.
pub open spec fn generated(
    seed: u32,
    chunk_x: int,
    chunk_z: int,
    cols: Seq<ColumnSample>,
    x: int,
    y: int,
    z: int,
) -> BlockType {
    grown(
        cols[sample_index(x, z)].ground(y),
        forest(seed, chunk_x, chunk_z, cols, 400),
        chunk_x * 16 + x,
        y,
        chunk_z * 16 + z,
    )
}

/// Grows the terrain of a world.
pub struct WorldGenerator {
    seed: u32,
}

impl WorldGenerator {
    pub closed spec fn world_seed(&self) -> u32 {
        self.seed
    }

    pub fn new(seed: u32) -> (r: Self)
        ensures
            r.world_seed() == seed,
    {
        WorldGenerator { seed }
    }

    /// The seed of the world, which also seeds the height noise.
    pub fn seed(&self) -> (r: u32)
        ensures
            r == self.world_seed(),
    {
        self.seed
    }

    /// The seed of the cave noise.
    pub fn cave_seed(&self) -> (r: u32)
        ensures
            r == self.world_seed() ^ 0xCAFE_F00D,
    {
        self.seed ^ 0xCAFE_F00D
    }

    /// The height of the trunk of the tree on a column, if one stands there.
    fn tree_at(&self, col: &ColumnSample, wx: i32, wz: i32) -> (r: Option<i32>)
        requires
            col.wf(),
        ensures
            r is Some <==> tree_height(self.world_seed(), *col, wx, wz) is Some,
            r matches Some(h) ==> tree_height(self.world_seed(), *col, wx, wz) == Some(h as int)
                && 4 <= h <= 6,
    {
        if col.height == 0 || col.height >= CHUNK_SIZE_Y {
            return None;
        }
        if col.height <= SEA_LEVEL {
            return None;
        }
        if col.is_cave(col.height as i32 - 1) {
            return None;
        }
        if hash_xz(self.seed, wx, wz) % 1000 >= DENSITY_PER_MILLE {
            return None;
        }
        let h2: u64 = hash_xz(self.seed ^ 0x5EED_1234, wx, wz);
        Some(4 + (h2 % 3) as i32)
    }

    /// Puts a tree block into a chunk, if the cell lies in the chunk and is free.
    fn place(
        chunk: &mut Chunk,
        origin_x: i32,
        origin_z: i32,
        wx: i32,
        wy: i32,
        wz: i32,
        block: BlockType,
    )
        requires
            old(chunk).wf(),
            i32::MIN <= wx - origin_x <= i32::MAX,
            i32::MIN <= wz - origin_z <= i32::MAX,
        ensures
            final(chunk).wf(),
            forall|x: int, y: int, z: int|
                in_chunk(x, y, z) ==> #[trigger] final(chunk).at(x, y, z) == if origin_x + x == wx
                    && y == wy && origin_z + z == wz && old(chunk).at(x, y, z) == BlockType::Air {
                    block
                } else {
                    old(chunk).at(x, y, z)
                },
    {
        let local_x: i32 = wx - origin_x;
        let local_z: i32 = wz - origin_z;
        if local_x < 0 || local_x >= CHUNK_SIZE_X as i32 || local_z < 0 || local_z
            >= CHUNK_SIZE_Z as i32 || wy < 0 || wy >= CHUNK_SIZE_Y as i32 {
            return;
        }
        if chunk.get(local_x, wy, local_z) == BlockType::Air {
            proof {
                lemma_cell_index_in_range();
                assert(in_chunk(local_x as int, wy as int, local_z as int));
            }
            chunk.set(local_x as usize, wy as usize, local_z as usize, block);
            proof {
                law_get_after_set(
                    *old(chunk),
                    *chunk,
                    local_x as int,
                    wy as int,
                    local_z as int,
                    block,
                );
            }
        }
    }
}

/// The chunk holds the ground with the listed tree blocks on it.
spec fn chunk_grown(
    chunk: &Chunk,
    ground: &Chunk,
    origin_x: int,
    origin_z: int,
    list: Seq<Placement>,
) -> bool {
    &&& chunk.wf()
    &&& forall|x: int, y: int, z: int|
        in_chunk(x, y, z) ==> #[trigger] chunk.at(x, y, z) == grown(
            ground.at(x, y, z),
            list,
            origin_x + x,
            y,
            origin_z + z,
        )
}

proof fn lemma_grown_push(
    before: &Chunk,
    after: &Chunk,
    ground: &Chunk,
    origin_x: int,
    origin_z: int,
    list: Seq<Placement>,
    p: Placement,
)
    requires
        chunk_grown(before, ground, origin_x, origin_z, list),
        p.block != BlockType::Air,
        forall|k: int| 0 <= k < list.len() ==> (#[trigger] list[k]).block != BlockType::Air,
        after.wf(),
        forall|x: int, y: int, z: int|
            in_chunk(x, y, z) ==> #[trigger] after.at(x, y, z) == if origin_x + x == p.x && y == p.y
                && origin_z + z == p.z && before.at(x, y, z) == BlockType::Air {
                p.block
            } else {
                before.at(x, y, z)
            },
    ensures
        chunk_grown(after, ground, origin_x, origin_z, list.push(p)),
{
    let more = list.push(p);
    assert(more.drop_last() =~= list);
    assert forall|x: int, y: int, z: int| in_chunk(x, y, z) implies #[trigger] after.at(x, y, z)
        == grown(ground.at(x, y, z), more, origin_x + x, y, origin_z + z) by {
        lemma_planted_is_solid(list, origin_x + x, y, origin_z + z);
        assert(before.at(x, y, z) == grown(
            ground.at(x, y, z),
            list,
            origin_x + x,
            y,
            origin_z + z,
        ));
    }
}

proof fn lemma_planted_is_solid(list: Seq<Placement>, x: int, y: int, z: int)
    requires
        forall|k: int| 0 <= k < list.len() ==> (#[trigger] list[k]).block != BlockType::Air,
    ensures
        planted(list, x, y, z) != Some(BlockType::Air),
    decreases list.len(),
{
    if list.len() > 0 {
        let init = list.drop_last();
        assert forall|k: int| 0 <= k < init.len() implies (#[trigger] init[k]).block
            != BlockType::Air by {
            assert(init[k] == list[k]);
        }
        lemma_planted_is_solid(init, x, y, z);
    }
}

spec fn all_solid(list: Seq<Placement>) -> bool {
    forall|k: int| 0 <= k < list.len() ==> (#[trigger] list[k]).block != BlockType::Air
}

/// Leaves stay within two columns of the trunk and between two blocks below
/// and one above its top.
pub proof fn law_canopy_stays_near_the_trunk(i: int)
    requires
        0 <= i < 56,
    ensures
        -2 <= CANOPY_OFFSETS@[i].0 <= 2,
        -2 <= CANOPY_OFFSETS@[i].1 <= 1,
        -2 <= CANOPY_OFFSETS@[i].2 <= 2,
{
}

impl WorldGenerator {
    /// Puts a tree into a chunk, trunk first; what falls outside the chunk is
    /// left to the neighbour, and nothing but air is replaced.
    fn stamp_tree(
        chunk: &mut Chunk,
        origin_x: i32,
        origin_z: i32,
        wx: i32,
        wz: i32,
        base_y: i32,
        trunk: i32,
        Ghost(ground): Ghost<&Chunk>,
        Ghost(list): Ghost<Seq<Placement>>,
    )
        requires
            chunk_grown(old(chunk), ground, origin_x as int, origin_z as int, list),
            all_solid(list),
            4 <= trunk <= 6,
            0 <= base_y < 64,
            -2 <= wx - origin_x <= 17,
            -2 <= wz - origin_z <= 17,
            i32::MIN + 4 <= origin_x <= i32::MAX - 20,
            i32::MIN + 4 <= origin_z <= i32::MAX - 20,
        ensures
            chunk_grown(
                final(chunk),
                ground,
                origin_x as int,
                origin_z as int,
                list + tree_blocks(wx as int, wz as int, base_y as int, trunk as int),
            ),
            all_solid(list + tree_blocks(wx as int, wz as int, base_y as int, trunk as int)),
    {
        let ghost tree = tree_blocks(wx as int, wz as int, base_y as int, trunk as int);
        let top_y: i32 = base_y + trunk - 1;
        let mut y: i32 = base_y;
        assert(list + tree.take(0) =~= list);
        while y <= top_y
            invariant
                4 <= trunk <= 6,
                0 <= base_y < 64,
                top_y == base_y + trunk - 1,
                base_y <= y <= top_y + 1,
                -2 <= wx - origin_x <= 17,
                -2 <= wz - origin_z <= 17,
                tree == tree_blocks(wx as int, wz as int, base_y as int, trunk as int),
                chunk_grown(
                    chunk,
                    ground,
                    origin_x as int,
                    origin_z as int,
                    list + tree.take(y - base_y),
                ),
                all_solid(list + tree.take(y - base_y)),
            decreases top_y + 1 - y,
        {
            let ghost before = *chunk;
            let ghost done = list + tree.take(y - base_y);
            let ghost p = tree[y - base_y];
            Self::place(chunk, origin_x, origin_z, wx, y, wz, BlockType::Wood);
            proof {
                lemma_grown_push(
                    &before,
                    chunk,
                    ground,
                    origin_x as int,
                    origin_z as int,
                    done,
                    p,
                );
                assert(done.push(p) =~= list + tree.take(y + 1 - base_y));
            }
            y = y + 1;
        }
        let mut i: usize = 0;
        while i < 56
            invariant
                i <= 56,
                4 <= trunk <= 6,
                0 <= base_y < 64,
                top_y == base_y + trunk - 1,
                -2 <= wx - origin_x <= 17,
                -2 <= wz - origin_z <= 17,
                i32::MIN + 4 <= origin_x <= i32::MAX - 20,
                i32::MIN + 4 <= origin_z <= i32::MAX - 20,
                tree == tree_blocks(wx as int, wz as int, base_y as int, trunk as int),
                chunk_grown(
                    chunk,
                    ground,
                    origin_x as int,
                    origin_z as int,
                    list + tree.take(trunk + i),
                ),
                all_solid(list + tree.take(trunk + i)),
            decreases 56 - i,
        {
            let ghost before = *chunk;
            let ghost done = list + tree.take(trunk + i);
            let ghost p = tree[trunk + i];
            proof {
                law_canopy_stays_near_the_trunk(i as int);
            }
            let (dx, dy, dz) = CANOPY_OFFSETS[i];
            Self::place(
                chunk,
                origin_x,
                origin_z,
                wx + dx,
                top_y + dy,
                wz + dz,
                BlockType::Leaves,
            );
            proof {
                lemma_grown_push(
                    &before,
                    chunk,
                    ground,
                    origin_x as int,
                    origin_z as int,
                    done,
                    p,
                );
                assert(done.push(p) =~= list + tree.take(trunk + i + 1));
            }
            i = i + 1;
        }
        assert(tree.take(trunk + 56) =~= tree);
    }

    /// Fills a column of an empty chunk with its ground.
    fn fill_column(chunk: &mut Chunk, x: usize, z: usize, col: &ColumnSample)
        requires
            old(chunk).wf(),
            col.wf(),
            x < 16,
            z < 16,
            forall|y: int| #[trigger] old(chunk).at(x as int, y, z as int) == BlockType::Air,
        ensures
            final(chunk).wf(),
            forall|a: int, y: int, c: int|
                in_chunk(a, y, c) ==> #[trigger] final(chunk).at(a, y, c) == if a == x && c == z {
                    col.ground(y)
                } else {
                    old(chunk).at(a, y, c)
                },
    {
        let top: usize = if col.height < CHUNK_SIZE_Y {
            col.height
        } else {
            CHUNK_SIZE_Y
        };
        let mut y: usize = 0;
        while y < top
            invariant
                col.wf(),
                x < 16,
                z < 16,
                y <= top,
                top <= col.height,
                top <= 64,
                chunk.wf(),
                forall|a: int, b: int, c: int|
                    in_chunk(a, b, c) ==> #[trigger] chunk.at(a, b, c) == if a == x && c == z {
                        if b < y {
                            col.ground(b)
                        } else {
                            BlockType::Air
                        }
                    } else {
                        old(chunk).at(a, b, c)
                    },
            decreases top - y,
        {
            let ghost before = *chunk;
            proof {
                lemma_cell_index_in_range();
                assert(in_chunk(x as int, y as int, z as int));
            }
            let block: BlockType = if col.is_cave(y as i32) {
                if (y as i32) <= CAVE_WATER_LEVEL {
                    BlockType::Water(0)
                } else {
                    BlockType::Air
                }
            } else if y == col.height - 1 {
                BlockType::Grass
            } else if y >= col.height.saturating_sub(4) {
                BlockType::Dirt
            } else {
                BlockType::Stone
            };
            chunk.set(x, y, z, block);
            proof {
                law_get_after_set(before, *chunk, x as int, y as int, z as int, block);
            }
            y = y + 1;
        }
        if col.height < SEA_LEVEL {
            while y < SEA_LEVEL
                invariant
                    col.wf(),
                    x < 16,
                    z < 16,
                    col.height <= y <= 16,
                    chunk.wf(),
                    forall|a: int, b: int, c: int|
                        in_chunk(a, b, c) ==> #[trigger] chunk.at(a, b, c) == if a == x && c == z {
                            if b < y {
                                col.ground(b)
                            } else {
                                BlockType::Air
                            }
                        } else {
                            old(chunk).at(a, b, c)
                        },
                decreases 16 - y,
            {
                let ghost before = *chunk;
                proof {
                    lemma_cell_index_in_range();
                    assert(in_chunk(x as int, y as int, z as int));
                }
                chunk.set(x, y, z, BlockType::Water(0));
                proof {
                    law_get_after_set(
                        before,
                        *chunk,
                        x as int,
                        y as int,
                        z as int,
                        BlockType::Water(0),
                    );
                }
                y = y + 1;
            }
        }
    }

    /// The ground of a chunk, without trees.
    fn fill_ground(cols: &Vec<ColumnSample>) -> (chunk: Chunk)
        requires
            cols@.len() == 400,
            forall|n: int| 0 <= n < 400 ==> (#[trigger] cols@[n]).wf(),
        ensures
            chunk.wf(),
            forall|x: int, y: int, z: int|
                in_chunk(x, y, z) ==> #[trigger] chunk.at(x, y, z) == cols@[sample_index(
                    x,
                    z,
                )].ground(y),
    {
        let mut chunk = Chunk::empty();
        let mut x: usize = 0;
        while x < CHUNK_SIZE_X
            invariant
                x <= 16,
                cols@.len() == 400,
                forall|n: int| 0 <= n < 400 ==> (#[trigger] cols@[n]).wf(),
                chunk.wf(),
                forall|a: int, y: int, c: int|
                    in_chunk(a, y, c) ==> #[trigger] chunk.at(a, y, c) == if a < x {
                        cols@[sample_index(a, c)].ground(y)
                    } else {
                        BlockType::Air
                    },
            decreases 16 - x,
        {
            let mut z: usize = 0;
            while z < CHUNK_SIZE_Z
                invariant
                    x < 16,
                    z <= 16,
                    cols@.len() == 400,
                    forall|n: int| 0 <= n < 400 ==> (#[trigger] cols@[n]).wf(),
                    chunk.wf(),
                    forall|a: int, y: int, c: int|
                        in_chunk(a, y, c) ==> #[trigger] chunk.at(a, y, c) == if a < x || a == x
                            && c < z {
                            cols@[sample_index(a, c)].ground(y)
                        } else {
                            BlockType::Air
                        },
                decreases 16 - z,
            {
                let n: usize = (x + 2) * SAMPLED_SIDE + (z + 2);
                assert(n == sample_index(x as int, z as int));
                assert(cols@[n as int].wf());
                Self::fill_column(&mut chunk, x, z, &cols[n]);
                z = z + 1;
            }
            x = x + 1;
        }
        chunk
    }

    /// Generates a chunk from the samples of its columns and of the two columns
    /// around it on every side, X outermost: the ground, and on it the trees of
    /// all sampled columns.
    pub fn generate_chunk(&self, chunk_x: i32, chunk_z: i32, cols: &Vec<ColumnSample>) -> (chunk:
        Chunk)
        requires
            -0x7ff_ffff <= chunk_x < 0x7ff_fffe,
            -0x7ff_ffff <= chunk_z < 0x7ff_fffe,
            cols@.len() == 400,
            forall|n: int| 0 <= n < 400 ==> (#[trigger] cols@[n]).wf(),
        ensures
            chunk.wf(),
            forall|x: int, y: int, z: int|
                in_chunk(x, y, z) ==> #[trigger] chunk.at(x, y, z) == generated(
                    self.world_seed(),
                    chunk_x as int,
                    chunk_z as int,
                    cols@,
                    x,
                    y,
                    z,
                ),
    {
        let origin_x: i32 = chunk_x * CHUNK_SIZE_X as i32;
        let origin_z: i32 = chunk_z * CHUNK_SIZE_Z as i32;
        let mut chunk = Self::fill_ground(cols);
        let ghost ground = chunk;
        let ghost seed = self.world_seed();
        let mut n: usize = 0;
        while n < 400
            invariant
                n <= 400,
                -0x7ff_ffff <= chunk_x < 0x7ff_fffe,
                -0x7ff_ffff <= chunk_z < 0x7ff_fffe,
                origin_x == chunk_x * 16,
                origin_z == chunk_z * 16,
                cols@.len() == 400,
                forall|k: int| 0 <= k < 400 ==> (#[trigger] cols@[k]).wf(),
                seed == self.world_seed(),
                chunk_grown(
                    &chunk,
                    &ground,
                    origin_x as int,
                    origin_z as int,
                    forest(seed, chunk_x as int, chunk_z as int, cols@, n as int),
                ),
                all_solid(forest(seed, chunk_x as int, chunk_z as int, cols@, n as int)),
            decreases 400 - n,
        {
            let wx: i32 = origin_x - TREE_MARGIN + (n / SAMPLED_SIDE) as i32;
            let wz: i32 = origin_z - TREE_MARGIN + (n % SAMPLED_SIDE) as i32;
            let ghost list = forest(seed, chunk_x as int, chunk_z as int, cols@, n as int);
            assert(cols@[n as int].wf());
            assert(wx == sample_x(chunk_x as int, n as int));
            assert(wz == sample_z(chunk_z as int, n as int));
            let tree = self.tree_at(&cols[n], wx, wz);
            match tree {
                Some(trunk) => {
                    let base_y: i32 = cols[n].height as i32;
                    Self::stamp_tree(
                        &mut chunk,
                        origin_x,
                        origin_z,
                        wx,
                        wz,
                        base_y,
                        trunk,
                        Ghost(&ground),
                        Ghost(list),
                    );
                },
                None => {
                    assert(list + Seq::<Placement>::empty() =~= list);
                },
            }
            n = n + 1;
        }
        chunk
    }
}

/// Trees never replace ground or water: where the ground is not air it stays.
pub proof fn law_trees_keep_the_ground(
    seed: u32,
    chunk_x: int,
    chunk_z: int,
    cols: Seq<ColumnSample>,
    x: int,
    y: int,
    z: int,
)
    ensures
        cols[sample_index(x, z)].ground(y) != BlockType::Air ==> generated(
            seed,
            chunk_x,
            chunk_z,
            cols,
            x,
            y,
            z,
        ) == cols[sample_index(x, z)].ground(y),
{
}

/// Every tree that reaches into a chunk stands on one of its sampled columns,
/// so that neighbouring chunks draw the two halves of the same tree.
pub proof fn law_trees_that_reach_a_chunk_are_sampled(
    seed: u32,
    col: ColumnSample,
    wx: i32,
    wz: i32,
    k: int,
    chunk_x: int,
    chunk_z: int,
)
    requires
        0 <= k < column_tree(seed, col, wx, wz).len(),
        chunk_x * 16 <= column_tree(seed, col, wx, wz)[k].x < chunk_x * 16 + 16,
        chunk_z * 16 <= column_tree(seed, col, wx, wz)[k].z < chunk_z * 16 + 16,
    ensures
        exists|n: int|
            0 <= n < 400 && #[trigger] sample_x(chunk_x, n) == wx && sample_z(chunk_z, n) == wz,
{
    let trunk = tree_height(seed, col, wx, wz).unwrap();
    if k >= trunk {
        law_canopy_stays_near_the_trunk(k - trunk);
    }
    let a = wx - chunk_x * 16 + 2;
    let b = wz - chunk_z * 16 + 2;
    let n = a * 20 + b;
    assert(0 <= a < 20 && 0 <= b < 20);
    assert(n / 20 == a && n % 20 == b);
    assert(sample_x(chunk_x, n) == wx);
}

/// The floor of the world is never dug out, caves are flooded up to their water
/// level, and below the sea level nothing above the ground is dry.
pub proof fn law_ground_holds_its_water(col: ColumnSample, y: int)
    requires
        col.wf(),
        0 <= y < CHUNK_SIZE_Y,
    ensures
        y < FLOOR_BUFFER ==> !col.dug(y),
        y <= CAVE_WATER_LEVEL ==> col.ground(y) != BlockType::Air,
        col.height <= y < SEA_LEVEL ==> col.ground(y) == BlockType::Water(0),
        col.height <= y && y >= SEA_LEVEL ==> col.ground(y) == BlockType::Air,
{
}

/// Caves never cut through the floor of the world: where a column is high enough
/// to have stone under its soil there, the two lowest layers of the generated
/// chunk are stone.
pub proof fn law_floor_is_stone(
    seed: u32,
    chunk_x: int,
    chunk_z: int,
    cols: Seq<ColumnSample>,
    x: int,
    y: int,
    z: int,
)
    requires
        cols[sample_index(x, z)].height >= 6,
        0 <= y < FLOOR_BUFFER,
    ensures
        generated(seed, chunk_x, chunk_z, cols, x, y, z) == BlockType::Stone,
{
}

/// Trees are made of wood and leaves.
proof fn lemma_trees_are_wood_and_leaves(
    seed: u32,
    chunk_x: int,
    chunk_z: int,
    cols: Seq<ColumnSample>,
    n: int,
)
    ensures
        forall|k: int|
            0 <= k < forest(seed, chunk_x, chunk_z, cols, n).len() ==> (#[trigger] forest(
                seed,
                chunk_x,
                chunk_z,
                cols,
                n,
            )[k]).block == BlockType::Wood || forest(seed, chunk_x, chunk_z, cols, n)[k].block
                == BlockType::Leaves,
    decreases n,
{
    if n > 0 {
        lemma_trees_are_wood_and_leaves(seed, chunk_x, chunk_z, cols, n - 1);
    }
}

proof fn lemma_planted_is_listed(list: Seq<Placement>, x: int, y: int, z: int)
    ensures
        planted(list, x, y, z) matches Some(block) ==> exists|k: int|
            0 <= k < list.len() && (#[trigger] list[k]).block == block,
    decreases list.len(),
{
    if list.len() > 0 {
        lemma_planted_is_listed(list.drop_last(), x, y, z);
        if let Some(block) = planted(list.drop_last(), x, y, z) {
            let k = choose|k: int|
                0 <= k < list.drop_last().len() && (#[trigger] list.drop_last()[k]).block == block;
            assert(list[k].block == block);
        } else {
            assert(list[list.len() - 1] == list.last());
        }
    }
}

/// All water of a generated chunk is full: nothing of it is on the move. There
/// are no sponges.
pub proof fn law_generated_water_is_full(
    seed: u32,
    chunk_x: int,
    chunk_z: int,
    cols: Seq<ColumnSample>,
    x: int,
    y: int,
    z: int,
)
    ensures
        generated(seed, chunk_x, chunk_z, cols, x, y, z) matches BlockType::Water(level)
            ==> level == 0,
        generated(seed, chunk_x, chunk_z, cols, x, y, z) != BlockType::Sponge,
{
    let trees = forest(seed, chunk_x, chunk_z, cols, 400);
    lemma_trees_are_wood_and_leaves(seed, chunk_x, chunk_z, cols, 400);
    lemma_planted_is_listed(trees, chunk_x * 16 + x, y, chunk_z * 16 + z);
}

/// The height is above the floor of the world and under the cover that caves
/// leave over them: the ground down to the fourth block, at an entrance only the
/// topmost.
pub open spec fn under_cover(col: ColumnSample, y: int) -> bool {
    2 <= y && (y <= col.height - 4 || col.entrance && y <= col.height - 1)
}

/// A cavern band opens the four heights that it stands for and a tunnel band the
/// three that it stands for, as far as they are under cover.
pub proof fn law_bands_open_their_heights(col: ColumnSample, band: int, y: int)
    requires
        col.wf(),
        under_cover(col, y),
        y < 64,
    ensures
        0 <= band < 16 && col.cheese@[band] && 4 * band <= y <= 4 * band + 3 ==> col.dug(y),
        0 <= band < 22 && col.tunnel@[band] && 3 * band <= y <= 3 * band + 2 ==> col.dug(y),
{
}

/// Outside a ravine only bands dig: whatever is open lies under cover and in a
/// cavern or a tunnel band that is set.
pub proof fn law_only_bands_open_the_ground(col: ColumnSample, y: int)
    requires
        col.wf(),
        !col.ravine,
        col.dug(y),
        y < 64,
    ensures
        under_cover(col, y),
        (exists|band: int|
            0 <= band < 16 && #[trigger] col.cheese@[band] && 4 * band <= y <= 4 * band + 3) || (
        exists|band: int|
            0 <= band < 22 && #[trigger] col.tunnel@[band] && 3 * band <= y <= 3 * band + 2),
{
    if col.cheese@[y / 4] {
        assert(4 * (y / 4) <= y <= 4 * (y / 4) + 3);
    } else {
        assert(col.tunnel@[y / 3]);
        assert(3 * (y / 3) <= y <= 3 * (y / 3) + 2);
    }
}

/// A ravine is open to the sky: from twenty blocks under the surface, but not
/// through the floor of the world, everything up to the surface is gone. Below
/// that it opens nothing.
pub proof fn law_ravines_are_open_to_the_sky(col: ColumnSample, y: int)
    requires
        col.wf(),
        col.ravine,
        0 <= y < 64,
        forall|k: int| 0 <= k < 16 ==> !#[trigger] col.cheese@[k],
        forall|k: int| 0 <= k < 22 ==> !#[trigger] col.tunnel@[k],
    ensures
        col.dug(y) <==> y >= 2 && y >= col.height - 20,
{
}

/// A column from the bottom up, where nothing is dug: stone, three blocks of
/// dirt, grass, then water up to height 15 and air. Where it is dug there is
/// water up to height 10 and air above.
pub proof fn law_columns_are_layered(col: ColumnSample, y: int)
    requires
        0 <= y < 64,
    ensures
        y < col.height && !col.dug(y) ==> {
            &&& y + 1 == col.height ==> col.ground(y) == BlockType::Grass
            &&& y + 1 < col.height <= y + 4 ==> col.ground(y) == BlockType::Dirt
            &&& y + 4 < col.height ==> col.ground(y) == BlockType::Stone
        },
        y < col.height && col.dug(y) ==> col.ground(y) == if y <= 10 {
            BlockType::Water(0)
        } else {
            BlockType::Air
        },
        col.height <= y ==> col.ground(y) == if y < 16 {
            BlockType::Water(0)
        } else {
            BlockType::Air
        },
{
}

/// Each column of a chunk is generated from the sample that was taken at its own
/// place in the world.
pub proof fn law_columns_lie_where_they_were_sampled(chunk_x: int, chunk_z: int, x: int, z: int)
    requires
        0 <= x < 16,
        0 <= z < 16,
    ensures
        0 <= sample_index(x, z) < 400,
        sample_x(chunk_x, sample_index(x, z)) == chunk_x * 16 + x,
        sample_z(chunk_z, sample_index(x, z)) == chunk_z * 16 + z,
{
    let n = sample_index(x, z);
    assert(n / 20 == x + 2 && n % 20 == z + 2);
}

/// Trees stand on grass above the sea and below the top of the world, on the
/// columns that the scatter picks, 25 in a thousand. A trunk is four to six
/// blocks high.
pub proof fn law_trees_stand_on_dry_grass(seed: u32, col: ColumnSample, wx: i32, wz: i32)
    ensures
        tree_height(seed, col, wx, wz) is Some <==> {
            &&& 16 < col.height < 64
            &&& col.ground(col.height - 1) == BlockType::Grass
            &&& scatter(seed, wx, wz) % 1000 < 25
        },
        tree_height(seed, col, wx, wz) matches Some(t) ==> 4 <= t <= 6 && t == 4 + scatter(
            seed ^ 0x5EED_1234,
            wx,
            wz,
        ) % 3,
{
}

/// Where the leaves of a tree are, seen from the top of its trunk: two layers of
/// five by five without their corners below it, three by three around it, and a
/// cross above it.
pub open spec fn in_canopy(dx: int, dy: int, dz: int) -> bool {
    ||| (dy == -2 || dy == -1) && -2 <= dx <= 2 && -2 <= dz <= 2 && !((dx == 2 || dx == -2) && (dz
        == 2 || dz == -2))
    ||| dy == 0 && -1 <= dx <= 1 && -1 <= dz <= 1
    ||| dy == 1 && (dx == 0 && -1 <= dz <= 1 || dz == 0 && -1 <= dx <= 1)
}

spec fn canopy_place(dx: int, dy: int, dz: int) -> int {
    if dy == 0 {
        46 + 3 * dx + dz
    } else if dy == 1 {
        if dx == 1 {
            52
        } else if dx == -1 {
            53
        } else if dz == 1 {
            54
        } else if dz == -1 {
            55
        } else {
            51
        }
    } else {
        (if dy == -1 {
            21int
        } else {
            0int
        }) + if dx == -2 {
            1 + dz
        } else if dx == 2 {
            19 + dz
        } else {
            10 + 5 * dx + dz
        }
    }
}

/// A tree consists of its trunk, one block of wood on another from the ground
/// up, and of its crown of leaves, which has the same shape for every tree.
pub proof fn law_trees_have_trunk_and_crown(
    wx: int,
    wz: int,
    base: int,
    trunk: int,
    x: int,
    y: int,
    z: int,
)
    requires
        4 <= trunk <= 6,
    ensures
        ({
            let tree = tree_blocks(wx, wz, base, trunk);
            let wood = Placement { x, y, z, block: BlockType::Wood };
            let leaf = Placement { x, y, z, block: BlockType::Leaves };
            &&& tree.contains(wood) <==> x == wx && z == wz && base <= y < base + trunk
            &&& tree.contains(leaf) <==> in_canopy(x - wx, y - (base + trunk - 1), z - wz)
        }),
{
    let tree = tree_blocks(wx, wz, base, trunk);
    let wood = Placement { x, y, z, block: BlockType::Wood };
    let leaf = Placement { x, y, z, block: BlockType::Leaves };
    let (dx, dy, dz) = (x - wx, y - (base + trunk - 1), z - wz);
    if x == wx && z == wz && base <= y < base + trunk {
        assert(tree[y - base] == wood);
    }
    if tree.contains(wood) {
        let k = choose|k: int| 0 <= k < tree.len() && tree[k] == wood;
        assert(k < trunk);
    }
    if in_canopy(dx, dy, dz) {
        let k = canopy_place(dx, dy, dz);
        assert(0 <= k < 56);
        assert(CANOPY_OFFSETS@[k] == (dx as i32, dy as i32, dz as i32));
        assert(tree[trunk + k] == leaf);
    }
    if tree.contains(leaf) {
        let k = choose|k: int| 0 <= k < tree.len() && tree[k] == leaf;
        assert(k >= trunk);
        let c = CANOPY_OFFSETS@[k - trunk];
        assert(in_canopy(c.0 as int, c.1 as int, c.2 as int));
    }
}

/// A cell takes the block that lands there first, and none where no block lands.
pub proof fn law_first_tree_block_stays(list: Seq<Placement>, x: int, y: int, z: int)
    ensures
        planted(list, x, y, z) is None <==> forall|k: int|
            0 <= k < list.len() ==> !((#[trigger] list[k]).x == x && list[k].y == y && list[k].z
                == z),
        planted(list, x, y, z) matches Some(block) ==> exists|k: int|
            0 <= k < list.len() && (#[trigger] list[k]).block == block && list[k].x == x
                && list[k].y == y && list[k].z == z && forall|j: int|
                0 <= j < k ==> !((#[trigger] list[j]).x == x && list[j].y == y && list[j].z == z),
    decreases list.len(),
{
    if list.len() > 0 {
        let init = list.drop_last();
        law_first_tree_block_stays(init, x, y, z);
        if let Some(block) = planted(init, x, y, z) {
            let k = choose|k: int|
                0 <= k < init.len() && (#[trigger] init[k]).block == block && init[k].x == x
                    && init[k].y == y && init[k].z == z && forall|j: int|
                    0 <= j < k ==> !((#[trigger] init[j]).x == x && init[j].y == y && init[j].z
                        == z);
            assert(list[k] == init[k]);
            assert forall|j: int| 0 <= j < k implies !((#[trigger] list[j]).x == x && list[j].y == y
                && list[j].z == z) by {
                assert(init[j] == list[j]);
            }
        } else {
            assert forall|j: int| 0 <= j < init.len() implies !((#[trigger] list[j]).x == x
                && list[j].y == y && list[j].z == z) by {
                assert(init[j] == list[j]);
            }
            assert(list[list.len() - 1] == list.last());
        }
    }
}

/// The forest of a chunk is made of the trees of its sampled columns.
pub proof fn law_forest_holds_every_tree(
    seed: u32,
    chunk_x: int,
    chunk_z: int,
    cols: Seq<ColumnSample>,
    n: int,
    c: int,
    k: int,
)
    requires
        0 <= c < n,
        0 <= k < column_tree(
            seed,
            cols[c],
            sample_x(chunk_x, c) as i32,
            sample_z(chunk_z, c) as i32,
        ).len(),
    ensures
        forest(seed, chunk_x, chunk_z, cols, n).contains(
            column_tree(
                seed,
                cols[c],
                sample_x(chunk_x, c) as i32,
                sample_z(chunk_z, c) as i32,
            )[k],
        ),
    decreases n,
{
    let front = forest(seed, chunk_x, chunk_z, cols, n - 1);
    let tree = column_tree(
        seed,
        cols[c],
        sample_x(chunk_x, c) as i32,
        sample_z(chunk_z, c) as i32,
    );
    let all = forest(seed, chunk_x, chunk_z, cols, n);
    if c == n - 1 {
        assert(all[front.len() + k] == tree[k]);
    } else {
        law_forest_holds_every_tree(seed, chunk_x, chunk_z, cols, n - 1, c, k);
        let i = choose|i: int| 0 <= i < front.len() && front[i] == tree[k];
        assert(all[i] == tree[k]);
    }
}

/// A tree stands in the generated chunk: none of the free cells that its trunk
/// and its crown take is left empty.
pub proof fn law_trees_fill_their_cells(
    seed: u32,
    chunk_x: int,
    chunk_z: int,
    cols: Seq<ColumnSample>,
    c: int,
    x: int,
    y: int,
    z: int,
)
    requires
        0 <= c < 400,
        in_world_column(chunk_x, chunk_z, c),
        tree_height(
            seed,
            cols[c],
            sample_x(chunk_x, c) as i32,
            sample_z(chunk_z, c) as i32,
        ) is Some,
        ({
            let trunk = tree_height(
                seed,
                cols[c],
                sample_x(chunk_x, c) as i32,
                sample_z(chunk_z, c) as i32,
            )->0;
            let dx = chunk_x * 16 + x - sample_x(chunk_x, c);
            let dz = chunk_z * 16 + z - sample_z(chunk_z, c);
            ||| dx == 0 && dz == 0 && cols[c].height <= y < cols[c].height + trunk
            ||| in_canopy(dx, y - (cols[c].height + trunk - 1), dz)
        }),
    ensures
        generated(seed, chunk_x, chunk_z, cols, x, y, z) != BlockType::Air,
{
    let wx = sample_x(chunk_x, c) as i32;
    let wz = sample_z(chunk_z, c) as i32;
    let trunk = tree_height(seed, cols[c], wx, wz)->0;
    let tree = column_tree(seed, cols[c], wx, wz);
    let (px, pz) = (chunk_x * 16 + x, chunk_z * 16 + z);
    law_trees_have_trunk_and_crown(
        wx as int,
        wz as int,
        cols[c].height as int,
        trunk,
        px,
        y,
        pz,
    );
    let wood = Placement { x: px, y, z: pz, block: BlockType::Wood };
    let leaf = Placement { x: px, y, z: pz, block: BlockType::Leaves };
    let block = if tree.contains(wood) {
        wood
    } else {
        leaf
    };
    let k = choose|k: int| 0 <= k < tree.len() && tree[k] == block;
    law_forest_holds_every_tree(seed, chunk_x, chunk_z, cols, 400, c, k);
    let all = forest(seed, chunk_x, chunk_z, cols, 400);
    let i = choose|i: int| 0 <= i < all.len() && all[i] == block;
    law_first_tree_block_stays(all, px, y, pz);
    assert(planted(all, px, y, pz) is Some) by {
        assert(all[i].x == px && all[i].y == y && all[i].z == pz);
    }
    lemma_trees_are_wood_and_leaves(seed, chunk_x, chunk_z, cols, 400);
}

/// The column of a sample has coordinates in the world.
pub open spec fn in_world_column(chunk_x: int, chunk_z: int, c: int) -> bool {
    i32::MIN <= sample_x(chunk_x, c) <= i32::MAX && i32::MIN <= sample_z(chunk_z, c) <= i32::MAX
}

} // verus!
