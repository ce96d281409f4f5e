//! Block types and the fixed-size chunk of blocks that the world is made of.
use vstd::prelude::*;

verus! {

pub const CHUNK_SIZE_X: usize = 16;

pub const CHUNK_SIZE_Y: usize = 64;

pub const CHUNK_SIZE_Z: usize = 16;

/// Number of blocks in a chunk.
pub const CHUNK_VOLUME: usize = 16384;

/// What fills one cell of the world.
///
/// `Water(0)` is a spring. `Water(1)` to `Water(7)` is water that reached the
/// cell by flowing, the higher the further from its spring.
///
/// New variants go at the end: saved chunks store the variant's position.
#[derive(Clone, Copy, PartialEq, Eq, Debug, Structural)]
pub enum BlockType {
    Air,
    Grass,
    Dirt,
    Stone,
    Wood,
    Leaves,
    Water(u8),
    Sponge,
}

impl BlockType {
    /// How many slots the hotbar has.
    pub const HOTBAR_SLOTS: u8 = 7;

    /// A block that hides what is behind it: anything but air.
    pub open spec fn solid(self) -> bool {
        self != BlockType::Air
    }

    /// A block that stops a body or a ray: anything but air and water.
    pub open spec fn collidable(self) -> bool {
        self != BlockType::Air && !(self is Water)
    }

    /// The block that hotbar slot `n` stands for.
    pub open spec fn hotbar(n: u8) -> BlockType {
        if n == 1 {
            BlockType::Grass
        } else if n == 2 {
            BlockType::Dirt
        } else if n == 3 {
            BlockType::Stone
        } else if n == 4 {
            BlockType::Wood
        } else if n == 5 {
            BlockType::Leaves
        } else if n == 6 {
            BlockType::Water(0)
        } else {
            BlockType::Sponge
        }
    }

    /// The block's name on screen.
    pub open spec fn name(self) -> Seq<char> {
        match self {
            BlockType::Air => "AIRE"@,
            BlockType::Grass => "PASTO"@,
            BlockType::Dirt => "TIERRA"@,
            BlockType::Stone => "PIEDRA"@,
            BlockType::Wood => "MADERA"@,
            BlockType::Leaves => "HOJAS"@,
            BlockType::Water(_) => "AGUA"@,
            BlockType::Sponge => "ESPONJA"@,
        }
    }

    /// Whether the mesher draws the block: everything but air.
    pub fn is_solid(&self) -> (r: bool)
        ensures
            r == self.solid(),
    {
        !matches!(self, BlockType::Air)
    }

    /// Whether a body or a ray stops at the block: everything but air and water.
    pub fn is_collidable(&self) -> (r: bool)
        ensures
            r == self.collidable(),
    {
        !matches!(self, BlockType::Air | BlockType::Water(_))
    }

    /// The block's name in capitals, as the on-screen font has it.
    pub fn label(&self) -> (r: &'static str)
        ensures
            r@ == self.name(),
    {
        match self {
            BlockType::Air => "AIRE",
            BlockType::Grass => "PASTO",
            BlockType::Dirt => "TIERRA",
            BlockType::Stone => "PIEDRA",
            BlockType::Wood => "MADERA",
            BlockType::Leaves => "HOJAS",
            BlockType::Water(_) => "AGUA",
            BlockType::Sponge => "ESPONJA",
        }
    }

    /// The block of hotbar slot `n`; every number past the sixth slot is the
    /// sponge. Water taken from the hotbar is always a spring.
    pub fn from_hotbar_slot(n: u8) -> (r: BlockType)
        ensures
            r == BlockType::hotbar(n),
    {
        match n {
            1 => BlockType::Grass,
            2 => BlockType::Dirt,
            3 => BlockType::Stone,
            4 => BlockType::Wood,
            5 => BlockType::Leaves,
            6 => BlockType::Water(0),
            _ => BlockType::Sponge,
        }
    }
}

/// Whether local coordinates lie inside a chunk.
pub open spec fn in_chunk(x: int, y: int, z: int) -> bool {
    0 <= x < CHUNK_SIZE_X && 0 <= y < CHUNK_SIZE_Y && 0 <= z < CHUNK_SIZE_Z
}

/// Position of a cell in the chunk's block list.
pub open spec fn cell_index(x: int, y: int, z: int) -> int {
    x + y * 16 + z * 1024
}

/// A box of 16 by 64 by 16 blocks.
pub struct Chunk {
    pub blocks: Vec<BlockType>,
}

impl Clone for Chunk {
    fn clone(&self) -> (r: Self)
        ensures
            r.blocks@ == self.blocks@,
    {
        let blocks = self.blocks.clone();
        assert(blocks@ =~= self.blocks@);
        Chunk { blocks }
    }
}

impl Chunk {
    /// A chunk holds exactly one block per cell.
    pub open spec fn wf(&self) -> bool {
        self.blocks@.len() == CHUNK_VOLUME
    }

    /// The block at local coordinates; air everywhere outside.
    pub open spec fn at(&self, x: int, y: int, z: int) -> BlockType {
        if in_chunk(x, y, z) {
            self.blocks@[cell_index(x, y, z)]
        } else {
            BlockType::Air
        }
    }

    /// A chunk of air.
    pub fn empty() -> (r: Self)
        ensures
            r.wf(),
            forall|x: int, y: int, z: int| #[trigger] r.at(x, y, z) == BlockType::Air,
            r.blocks@ == Seq::new(CHUNK_VOLUME as nat, |i: int| BlockType::Air),
    {
        let blocks = vec![BlockType::Air; CHUNK_VOLUME];
        proof {
            lemma_cell_index_in_range();
            assert(blocks@ =~= Seq::new(CHUNK_VOLUME as nat, |i: int| BlockType::Air));
        }
        Self { blocks }
    }

    /// Where the cell's block stands in the list: x runs fastest, then y, then z.
    pub fn index(x: usize, y: usize, z: usize) -> (r: usize)
        requires
            cell_index(x as int, y as int, z as int) <= usize::MAX,
        ensures
            r == cell_index(x as int, y as int, z as int),
    {
        x + y * CHUNK_SIZE_X + z * CHUNK_SIZE_X * CHUNK_SIZE_Y
    }

    /// The block at local coordinates; outside the chunk there is air.
    pub fn get(&self, x: i32, y: i32, z: i32) -> (r: BlockType)
        requires
            self.wf(),
        ensures
            r == self.at(x as int, y as int, z as int),
    {
        if x < 0 || y < 0 || z < 0 || x >= CHUNK_SIZE_X as i32 || y >= CHUNK_SIZE_Y as i32 || z
            >= CHUNK_SIZE_Z as i32 {
            return BlockType::Air;
        }
        self.blocks[Self::index(x as usize, y as usize, z as usize)]
    }

    /// Puts a block in the list at the position of the given coordinates.
    pub fn set(&mut self, x: usize, y: usize, z: usize, block: BlockType)
        requires
            cell_index(x as int, y as int, z as int) < old(self).blocks@.len(),
        ensures
            final(self).blocks@ == old(self).blocks@.update(
                cell_index(x as int, y as int, z as int),
                block,
            ),
    {
        assert(self.blocks@.len() == self.blocks.len());
        let i: usize = Self::index(x, y, z);
        self.blocks.set(i, block);
    }
}

/// Every cell of a chunk has its place in the block list.
pub proof fn lemma_cell_index_in_range()
    ensures
        forall|x: int, y: int, z: int|
            in_chunk(x, y, z) ==> 0 <= #[trigger] cell_index(x, y, z) < CHUNK_VOLUME,
{
}

/// No two cells of a chunk share a place in the block list, and every place
/// belongs to a cell.
pub proof fn law_cell_index_is_a_bijection()
    ensures
        forall|x: int, y: int, z: int, a: int, b: int, c: int|
            #![trigger cell_index(x, y, z), cell_index(a, b, c)]
            in_chunk(x, y, z) && in_chunk(a, b, c) && cell_index(x, y, z) == cell_index(a, b, c)
                ==> x == a && y == b && z == c,
        forall|i: int|
            0 <= i < CHUNK_VOLUME ==> in_chunk(i % 16, (i / 16) % 64, i / 1024) && i
                == #[trigger] cell_index(i % 16, (i / 16) % 64, i / 1024),
{
}

/// Reading back after a write gives the written block, and every other cell
/// keeps what it held.
pub proof fn law_get_after_set(
    before: Chunk,
    after: Chunk,
    x: int,
    y: int,
    z: int,
    block: BlockType,
)
    requires
        before.wf(),
        in_chunk(x, y, z),
        after.blocks@ == before.blocks@.update(cell_index(x, y, z), block),
    ensures
        after.wf(),
        after.at(x, y, z) == block,
        forall|a: int, b: int, c: int|
            (a, b, c) != (x, y, z) ==> #[trigger] after.at(a, b, c) == before.at(a, b, c),
{
    law_cell_index_is_a_bijection();
    lemma_cell_index_in_range();
}

/// Bodies and rays pass through air and water and through nothing else; only air
/// can be seen through.
pub proof fn law_only_air_and_water_give_way(block: BlockType, level: u8)
    ensures
        !BlockType::Air.collidable() && !BlockType::Water(level).collidable(),
        BlockType::Grass.collidable() && BlockType::Dirt.collidable()
            && BlockType::Stone.collidable() && BlockType::Wood.collidable()
            && BlockType::Leaves.collidable() && BlockType::Sponge.collidable(),
        !BlockType::Air.solid() && BlockType::Water(level).solid(),
        block.collidable() ==> block.solid(),
{
}

/// The seven slots hold seven different blocks, and none of them is air. Any
/// other number stands for the last slot.
pub proof fn law_slots_hold_different_blocks(a: u8, b: u8, other: u8)
    requires
        1 <= a <= 7,
        1 <= b <= 7,
    ensures
        BlockType::hotbar(a) == BlockType::hotbar(b) ==> a == b,
        BlockType::hotbar(a) != BlockType::Air,
        other == 0 || other > 7 ==> BlockType::hotbar(other) == BlockType::Sponge,
        BlockType::hotbar(1) == BlockType::Grass,
        BlockType::hotbar(2) == BlockType::Dirt,
        BlockType::hotbar(3) == BlockType::Stone,
        BlockType::hotbar(4) == BlockType::Wood,
        BlockType::hotbar(5) == BlockType::Leaves,
        BlockType::hotbar(6) == BlockType::Water(0),
        BlockType::hotbar(7) == BlockType::Sponge,
{
}

/// The cells of a chunk are stored along X first, then along Y, then along Z.
pub proof fn law_cells_are_stored_in_order(x: int, y: int, z: int)
    requires
        in_chunk(x, y, z),
    ensures
        in_chunk(x + 1, y, z) ==> cell_index(x + 1, y, z) == cell_index(x, y, z) + 1,
        in_chunk(0, y + 1, z) ==> cell_index(0, y + 1, z) == cell_index(15, y, z) + 1,
        in_chunk(0, 0, z + 1) ==> cell_index(0, 0, z + 1) == cell_index(15, 63, z) + 1,
        cell_index(0, 0, 0) == 0,
        in_chunk(x, y, z) <==> 0 <= x < 16 && 0 <= y < 64 && 0 <= z < 16,
{
}

/// Every block is called by its own name.
pub proof fn law_blocks_are_called_by_name(level: u8)
    ensures
        BlockType::Air.name() == "AIRE"@,
        BlockType::Grass.name() == "PASTO"@,
        BlockType::Dirt.name() == "TIERRA"@,
        BlockType::Stone.name() == "PIEDRA"@,
        BlockType::Wood.name() == "MADERA"@,
        BlockType::Leaves.name() == "HOJAS"@,
        BlockType::Water(level).name() == "AGUA"@,
        BlockType::Sponge.name() == "ESPONJA"@,
{
}

} // verus!
