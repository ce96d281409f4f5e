//! Which tile of the texture atlas each face of each block shows.
//!
//! The atlas is one image with a row of six tiles per block, one tile per face.
use crate::environment::chunk::BlockType;
use vstd::prelude::*;

verus! {

pub const ATLAS_COLS: u32 = 6;

pub const ATLAS_ROWS: u32 = 3;

/// Side of a square tile in pixels.
pub const TILE_PX: u32 = 16;

const ROW_STONE: u32 = 0;

const ROW_DIRT: u32 = 1;

const ROW_GRASS: u32 = 2;

/// A face of a cube. East is +X, west -X, south +Z and north -Z.
#[derive(Clone, Copy, Debug, PartialEq, Eq, Structural)]
pub enum Face {
    Top,
    Bottom,
    North,
    South,
    East,
    West,
}

/// The faces in the order of the atlas columns.
pub const FACE_COLUMN_ORDER: [Face; 6] = [
    Face::Top,
    Face::Bottom,
    Face::North,
    Face::South,
    Face::East,
    Face::West,
];

impl Face {
    /// Whether this is one of the four upright faces.
    pub fn is_side(self) -> (r: bool)
        ensures
            r == (self != Face::Top && self != Face::Bottom),
    {
        matches!(self, Face::North | Face::South | Face::East | Face::West)
    }
}

/// The face that looks along an axis (0 is X, 1 is Y, anything else Z), in the
/// positive direction or, for a back face, in the negative one.
pub open spec fn face_of(axis: int, backface: bool) -> Face {
    if axis == 1 {
        if backface {
            Face::Bottom
        } else {
            Face::Top
        }
    } else if axis == 0 {
        if backface {
            Face::West
        } else {
            Face::East
        }
    } else {
        if backface {
            Face::North
        } else {
            Face::South
        }
    }
}

/// The atlas column of a face.
pub open spec fn face_column(face: Face) -> int {
    match face {
        Face::Top => 0,
        Face::Bottom => 1,
        Face::North => 2,
        Face::South => 3,
        Face::East => 4,
        Face::West => 5,
    }
}

/// The atlas row of a block. Blocks without a row of their own show stone.
pub open spec fn block_row(block: BlockType) -> int {
    match block {
        BlockType::Dirt => 1,
        BlockType::Grass => 2,
        _ => 0,
    }
}

/// The face that a sweep along `axis` in the given direction draws.
pub fn face_for(axis: usize, backface: bool) -> (r: Face)
    ensures
        r == face_of(axis as int, backface),
{
    match axis {
        1 => {
            if backface {
                Face::Bottom
            } else {
                Face::Top
            }
        },
        0 => {
            if backface {
                Face::West
            } else {
                Face::East
            }
        },
        _ => {
            if backface {
                Face::North
            } else {
                Face::South
            }
        },
    }
}

/// The tile, as column and row, of a face in the given row.
pub fn tile_for_row(row: u32, face: Face) -> (r: (u32, u32))
    ensures
        r.0 == face_column(face),
        r.1 == row,
{
    let mut col: usize = 0;
    while col < 5 && FACE_COLUMN_ORDER[col] != face
        invariant
            col <= 5,
            col <= face_column(face),
        decreases 5 - col,
    {
        col = col + 1;
    }
    (col as u32, row)
}

/// The tile of a block's face. Air is never drawn; like every block without
/// tiles of its own it falls back to stone.
pub fn tile_for(block: BlockType, face: Face) -> (r: (u32, u32))
    ensures
        r.0 == face_column(face),
        r.1 == block_row(block),
{
    match block {
        BlockType::Dirt => tile_for_row(ROW_DIRT, face),
        BlockType::Grass => tile_for_row(ROW_GRASS, face),
        _ => tile_for_row(ROW_STONE, face),
    }
}

/// Every tile that `tile_for` can name lies inside the atlas, and the column
/// of a face is where the column order lists it.
pub proof fn law_tiles_lie_in_the_atlas(block: BlockType, face: Face)
    ensures
        0 <= face_column(face) < ATLAS_COLS,
        0 <= block_row(block) < ATLAS_ROWS,
        FACE_COLUMN_ORDER@[face_column(face)] == face,
{
}

/// Opposite sides of a block have different faces: up and down, east and west,
/// south and north, each in its own column of the atlas.
pub proof fn law_faces_look_their_way(block: BlockType)
    ensures
        face_of(1, false) == Face::Top && face_of(1, true) == Face::Bottom,
        face_of(0, false) == Face::East && face_of(0, true) == Face::West,
        face_of(2, false) == Face::South && face_of(2, true) == Face::North,
        face_column(Face::Top) == 0 && face_column(Face::Bottom) == 1,
        face_column(Face::North) == 2 && face_column(Face::South) == 3,
        face_column(Face::East) == 4 && face_column(Face::West) == 5,
        block_row(block) == 1 <==> block == BlockType::Dirt,
        block_row(block) == 2 <==> block == BlockType::Grass,
        block_row(block) == 0 <==> block != BlockType::Dirt && block != BlockType::Grass,
{
}

} // verus!
