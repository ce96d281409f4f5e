//! Greedy meshing: turns the visible faces of a chunk into few large rectangles.
//!
//! A pass looks along one axis in one direction. It sweeps the planes between
//! layers of blocks and merges equal neighbouring faces of a plane into
//! rectangles, scanning row by row and growing each rectangle first to the
//! right and then downwards.
use crate::environment::chunk::{
    cell_index, in_chunk, BlockType, Chunk, CHUNK_SIZE_X, CHUNK_SIZE_Y, CHUNK_SIZE_Z,
};
use crate::textures::atlas::{block_row, face_column, face_for, face_of, tile_for};
use vstd::prelude::*;

verus! {

/// A chunk together with the chunks at its four sides, as far as they are loaded.
pub struct ChunkNeighborhood<'a> {
    pub center: &'a Chunk,
    pub neg_x: Option<&'a Chunk>,
    pub pos_x: Option<&'a Chunk>,
    pub neg_z: Option<&'a Chunk>,
    pub pos_z: Option<&'a Chunk>,
}

/// The blocks of a chunk and of the chunks at its four sides.
#[verifier::ext_equal]
pub struct Surroundings {
    pub center: Seq<BlockType>,
    pub neg_x: Option<Seq<BlockType>>,
    pub pos_x: Option<Seq<BlockType>>,
    pub neg_z: Option<Seq<BlockType>>,
    pub pos_z: Option<Seq<BlockType>>,
}

/// The block of a chunk that may be missing; a missing chunk is air.
pub open spec fn side_at(blocks: Option<Seq<BlockType>>, x: int, y: int, z: int) -> BlockType {
    match blocks {
        Some(b) => if in_chunk(x, y, z) {
            b[cell_index(x, y, z)]
        } else {
            BlockType::Air
        },
        None => BlockType::Air,
    }
}

impl Surroundings {
    /// The block at coordinates local to the center chunk. A coordinate past a
    /// side is looked up in the chunk on that side, X before Z.
    pub open spec fn at(self, x: int, y: int, z: int) -> BlockType {
        if y < 0 || y >= CHUNK_SIZE_Y {
            BlockType::Air
        } else if x < 0 {
            side_at(self.neg_x, x + CHUNK_SIZE_X, y, z)
        } else if x >= CHUNK_SIZE_X {
            side_at(self.pos_x, x - CHUNK_SIZE_X, y, z)
        } else if z < 0 {
            side_at(self.neg_z, x, y, z + CHUNK_SIZE_Z)
        } else if z >= CHUNK_SIZE_Z {
            side_at(self.pos_z, x, y, z - CHUNK_SIZE_Z)
        } else {
            side_at(Some(self.center), x, y, z)
        }
    }
}

pub open spec fn side_wf(chunk: Option<&Chunk>) -> bool {
    chunk matches Some(c) ==> c.wf()
}

pub open spec fn side_blocks(chunk: Option<&Chunk>) -> Option<Seq<BlockType>> {
    match chunk {
        Some(c) => Some(c.blocks@),
        None => None,
    }
}

impl<'a> View for ChunkNeighborhood<'a> {
    type V = Surroundings;

    open spec fn view(&self) -> Surroundings {
        Surroundings {
            center: self.center.blocks@,
            neg_x: side_blocks(self.neg_x),
            pos_x: side_blocks(self.pos_x),
            neg_z: side_blocks(self.neg_z),
            pos_z: side_blocks(self.pos_z),
        }
    }
}

impl<'a> ChunkNeighborhood<'a> {
    pub open spec fn wf(&self) -> bool {
        &&& self.center.wf()
        &&& side_wf(self.neg_x)
        &&& side_wf(self.pos_x)
        &&& side_wf(self.neg_z)
        &&& side_wf(self.pos_z)
    }

    /// A chunk with no neighbours: its sides border on air.
    pub fn isolated(center: &'a Chunk) -> (r: Self)
        ensures
            r.center == center,
            r.neg_x is None && r.pos_x is None && r.neg_z is None && r.pos_z is None,
            forall|x: int, y: int, z: int| #[trigger] r@.at(x, y, z) == center.at(x, y, z),
    {
        Self { center, neg_x: None, pos_x: None, neg_z: None, pos_z: None }
    }

    fn side(chunk: Option<&Chunk>, x: i32, y: i32, z: i32) -> (r: BlockType)
        requires
            side_wf(chunk),
        ensures
            r == side_at(side_blocks(chunk), x as int, y as int, z as int),
    {
        match chunk {
            Some(c) => c.get(x, y, z),
            None => BlockType::Air,
        }
    }

    /// The block at coordinates local to the center chunk.
    pub fn get(&self, x: i32, y: i32, z: i32) -> (r: BlockType)
        requires
            self.wf(),
        ensures
            r == self@.at(x as int, y as int, z as int),
    {
        if y < 0 || y >= CHUNK_SIZE_Y as i32 {
            return BlockType::Air;
        }
        if x < 0 {
            return Self::side(self.neg_x, CHUNK_SIZE_X as i32 + x, y, z);
        }
        if x >= CHUNK_SIZE_X as i32 {
            return Self::side(self.pos_x, x - CHUNK_SIZE_X as i32, y, z);
        }
        if z < 0 {
            return Self::side(self.neg_z, x, y, CHUNK_SIZE_Z as i32 + z);
        }
        if z >= CHUNK_SIZE_Z as i32 {
            return Self::side(self.pos_z, x, y, z - CHUNK_SIZE_Z as i32);
        }
        self.center.get(x, y, z)
    }
}

/// Size of a chunk along X, Y and Z.
pub fn dims() -> (r: [i32; 3])
    ensures
        r@ == seq![16i32, 64i32, 16i32],
{
    let d = [CHUNK_SIZE_X as i32, CHUNK_SIZE_Y as i32, CHUNK_SIZE_Z as i32];
    assert(d@ =~= seq![16i32, 64i32, 16i32]);
    d
}

/// Size of a chunk along an axis.
pub open spec fn dim(axis: int) -> int {
    if axis == 1 {
        64
    } else {
        16
    }
}

/// Number of columns of a plane across `axis`: its extent along the next axis.
pub open spec fn plane_cols(axis: int) -> int {
    dim((axis + 1) % 3)
}

/// Number of rows of a plane across `axis`: its extent along the axis after that.
pub open spec fn plane_rows(axis: int) -> int {
    dim((axis + 2) % 3)
}

/// The point at depth `p` along `axis`, in column `i` and row `j` of the plane.
pub open spec fn on_plane(axis: int, p: int, i: int, j: int) -> (int, int, int) {
    if axis == 0 {
        (p, i, j)
    } else if axis == 1 {
        (j, p, i)
    } else {
        (i, j, p)
    }
}

/// The face drawn between block `a` and block `b` behind it along an axis, if
/// the given direction draws one: a solid block next to air shows its face to
/// the air, and where two waters of different level meet, the one direction
/// that looks from the fuller to the emptier side draws the step.
pub open spec fn visible_face(a: BlockType, b: BlockType, backface: bool) -> Option<BlockType> {
    if a.solid() != b.solid() {
        if backface {
            if b.solid() {
                Some(b)
            } else {
                None
            }
        } else {
            if a.solid() {
                Some(a)
            } else {
                None
            }
        }
    } else {
        match (a, b) {
            (BlockType::Water(la), BlockType::Water(lb)) => if if backface {
                la > lb
            } else {
                la < lb
            } {
                Some(a)
            } else {
                None
            },
            _ => None,
        }
    }
}

/// The face of the plane at depth `p` across `axis`, at column `i` and row `j`.
pub open spec fn face_at(
    nb: Surroundings,
    axis: int,
    backface: bool,
    p: int,
    i: int,
    j: int,
) -> Option<BlockType> {
    let front = on_plane(axis, p - 1, i, j);
    let back = on_plane(axis, p, i, j);
    visible_face(nb.at(front.0, front.1, front.2), nb.at(back.0, back.1, back.2), backface)
}

/// Where a cell of a plane is: the pass (axis and direction), the plane's depth
/// along the axis, the row and the column.
#[verifier::ext_equal]
pub struct Spot {
    pub axis: int,
    pub backface: bool,
    pub depth: int,
    pub row: int,
    pub col: int,
}

impl Spot {
    /// The spot is a cell of one of the planes that the passes sweep.
    pub open spec fn in_grid(self) -> bool {
        &&& 0 <= self.axis < 3
        &&& 0 <= self.depth <= dim(self.axis)
        &&& 0 <= self.row < plane_rows(self.axis)
        &&& 0 <= self.col < plane_cols(self.axis)
    }

    pub open spec fn pass(self) -> int {
        2 * self.axis + if self.backface {
            1int
        } else {
            0int
        }
    }

    /// Scanning reaches this spot before `other`: earlier pass, then plane, then
    /// row, then column.
    pub open spec fn before(self, other: Spot) -> bool {
        ||| self.pass() < other.pass()
        ||| self.pass() == other.pass() && self.depth < other.depth
        ||| self.pass() == other.pass() && self.depth == other.depth && self.row < other.row
        ||| self.pass() == other.pass() && self.depth == other.depth && self.row == other.row
            && self.col < other.col
    }

    /// A number that grows with the scan.
    pub open spec fn rank(self) -> int {
        ((self.pass() * 65 + self.depth) * 64 + self.row) * 64 + self.col
    }

    /// The face to draw at the spot.
    pub open spec fn face(self, nb: Surroundings) -> Option<BlockType> {
        face_at(nb, self.axis, self.backface, self.depth, self.col, self.row)
    }
}

/// A rectangle of equal faces: `w` columns from `i` on and `h` rows from `j` on
/// of the plane at depth `depth` across `axis`.
#[derive(Clone, Copy, Debug, PartialEq, Eq, Structural)]
pub struct Quad {
    pub axis: usize,
    pub backface: bool,
    pub depth: i32,
    pub i: i32,
    pub j: i32,
    pub w: i32,
    pub h: i32,
    pub block: BlockType,
}

impl Quad {
    /// The rectangle holds the spot.
    pub open spec fn covers(self, s: Spot) -> bool {
        &&& self.axis == s.axis
        &&& self.backface == s.backface
        &&& self.depth == s.depth
        &&& self.i <= s.col < self.i + self.w
        &&& self.j <= s.row < self.j + self.h
    }

    /// The rectangle's first spot.
    pub open spec fn start(self) -> Spot {
        Spot {
            axis: self.axis as int,
            backface: self.backface,
            depth: self.depth as int,
            row: self.j as int,
            col: self.i as int,
        }
    }

    /// The spot `dj` rows and `di` columns from the first one.
    pub open spec fn spot(self, dj: int, di: int) -> Spot {
        Spot {
            axis: self.axis as int,
            backface: self.backface,
            depth: self.depth as int,
            row: self.j + dj,
            col: self.i + di,
        }
    }
}

/// Some rectangle of the list holds the spot.
pub open spec fn covered(quads: Seq<Quad>, s: Spot) -> bool {
    exists|k: int| 0 <= k < quads.len() && (#[trigger] quads[k]).covers(s)
}

/// The face at a spot that the rectangles so far leave to be drawn.
pub open spec fn open_face(nb: Surroundings, quads: Seq<Quad>, s: Spot) -> Option<BlockType> {
    if covered(quads, s) {
        None
    } else {
        s.face(nb)
    }
}

/// `q` is the rectangle that comes after `done`: it starts at the first face
/// still open, is as wide as its row allows, and then as high as full rows of
/// that width allow.
pub open spec fn is_next_quad(nb: Surroundings, done: Seq<Quad>, q: Quad) -> bool {
    &&& q.start().in_grid()
    &&& 1 <= q.w && q.i + q.w <= plane_cols(q.axis as int)
    &&& 1 <= q.h && q.j + q.h <= plane_rows(q.axis as int)
    &&& forall|s: Spot|
        s.in_grid() && s.before(q.start()) ==> #[trigger] open_face(nb, done, s) is None
    &&& forall|s: Spot| q.covers(s) ==> #[trigger] open_face(nb, done, s) == Some(q.block)
    &&& q.i + q.w == plane_cols(q.axis as int) || open_face(nb, done, q.spot(0, q.w as int)) != Some(
        q.block,
    )
    &&& q.j + q.h == plane_rows(q.axis as int) || exists|di: int|
        0 <= di < q.w && #[trigger] open_face(nb, done, q.spot(q.h as int, di)) != Some(q.block)
}

/// Each rectangle is the one that comes after those before it.
pub open spec fn is_greedy(nb: Surroundings, quads: Seq<Quad>) -> bool {
    forall|k: int| 0 <= k < quads.len() ==> is_next_quad(nb, quads.take(k), #[trigger] quads[k])
}

/// The rectangles are the greedy cover of all six passes: each is the next one,
/// and none is left to come.
pub open spec fn is_greedy_cover(nb: Surroundings, quads: Seq<Quad>) -> bool {
    &&& is_greedy(nb, quads)
    &&& forall|s: Spot| s.in_grid() ==> #[trigger] open_face(nb, quads, s) is None
}

/// The scan has come to `at`: everything before it is drawn and nothing is
/// drawn in a later plane.
spec fn scanned(nb: Surroundings, quads: Seq<Quad>, at: Spot) -> bool {
    &&& is_greedy(nb, quads)
    &&& forall|s: Spot| s.in_grid() && s.before(at) ==> #[trigger] open_face(nb, quads, s) is None
    &&& forall|k: int|
        0 <= k < quads.len() ==> {
            ||| (#[trigger] quads[k]).start().pass() < at.pass()
            ||| quads[k].start().pass() == at.pass() && quads[k].depth < at.depth
            ||| quads[k].start().pass() == at.pass() && quads[k].depth == at.depth
                && quads[k].start().before(at)
        }
    &&& quads.len() <= at.rank()
}

spec fn mask_cell(mask: Seq<Option<BlockType>>, i: int, j: int) -> Option<BlockType> {
    mask[i + j * 64]
}

/// The mask holds the open faces of the plane that `plane` lies in.
spec fn mask_shows(
    nb: Surroundings,
    quads: Seq<Quad>,
    plane: Spot,
    mask: Seq<Option<BlockType>>,
) -> bool {
    &&& mask.len() == 4096
    &&& forall|i: int, j: int|
        0 <= i < plane_cols(plane.axis) && 0 <= j < plane_rows(plane.axis) ==> #[trigger] mask_cell(
            mask,
            i,
            j,
        ) == open_face(nb, quads, Spot { row: j, col: i, ..plane })
}

proof fn lemma_open_face_push(nb: Surroundings, quads: Seq<Quad>, q: Quad)
    ensures
        forall|s: Spot| #[trigger]
            open_face(nb, quads.push(q), s) == if q.covers(s) {
                None
            } else {
                open_face(nb, quads, s)
            },
{
    let more = quads.push(q);
    assert forall|s: Spot| #[trigger] open_face(nb, more, s) == if q.covers(s) {
        None
    } else {
        open_face(nb, quads, s)
    } by {
        if q.covers(s) {
            assert(more[quads.len() as int].covers(s));
        } else if covered(quads, s) {
            let k = choose|k: int| 0 <= k < quads.len() && (#[trigger] quads[k]).covers(s);
            assert(more[k].covers(s));
        } else if covered(more, s) {
            let k = choose|k: int| 0 <= k < more.len() && (#[trigger] more[k]).covers(s);
            assert(k < quads.len());
            assert(quads[k].covers(s));
        }
    }
}

proof fn lemma_greedy_push(nb: Surroundings, quads: Seq<Quad>, q: Quad)
    requires
        is_greedy(nb, quads),
        is_next_quad(nb, quads, q),
    ensures
        is_greedy(nb, quads.push(q)),
{
    let more = quads.push(q);
    assert forall|k: int| 0 <= k < more.len() implies is_next_quad(
        nb,
        more.take(k),
        #[trigger] more[k],
    ) by {
        assert(more.take(k) =~= quads.take(k));
        if k == quads.len() {
            assert(quads.take(k) =~= quads);
        }
    }
}

/// How many cells from column `i` on hold `block` in row `j`.
fn run_width(mask: &Vec<Option<BlockType>>, cols: usize, i: usize, j: usize, block: BlockType) -> (w:
    usize)
    requires
        mask@.len() == 4096,
        i < cols <= 64,
        j < 64,
        mask_cell(mask@, i as int, j as int) == Some(block),
    ensures
        1 <= w,
        i + w <= cols,
        forall|di: int| 0 <= di < w ==> #[trigger] mask_cell(mask@, i + di, j as int) == Some(block),
        i + w == cols || mask_cell(mask@, i + w, j as int) != Some(block),
{
    let mut w: usize = 1;
    while i + w < cols && mask[i + w + j * 64] == Some(block)
        invariant
            mask@.len() == 4096,
            cols <= 64,
            j < 64,
            1 <= w,
            i + w <= cols,
            forall|di: int|
                0 <= di < w ==> #[trigger] mask_cell(mask@, i + di, j as int) == Some(block),
        decreases cols - w,
    {
        w = w + 1;
    }
    w
}

/// How many rows from `j` on hold `block` in all `w` columns from `i` on.
fn run_height(
    mask: &Vec<Option<BlockType>>,
    rows: usize,
    i: usize,
    j: usize,
    w: usize,
    block: BlockType,
) -> (h: usize)
    requires
        mask@.len() == 4096,
        i + w <= 64,
        j < rows <= 64,
        1 <= w,
        forall|di: int| 0 <= di < w ==> #[trigger] mask_cell(mask@, i + di, j as int) == Some(block),
    ensures
        1 <= h,
        j + h <= rows,
        forall|di: int, dj: int|
            0 <= di < w && 0 <= dj < h ==> #[trigger] mask_cell(mask@, i + di, j + dj) == Some(block),
        j + h == rows || exists|di: int|
            0 <= di < w && #[trigger] mask_cell(mask@, i + di, j + h) != Some(block),
{
    let mut h: usize = 1;
    while j + h < rows
        invariant
            mask@.len() == 4096,
            i + w <= 64,
            rows <= 64,
            1 <= h,
            j + h <= rows,
            forall|di: int, dj: int|
                0 <= di < w && 0 <= dj < h ==> #[trigger] mask_cell(mask@, i + di, j + dj) == Some(
                    block,
                ),
        decreases rows - h,
    {
        let mut k: usize = 0;
        while k < w
            invariant
                mask@.len() == 4096,
                i + w <= 64,
                k <= w,
                rows <= 64,
                1 <= h,
                j + h < rows,
                forall|di: int, dj: int|
                    0 <= di < w && 0 <= dj < h ==> #[trigger] mask_cell(mask@, i + di, j + dj)
                        == Some(block),
                forall|di: int|
                    0 <= di < k ==> #[trigger] mask_cell(mask@, i + di, j + h) == Some(block),
            decreases w - k,
        {
            if mask[i + k + (j + h) * 64] != Some(block) {
                assert(mask_cell(mask@, i + k, j + h) != Some(block));
                return h;
            }
            k = k + 1;
        }
        h = h + 1;
    }
    h
}

/// Empties `h` rows of `w` cells from column `i`, row `j` on.
fn clear_rect(mask: &mut Vec<Option<BlockType>>, i: usize, j: usize, w: usize, h: usize)
    requires
        old(mask)@.len() == 4096,
        i + w <= 64,
        j + h <= 64,
    ensures
        final(mask)@.len() == 4096,
        forall|a: int, b: int|
            0 <= a < 64 && 0 <= b < 64 ==> #[trigger] mask_cell(final(mask)@, a, b) == if i <= a < i
                + w && j <= b < j + h {
                None
            } else {
                mask_cell(old(mask)@, a, b)
            },
{
    let ghost before = mask@;
    let mut l: usize = 0;
    while l < h
        invariant
            mask@.len() == 4096,
            before.len() == 4096,
            i + w <= 64,
            j + h <= 64,
            l <= h,
            forall|a: int, b: int|
                0 <= a < 64 && 0 <= b < 64 ==> #[trigger] mask_cell(mask@, a, b) == if i <= a < i
                    + w && j <= b < j + l {
                    None
                } else {
                    mask_cell(before, a, b)
                },
        decreases h - l,
    {
        let mut k: usize = 0;
        while k < w
            invariant
                mask@.len() == 4096,
                before.len() == 4096,
                i + w <= 64,
                j + h <= 64,
                l < h,
                k <= w,
                forall|a: int, b: int|
                    0 <= a < 64 && 0 <= b < 64 ==> #[trigger] mask_cell(mask@, a, b) == if i <= a
                        < i + w && (j <= b < j + l || (b == j + l && a < i + k)) {
                        None
                    } else {
                        mask_cell(before, a, b)
                    },
            decreases w - k,
        {
            let ghost prior = mask@;
            mask.set(i + k + (j + l) * 64, None);
            assert forall|a: int, b: int| 0 <= a < 64 && 0 <= b < 64 implies #[trigger] mask_cell(
                mask@,
                a,
                b,
            ) == if a == i + k && b == j + l {
                None
            } else {
                mask_cell(prior, a, b)
            } by {}
            k = k + 1;
        }
        l = l + 1;
    }
}

/// The face between two blocks in the given direction.
fn face_between(a: BlockType, b: BlockType, backface: bool) -> (r: Option<BlockType>)
    ensures
        r == visible_face(a, b, backface),
{
    let water_step: bool = match (a, b) {
        (BlockType::Water(la), BlockType::Water(lb)) => (!backface && la < lb) || (backface && la
            > lb),
        _ => false,
    };
    if a.is_solid() != b.is_solid() {
        if backface {
            if b.is_solid() {
                Some(b)
            } else {
                None
            }
        } else if a.is_solid() {
            Some(a)
        } else {
            None
        }
    } else if water_step {
        Some(a)
    } else {
        None
    }
}

fn point_on_plane(axis: usize, p: i32, i: usize, j: usize) -> (r: (i32, i32, i32))
    requires
        axis < 3,
        i < 64,
        j < 64,
    ensures
        (r.0 as int, r.1 as int, r.2 as int) == on_plane(axis as int, p as int, i as int, j as int),
{
    if axis == 0 {
        (p, i as i32, j as i32)
    } else if axis == 1 {
        (j as i32, p, i as i32)
    } else {
        (i as i32, j as i32, p)
    }
}

/// Fills the mask with the faces of the plane at depth `depth`.
fn fill_mask(
    nb: &ChunkNeighborhood,
    axis: usize,
    backface: bool,
    depth: i32,
    cols: usize,
    rows: usize,
    mask: &mut Vec<Option<BlockType>>,
)
    requires
        nb.wf(),
        axis < 3,
        0 <= depth <= 64,
        cols == plane_cols(axis as int),
        rows == plane_rows(axis as int),
        old(mask)@.len() == 4096,
    ensures
        final(mask)@.len() == 4096,
        forall|i: int, j: int|
            0 <= i < cols && 0 <= j < rows ==> #[trigger] mask_cell(final(mask)@, i, j) == face_at(
                nb@,
                axis as int,
                backface,
                depth as int,
                i,
                j,
            ),
{
    let mut j: usize = 0;
    while j < rows
        invariant
            nb.wf(),
            axis < 3,
            0 <= depth <= 64,
            cols <= 64,
            rows <= 64,
            mask@.len() == 4096,
            j <= rows,
            forall|a: int, b: int|
                0 <= a < cols && 0 <= b < j ==> #[trigger] mask_cell(mask@, a, b) == face_at(
                    nb@,
                    axis as int,
                    backface,
                    depth as int,
                    a,
                    b,
                ),
        decreases rows - j,
    {
        let mut i: usize = 0;
        while i < cols
            invariant
                nb.wf(),
                axis < 3,
                0 <= depth <= 64,
                cols <= 64,
                rows <= 64,
                mask@.len() == 4096,
                j < rows,
                i <= cols,
                forall|a: int, b: int|
                    0 <= a < cols && 0 <= b <= j && (b < j || a < i) ==> #[trigger] mask_cell(
                        mask@,
                        a,
                        b,
                    ) == face_at(nb@, axis as int, backface, depth as int, a, b),
            decreases cols - i,
        {
            let front = point_on_plane(axis, depth - 1, i, j);
            let back = point_on_plane(axis, depth, i, j);
            let a = nb.get(front.0, front.1, front.2);
            let b = nb.get(back.0, back.1, back.2);
            let ghost prior = mask@;
            mask.set(i + j * 64, face_between(a, b, backface));
            assert forall|c: int, d: int| 0 <= c < 64 && 0 <= d < 64 && (c != i || d
                != j) implies #[trigger] mask_cell(mask@, c, d) == mask_cell(prior, c, d) by {}
            i = i + 1;
        }
        j = j + 1;
    }
}

/// Merges the faces of one plane into rectangles, in scan order.
fn merge_plane(
    Ghost(nb): Ghost<Surroundings>,
    axis: usize,
    backface: bool,
    depth: i32,
    cols: usize,
    rows: usize,
    mask: &mut Vec<Option<BlockType>>,
    quads: &mut Vec<Quad>,
)
    requires
        axis < 3,
        0 <= depth <= dim(axis as int),
        cols == plane_cols(axis as int),
        rows == plane_rows(axis as int),
        scanned(
            nb,
            old(quads)@,
            (Spot { axis: axis as int, backface, depth: depth as int, row: 0, col: 0 }),
        ),
        mask_shows(
            nb,
            old(quads)@,
            (Spot { axis: axis as int, backface, depth: depth as int, row: 0, col: 0 }),
            old(mask)@,
        ),
    ensures
        final(mask)@.len() == 4096,
        scanned(
            nb,
            final(quads)@,
            (Spot { axis: axis as int, backface, depth: depth + 1, row: 0, col: 0 }),
        ),
{
    let ghost plane = Spot { axis: axis as int, backface, depth: depth as int, row: 0, col: 0 };
    let mut j: usize = 0;
    while j < rows
        invariant
            axis < 3,
            0 <= depth <= dim(axis as int),
            cols == plane_cols(axis as int),
            rows == plane_rows(axis as int),
            plane == (Spot { axis: axis as int, backface, depth: depth as int, row: 0, col: 0 }),
            j <= rows,
            scanned(nb, quads@, (Spot { row: j as int, col: 0, ..plane })),
            mask_shows(nb, quads@, plane, mask@),
        decreases rows - j,
    {
        let mut i: usize = 0;
        while i < cols
            invariant
                axis < 3,
                0 <= depth <= dim(axis as int),
                cols == plane_cols(axis as int),
                rows == plane_rows(axis as int),
                plane == (Spot { axis: axis as int, backface, depth: depth as int, row: 0, col: 0 }),
                j < rows,
                i <= cols,
                scanned(nb, quads@, (Spot { row: j as int, col: i as int, ..plane })),
                mask_shows(nb, quads@, plane, mask@),
            decreases cols - i,
        {
            let ghost at = Spot { row: j as int, col: i as int, ..plane };
            assert(mask_cell(mask@, i as int, j as int) == open_face(nb, quads@, at));
            if let Some(block) = mask[i + j * 64] {
                let w: usize = run_width(mask, cols, i, j, block);
                let h: usize = run_height(mask, rows, i, j, w, block);
                let q = Quad {
                    axis,
                    backface,
                    depth,
                    i: i as i32,
                    j: j as i32,
                    w: w as i32,
                    h: h as i32,
                    block,
                };
                let ghost done = quads@;
                let ghost shown = mask@;
                proof {
                    lemma_next_from_mask(nb, done, at, shown, q);
                    lemma_greedy_push(nb, done, q);
                    lemma_open_face_push(nb, done, q);
                }
                quads.push(q);
                clear_rect(mask, i, j, w, h);
                proof {
                    lemma_scan_past_quad(nb, done, at, q);
                    assert forall|a: int, b: int|
                        0 <= a < plane_cols(plane.axis) && 0 <= b < plane_rows(
                            plane.axis,
                        ) implies #[trigger] mask_cell(mask@, a, b) == open_face(
                        nb,
                        quads@,
                        Spot { row: b, col: a, ..plane },
                    ) by {
                        assert(mask_cell(shown, a, b) == open_face(
                            nb,
                            done,
                            Spot { row: b, col: a, ..plane },
                        ));
                    }
                }
                i = i + w;
            } else {
                proof {
                    lemma_scan_past_nothing(nb, quads@, at);
                }
                i = i + 1;
            }
        }
        proof {
            lemma_scan_next_row(nb, quads@, Spot { row: j as int, col: i as int, ..plane });
        }
        j = j + 1;
    }
    proof {
        lemma_scan_next_plane(nb, quads@, Spot { row: j as int, col: 0, ..plane });
    }
}

proof fn lemma_next_from_mask(
    nb: Surroundings,
    done: Seq<Quad>,
    at: Spot,
    mask: Seq<Option<BlockType>>,
    q: Quad,
)
    requires
        at.in_grid(),
        scanned(nb, done, at),
        mask_shows(nb, done, (Spot { row: 0, col: 0, ..at }), mask),
        q.start() == at,
        1 <= q.w,
        q.i + q.w <= plane_cols(at.axis),
        1 <= q.h,
        q.j + q.h <= plane_rows(at.axis),
        q.i + q.w == plane_cols(at.axis) || mask_cell(mask, q.i + q.w, q.j as int) != Some(q.block),
        forall|di: int, dj: int|
            0 <= di < q.w && 0 <= dj < q.h ==> #[trigger] mask_cell(mask, q.i + di, q.j + dj)
                == Some(q.block),
        q.j + q.h == plane_rows(at.axis) || exists|di: int|
            0 <= di < q.w && #[trigger] mask_cell(mask, q.i + di, q.j + q.h) != Some(q.block),
    ensures
        is_next_quad(nb, done, q),
{
    let plane = Spot { row: 0, col: 0, ..at };
    assert forall|s: Spot| q.covers(s) implies #[trigger] open_face(nb, done, s) == Some(
        q.block,
    ) by {
        assert(mask_cell(mask, q.i + (s.col - q.i), q.j + (s.row - q.j)) == Some(q.block));
        assert(s == Spot { row: s.row, col: s.col, ..plane });
    }
    if q.i + q.w != plane_cols(at.axis) {
        assert(q.spot(0, q.w as int) == Spot { row: q.j as int, col: q.i + q.w, ..plane });
    }
    if q.j + q.h != plane_rows(at.axis) {
        let di = choose|di: int|
            0 <= di < q.w && #[trigger] mask_cell(mask, q.i + di, q.j + q.h) != Some(q.block);
        assert(q.spot(q.h as int, di) == Spot { row: q.j + q.h, col: q.i + di, ..plane });
        assert(open_face(nb, done, q.spot(q.h as int, di)) != Some(q.block));
    }
}

proof fn lemma_scan_past_quad(nb: Surroundings, done: Seq<Quad>, at: Spot, q: Quad)
    requires
        at.in_grid(),
        scanned(nb, done, at),
        is_next_quad(nb, done, q),
        q.start() == at,
    ensures
        scanned(nb, done.push(q), (Spot { col: at.col + q.w, ..at })),
{
    lemma_greedy_push(nb, done, q);
    lemma_open_face_push(nb, done, q);
    let next = Spot { col: at.col + q.w, ..at };
    let more = done.push(q);
    assert forall|s: Spot| s.in_grid() && s.before(next) implies #[trigger] open_face(
        nb,
        more,
        s,
    ) is None by {
        if !s.before(at) {
            assert(s.axis == at.axis && s.backface == at.backface);
            assert(q.covers(s));
        }
    }
}

proof fn lemma_scan_past_nothing(nb: Surroundings, quads: Seq<Quad>, at: Spot)
    requires
        at.in_grid(),
        scanned(nb, quads, at),
        open_face(nb, quads, at) is None,
    ensures
        scanned(nb, quads, (Spot { col: at.col + 1, ..at })),
{
    let next = Spot { col: at.col + 1, ..at };
    assert forall|s: Spot| s.in_grid() && s.before(next) implies #[trigger] open_face(
        nb,
        quads,
        s,
    ) is None by {
        if !s.before(at) {
            assert(s == at);
        }
    }
}

proof fn lemma_scan_next_row(nb: Surroundings, quads: Seq<Quad>, at: Spot)
    requires
        scanned(nb, quads, at),
        0 <= at.axis < 3,
        at.col == plane_cols(at.axis),
    ensures
        scanned(nb, quads, (Spot { row: at.row + 1, col: 0, ..at })),
{
    let next = Spot { row: at.row + 1, col: 0, ..at };
    assert forall|s: Spot| s.in_grid() && s.before(next) implies s.before(at) by {}
}

proof fn lemma_scan_next_plane(nb: Surroundings, quads: Seq<Quad>, at: Spot)
    requires
        scanned(nb, quads, at),
        0 <= at.axis < 3,
        at.row == plane_rows(at.axis),
        at.col == 0,
    ensures
        scanned(nb, quads, (Spot { depth: at.depth + 1, row: 0, col: 0, ..at })),
{
    let next = Spot { depth: at.depth + 1, row: 0, col: 0, ..at };
    assert forall|s: Spot| s.in_grid() && s.before(next) implies s.before(at) by {}
}

/// Appends the rectangles of one pass over the chunk.
fn greedy_sweep(
    nb: &ChunkNeighborhood,
    axis: usize,
    backface: bool,
    quads: &mut Vec<Quad>,
)
    requires
        nb.wf(),
        axis < 3,
        scanned(
            nb@,
            old(quads)@,
            (Spot { axis: axis as int, backface, depth: 0, row: 0, col: 0 }),
        ),
    ensures
        scanned(
            nb@,
            final(quads)@,
            (Spot { axis: axis as int, backface, depth: dim(axis as int) + 1, row: 0, col: 0 }),
        ),
{
    let d = dims();
    let cols: usize = d[(axis + 1) % 3] as usize;
    let rows: usize = d[(axis + 2) % 3] as usize;
    let ghost pass = Spot { axis: axis as int, backface, depth: 0, row: 0, col: 0 };
    let mut mask: Vec<Option<BlockType>> = vec![None; 4096];
    let mut depth: i32 = 0;
    while depth <= d[axis]
        invariant
            nb.wf(),
            axis < 3,
            d@ == seq![16i32, 64i32, 16i32],
            cols == plane_cols(axis as int),
            rows == plane_rows(axis as int),
            pass == (Spot { axis: axis as int, backface, depth: 0, row: 0, col: 0 }),
            mask@.len() == 4096,
            0 <= depth <= dim(axis as int) + 1,
            scanned(nb@, quads@, (Spot { depth: depth as int, ..pass })),
        decreases dim(axis as int) + 1 - depth,
    {
        fill_mask(nb, axis, backface, depth, cols, rows, &mut mask);
        let ghost plane = Spot { depth: depth as int, ..pass };
        proof {
            assert forall|i: int, j: int|
                0 <= i < plane_cols(plane.axis) && 0 <= j < plane_rows(
                    plane.axis,
                ) implies #[trigger] mask_cell(mask@, i, j) == open_face(
                nb@,
                quads@,
                Spot { row: j, col: i, ..plane },
            ) by {
                let s = Spot { row: j, col: i, ..plane };
                assert(!covered(quads@, s));
            }
        }
        merge_plane(Ghost(nb@), axis, backface, depth, cols, rows, &mut mask, quads);
        depth = depth + 1;
    }
}

/// The rectangles of the whole chunk: three axes, forwards and then backwards.
pub fn chunk_quads(nb: &ChunkNeighborhood) -> (quads: Vec<Quad>)
    requires
        nb.wf(),
    ensures
        is_greedy_cover(nb@, quads@),
        quads@.len() <= 1_600_000,
{
    let mut quads: Vec<Quad> = Vec::new();
    let mut axis: usize = 0;
    proof {
        assert forall|s: Spot|
            s.in_grid() && s.before(
                Spot { axis: 0, backface: false, depth: 0, row: 0, col: 0 },
            ) implies #[trigger] open_face(nb@, quads@, s) is None by {}
    }
    while axis < 3
        invariant
            nb.wf(),
            axis <= 3,
            scanned(
                nb@,
                quads@,
                (Spot { axis: axis as int, backface: false, depth: 0, row: 0, col: 0 }),
            ),
        decreases 3 - axis,
    {
        greedy_sweep(nb, axis, false, &mut quads);
        proof {
            lemma_scan_next_pass(nb@, quads@, axis as int, false);
        }
        greedy_sweep(nb, axis, true, &mut quads);
        proof {
            lemma_scan_next_pass(nb@, quads@, axis as int, true);
        }
        axis = axis + 1;
    }
    proof {
        let end = Spot { axis: 3, backface: false, depth: 0, row: 0, col: 0 };
        assert(end.rank() == 1_597_440);
        assert forall|s: Spot| s.in_grid() implies s.before(end) by {}
    }
    quads
}

proof fn lemma_scan_next_pass(nb: Surroundings, quads: Seq<Quad>, axis: int, backface: bool)
    requires
        0 <= axis < 3,
        scanned(nb, quads, (Spot { axis, backface, depth: dim(axis) + 1, row: 0, col: 0 })),
    ensures
        scanned(
            nb,
            quads,
            (Spot {
                axis: if backface {
                    axis + 1
                } else {
                    axis
                },
                backface: !backface,
                depth: 0,
                row: 0,
                col: 0,
            }),
        ),
{
    let at = Spot { axis, backface, depth: dim(axis) + 1, row: 0, col: 0 };
    let next = Spot {
        axis: if backface {
            axis + 1
        } else {
            axis
        },
        backface: !backface,
        depth: 0,
        row: 0,
        col: 0,
    };
    assert forall|s: Spot| s.in_grid() && s.before(next) implies s.before(at) by {}
    assert(at.rank() <= next.rank());
}

/// One corner of a rectangle, as the renderer takes it.
#[derive(Clone, Copy, Debug, PartialEq, Eq)]
pub struct Vertex {
    /// Corner of the block grid, before `drop` lowers it.
    pub position: (i32, i32, i32),
    /// How far the corner lies below `position`, in ninths of a block.
    pub drop: u32,
    pub normal: (i32, i32, i32),
    /// Texture coordinates in blocks, not yet wrapped into the tile.
    pub uv: (u32, u32),
    /// Column and row of the atlas tile.
    pub tile: (u32, u32),
}

/// Vertices and the triangles over them, three indices each.
pub struct MeshData {
    pub vertices: Vec<Vertex>,
    pub indices: Vec<u32>,
}

/// The top of water of the given level lies this many ninths below the top of
/// its cell: a spring is eight ninths full, the last trickle one ninth.
pub open spec fn water_drop(level: u8) -> int {
    level + 1
}

impl Quad {
    /// Corners in order: first spot, end of the first row, opposite corner,
    /// start of the row past the last.
    pub open spec fn corner(self, c: int) -> (int, int, int) {
        let col = if c == 1 || c == 2 {
            self.i + self.w
        } else {
            self.i as int
        };
        let row = if c >= 2 {
            self.j + self.h
        } else {
            self.j as int
        };
        on_plane(self.axis as int, self.depth as int, col, row)
    }

    pub open spec fn facing(self) -> (int, int, int) {
        let d: int = if self.backface {
            -1
        } else {
            1
        };
        on_plane(self.axis as int, d, 0, 0)
    }

    /// Only the upper face of water is lowered.
    pub open spec fn lowered(self) -> int {
        match self.block {
            BlockType::Water(level) => if self.axis == 1 && !self.backface {
                water_drop(level)
            } else {
                0
            },
            _ => 0,
        }
    }

    /// Texture coordinates of the corners. On the upright faces the texture's
    /// vertical follows the world's, upside up.
    pub open spec fn texture_at(self, c: int) -> (int, int) {
        if self.axis == 0 {
            (
                if c >= 2 {
                    self.h as int
                } else {
                    0
                },
                if c == 0 || c == 3 {
                    self.w as int
                } else {
                    0
                },
            )
        } else if self.axis == 2 {
            (
                if c == 1 || c == 2 {
                    self.w as int
                } else {
                    0
                },
                if c <= 1 {
                    self.h as int
                } else {
                    0
                },
            )
        } else {
            (
                if c == 1 || c == 2 {
                    self.w as int
                } else {
                    0
                },
                if c >= 2 {
                    self.h as int
                } else {
                    0
                },
            )
        }
    }

    /// The order in which a rectangle's corners make its two triangles.
    pub open spec fn triangle_corner(self, t: int) -> int {
        if self.backface {
            seq![0int, 2, 1, 0, 3, 2][t]
        } else {
            seq![0int, 1, 2, 0, 2, 3][t]
        }
    }

    /// The vertex is corner `c` of the rectangle.
    pub open spec fn is_vertex(self, c: int, v: Vertex) -> bool {
        &&& (v.position.0 as int, v.position.1 as int, v.position.2 as int) == self.corner(c)
        &&& v.drop == self.lowered()
        &&& (v.normal.0 as int, v.normal.1 as int, v.normal.2 as int) == self.facing()
        &&& (v.uv.0 as int, v.uv.1 as int) == self.texture_at(c)
        &&& v.tile.0 == face_column(face_of(self.axis as int, self.backface))
        &&& v.tile.1 == block_row(self.block)
    }

    /// The rectangle lies within a plane of a chunk.
    pub open spec fn fits(self) -> bool {
        &&& self.axis < 3
        &&& 0 <= self.depth <= 64
        &&& 0 <= self.i <= 64 && 0 <= self.w <= 64
        &&& 0 <= self.j <= 64 && 0 <= self.h <= 64
    }
}

/// The mesh draws exactly these rectangles, four vertices and two triangles each.
pub open spec fn mesh_draws(vertices: Seq<Vertex>, indices: Seq<u32>, quads: Seq<Quad>) -> bool {
    &&& vertices.len() == 4 * quads.len()
    &&& indices.len() == 6 * quads.len()
    &&& forall|k: int, c: int|
        0 <= k < quads.len() && 0 <= c < 4 ==> (#[trigger] quads[k]).is_vertex(
            c,
            #[trigger] vertices[4 * k + c],
        )
    &&& forall|k: int, t: int|
        0 <= k < quads.len() && 0 <= t < 6 ==> #[trigger] indices[6 * k + t] == 4 * k + (
        #[trigger] quads[k]).triangle_corner(t)
}

/// The mesh draws the greedy cover of the visible faces.
pub open spec fn is_mesh_of(nb: Surroundings, mesh: MeshData) -> bool {
    exists|quads: Seq<Quad>|
        is_greedy_cover(nb, quads) && #[trigger] mesh_draws(mesh.vertices@, mesh.indices@, quads)
}

/// Appends a rectangle's four vertices and two triangles to a mesh.
fn emit_quad(q: &Quad, vertices: &mut Vec<Vertex>, indices: &mut Vec<u32>, Ghost(quads): Ghost<Seq<Quad>>)
    requires
        q.fits(),
        quads.len() <= 1_600_000,
        mesh_draws(old(vertices)@, old(indices)@, quads),
    ensures
        mesh_draws(final(vertices)@, final(indices)@, quads.push(*q)),
{
    let (p0, p1, p2, p3) = if q.axis == 0 {
        (
            (q.depth, q.i, q.j),
            (q.depth, q.i + q.w, q.j),
            (q.depth, q.i + q.w, q.j + q.h),
            (q.depth, q.i, q.j + q.h),
        )
    } else if q.axis == 1 {
        (
            (q.j, q.depth, q.i),
            (q.j, q.depth, q.i + q.w),
            (q.j + q.h, q.depth, q.i + q.w),
            (q.j + q.h, q.depth, q.i),
        )
    } else {
        (
            (q.i, q.j, q.depth),
            (q.i + q.w, q.j, q.depth),
            (q.i + q.w, q.j + q.h, q.depth),
            (q.i, q.j + q.h, q.depth),
        )
    };
    let d: i32 = if q.backface {
        -1
    } else {
        1
    };
    let normal: (i32, i32, i32) = if q.axis == 0 {
        (d, 0, 0)
    } else if q.axis == 1 {
        (0, d, 0)
    } else {
        (0, 0, d)
    };
    let drop: u32 = match q.block {
        BlockType::Water(level) => if q.axis == 1 && !q.backface {
            level as u32 + 1
        } else {
            0
        },
        _ => 0,
    };
    let w: u32 = q.w as u32;
    let h: u32 = q.h as u32;
    let (t0, t1, t2, t3) = if q.axis == 0 {
        ((0u32, w), (0u32, 0u32), (h, 0u32), (h, w))
    } else if q.axis == 2 {
        ((0u32, h), (w, h), (w, 0u32), (0u32, 0u32))
    } else {
        ((0u32, 0u32), (w, 0u32), (w, h), (0u32, h))
    };
    let tile: (u32, u32) = tile_for(q.block, face_for(q.axis, q.backface));
    let start: u32 = vertices.len() as u32;
    let ghost vs = vertices@;
    let ghost is = indices@;
    let ghost n = quads.len() as int;
    vertices.push(Vertex { position: p0, drop, normal, uv: t0, tile });
    vertices.push(Vertex { position: p1, drop, normal, uv: t1, tile });
    vertices.push(Vertex { position: p2, drop, normal, uv: t2, tile });
    vertices.push(Vertex { position: p3, drop, normal, uv: t3, tile });
    if q.backface {
        indices.push(start);
        indices.push(start + 2);
        indices.push(start + 1);
        indices.push(start);
        indices.push(start + 3);
        indices.push(start + 2);
    } else {
        indices.push(start);
        indices.push(start + 1);
        indices.push(start + 2);
        indices.push(start);
        indices.push(start + 2);
        indices.push(start + 3);
    }
    proof {
        let more = quads.push(*q);
        assert(q.is_vertex(0, vertices@[4 * n]));
        assert(q.is_vertex(1, vertices@[4 * n + 1]));
        assert(q.is_vertex(2, vertices@[4 * n + 2]));
        assert(q.is_vertex(3, vertices@[4 * n + 3]));
        assert forall|k: int, c: int| 0 <= k < more.len() && 0 <= c < 4 implies (
        #[trigger] more[k]).is_vertex(c, #[trigger] vertices@[4 * k + c]) by {
            if k < n {
                assert(quads[k].is_vertex(c, vs[4 * k + c]));
            }
        }
        assert forall|k: int, t: int| 0 <= k < more.len() && 0 <= t < 6 implies
            #[trigger] indices@[6 * k + t] == 4 * k + (#[trigger] more[k]).triangle_corner(t) by {
            if k < n {
                assert(is[6 * k + t] == 4 * k + quads[k].triangle_corner(t));
            } else {
                assert(indices@[6 * n] == start);
                assert(indices@[6 * n + 3] == start);
            }
        }
    }
}

/// Turns rectangles into vertices and triangles.
fn build_mesh(quads: &Vec<Quad>) -> (mesh: MeshData)
    requires
        quads@.len() <= 1_600_000,
        forall|k: int| 0 <= k < quads@.len() ==> (#[trigger] quads@[k]).fits(),
    ensures
        mesh_draws(mesh.vertices@, mesh.indices@, quads@),
{
    let mut vertices: Vec<Vertex> = Vec::new();
    let mut indices: Vec<u32> = Vec::new();
    let mut k: usize = 0;
    while k < quads.len()
        invariant
            quads@.len() <= 1_600_000,
            forall|k: int| 0 <= k < quads@.len() ==> (#[trigger] quads@[k]).fits(),
            k <= quads@.len(),
            mesh_draws(vertices@, indices@, quads@.take(k as int)),
        decreases quads@.len() - k,
    {
        let q: Quad = quads[k];
        emit_quad(&q, &mut vertices, &mut indices, Ghost(quads@.take(k as int)));
        assert(quads@.take(k as int).push(q) =~= quads@.take(k + 1));
        k = k + 1;
    }
    assert(quads@.take(k as int) =~= quads@);
    MeshData { vertices, indices }
}

/// Meshes the center chunk: the greedy cover of its visible faces, drawn.
pub fn generate_mesh(neighborhood: &ChunkNeighborhood) -> (mesh: MeshData)
    requires
        neighborhood.wf(),
    ensures
        is_mesh_of(neighborhood@, mesh),
{
    let quads = chunk_quads(neighborhood);
    proof {
        assert forall|k: int| 0 <= k < quads@.len() implies (#[trigger] quads@[k]).fits() by {
            assert(is_next_quad(neighborhood@, quads@.take(k), quads@[k]));
        }
    }
    build_mesh(&quads)
}

proof fn lemma_next_quad_is_unique(nb: Surroundings, done: Seq<Quad>, q: Quad, r: Quad)
    requires
        is_next_quad(nb, done, q),
        is_next_quad(nb, done, r),
    ensures
        q == r,
{
    assert(q.covers(q.start()));
    assert(r.covers(r.start()));
    assert(open_face(nb, done, q.start()) == Some(q.block));
    assert(open_face(nb, done, r.start()) == Some(r.block));
    assert(!q.start().before(r.start()));
    assert(!r.start().before(q.start()));
    assert(q.start() == r.start());
    if q.w < r.w {
        assert(r.covers(q.spot(0, q.w as int)));
    }
    if r.w < q.w {
        assert(q.covers(r.spot(0, r.w as int)));
    }
    if q.h < r.h {
        let di = choose|di: int|
            0 <= di < q.w && #[trigger] open_face(nb, done, q.spot(q.h as int, di)) != Some(q.block);
        assert(r.covers(q.spot(q.h as int, di)));
    }
    if r.h < q.h {
        let di = choose|di: int|
            0 <= di < r.w && #[trigger] open_face(nb, done, r.spot(r.h as int, di)) != Some(r.block);
        assert(q.covers(r.spot(r.h as int, di)));
    }
}

proof fn lemma_greedy_prefix_is_unique(
    nb: Surroundings,
    a: Seq<Quad>,
    b: Seq<Quad>,
    n: int,
)
    requires
        is_greedy(nb, a),
        is_greedy(nb, b),
        0 <= n <= a.len(),
        n <= b.len(),
    ensures
        a.take(n) == b.take(n),
    decreases n,
{
    if n > 0 {
        lemma_greedy_prefix_is_unique(nb, a, b, n - 1);
        assert(is_next_quad(nb, a.take(n - 1), a[n - 1]));
        assert(is_next_quad(nb, b.take(n - 1), b[n - 1]));
        lemma_next_quad_is_unique(nb, a.take(n - 1), a[n - 1], b[n - 1]);
        assert(a.take(n) =~= a.take(n - 1).push(a[n - 1]));
        assert(b.take(n) =~= b.take(n - 1).push(b[n - 1]));
    }
    assert(a.take(n) =~= b.take(n));
}

proof fn lemma_cover_is_not_longer(nb: Surroundings, a: Seq<Quad>, b: Seq<Quad>)
    requires
        is_greedy_cover(nb, a),
        is_greedy_cover(nb, b),
    ensures
        a.len() <= b.len(),
{
    if b.len() < a.len() {
        let n = b.len() as int;
        lemma_greedy_prefix_is_unique(nb, a, b, n);
        assert(b.take(n) =~= b);
        assert(is_next_quad(nb, a.take(n), a[n]));
        assert(a[n].covers(a[n].start()));
        assert(open_face(nb, b, a[n].start()) is None);
    }
}

/// A neighbourhood has one greedy cover only, so its mesh is determined.
pub proof fn law_greedy_cover_is_unique(nb: Surroundings, a: Seq<Quad>, b: Seq<Quad>)
    requires
        is_greedy_cover(nb, a),
        is_greedy_cover(nb, b),
    ensures
        a == b,
{
    lemma_cover_is_not_longer(nb, a, b);
    lemma_cover_is_not_longer(nb, b, a);
    lemma_greedy_prefix_is_unique(nb, a, b, a.len() as int);
    assert(a.take(a.len() as int) =~= a);
    assert(b.take(a.len() as int) =~= b);
}

/// The surroundings of a chunk determine its mesh, vertex by vertex.
pub proof fn law_mesh_is_determined(nb: Surroundings, a: MeshData, b: MeshData)
    requires
        is_mesh_of(nb, a),
        is_mesh_of(nb, b),
    ensures
        a.vertices@ == b.vertices@,
        a.indices@ == b.indices@,
{
    let p = choose|quads: Seq<Quad>|
        is_greedy_cover(nb, quads) && #[trigger] mesh_draws(a.vertices@, a.indices@, quads);
    let q = choose|quads: Seq<Quad>|
        is_greedy_cover(nb, quads) && #[trigger] mesh_draws(b.vertices@, b.indices@, quads);
    law_greedy_cover_is_unique(nb, p, q);
    assert forall|n: int| 0 <= n < a.vertices@.len() implies a.vertices@[n] == b.vertices@[n] by {
        let k = n / 4;
        let c = n % 4;
        assert(p[k].is_vertex(c, a.vertices@[4 * k + c]));
        assert(q[k].is_vertex(c, b.vertices@[4 * k + c]));
    }
    assert forall|n: int| 0 <= n < a.indices@.len() implies a.indices@[n] == b.indices@[n] by {
        let k = n / 6;
        let t = n % 6;
        assert(a.indices@[6 * k + t] == 4 * k + p[k].triangle_corner(t));
        assert(b.indices@[6 * k + t] == 4 * k + q[k].triangle_corner(t));
    }
}

/// Every visible face is drawn by exactly one rectangle, as the block it shows,
/// and nothing else is drawn.
pub proof fn law_each_visible_face_is_drawn_once(
    nb: Surroundings,
    quads: Seq<Quad>,
    s: Spot,
)
    requires
        is_greedy_cover(nb, quads),
        s.in_grid(),
    ensures
        s.face(nb) is Some <==> covered(quads, s),
        forall|k: int|
            0 <= k < quads.len() && (#[trigger] quads[k]).covers(s) ==> s.face(nb) == Some(
                quads[k].block,
            ),
        forall|k: int, m: int|
            0 <= k < quads.len() && 0 <= m < quads.len() && (#[trigger] quads[k]).covers(s) && (
            #[trigger] quads[m]).covers(s) ==> k == m,
{
    assert(open_face(nb, quads, s) is None);
    assert forall|k: int| 0 <= k < quads.len() && (#[trigger] quads[k]).covers(s) implies s.face(nb)
        == Some(quads[k].block) by {
        assert(is_next_quad(nb, quads.take(k), quads[k]));
        assert(open_face(nb, quads.take(k), s) == Some(quads[k].block));
    }
    assert forall|k: int, m: int|
        0 <= k < quads.len() && 0 <= m < quads.len() && (#[trigger] quads[k]).covers(s) && (
        #[trigger] quads[m]).covers(s) implies k == m by {
        if k < m {
            lemma_later_quad_avoids(nb, quads, k, m, s);
        }
        if m < k {
            lemma_later_quad_avoids(nb, quads, m, k, s);
        }
    }
}

proof fn lemma_later_quad_avoids(nb: Surroundings, quads: Seq<Quad>, k: int, m: int, s: Spot)
    requires
        is_greedy(nb, quads),
        0 <= k < m < quads.len(),
        quads[k].covers(s),
    ensures
        !quads[m].covers(s),
{
    assert(is_next_quad(nb, quads.take(m), quads[m]));
    assert(quads.take(m)[k].covers(s));
    assert(open_face(nb, quads.take(m), s) is None);
}

/// Where two waters of different level meet, exactly one of the two directions
/// draws the step between them: the front one where the fuller water comes
/// first along the axis, the back one where it comes second. Waters of one level
/// draw nothing.
pub proof fn law_water_step_is_drawn_once(
    nb: Surroundings,
    quads: Seq<Quad>,
    s: Spot,
    la: u8,
    lb: u8,
)
    requires
        is_greedy_cover(nb, quads),
        s.in_grid(),
        ({
            let a = on_plane(s.axis, s.depth - 1, s.col, s.row);
            let b = on_plane(s.axis, s.depth, s.col, s.row);
            nb.at(a.0, a.1, a.2) == BlockType::Water(la) && nb.at(b.0, b.1, b.2)
                == BlockType::Water(lb)
        }),
    ensures
        covered(quads, (Spot { backface: false, ..s })) <==> la < lb,
        covered(quads, (Spot { backface: true, ..s })) <==> la > lb,
        visible_face(BlockType::Water(la), BlockType::Water(lb), false) is Some <==> la < lb,
        visible_face(BlockType::Water(la), BlockType::Water(lb), true) is Some <==> la > lb,
{
    law_each_visible_face_is_drawn_once(nb, quads, Spot { backface: false, ..s });
    law_each_visible_face_is_drawn_once(nb, quads, Spot { backface: true, ..s });
}

/// Between a solid block and air exactly one direction draws the face, and it
/// draws the solid block; between two solid blocks that are not both water, or
/// two airs, nothing is drawn.
pub proof fn law_faces_separate_solid_from_air(a: BlockType, b: BlockType)
    ensures
        a.solid() && !b.solid() ==> visible_face(a, b, false) == Some(a) && visible_face(
            a,
            b,
            true,
        ) is None,
        !a.solid() && b.solid() ==> visible_face(a, b, false) is None && visible_face(a, b, true)
            == Some(b),
        a.solid() == b.solid() && !(a is Water && b is Water) ==> visible_face(a, b, false) is None
            && visible_face(a, b, true) is None,
{
}

/// Every index of a mesh names one of its vertices.
pub proof fn law_indices_name_vertices(
    vertices: Seq<Vertex>,
    indices: Seq<u32>,
    quads: Seq<Quad>,
    n: int,
)
    requires
        mesh_draws(vertices, indices, quads),
        0 <= n < indices.len(),
    ensures
        0 <= indices[n] < vertices.len(),
{
    let k = n / 6;
    let t = n % 6;
    assert(indices[6 * k + t] == 4 * k + quads[k].triangle_corner(t));
}

/// Cross product of two edges.
pub open spec fn cross(a: (int, int, int), b: (int, int, int)) -> (int, int, int) {
    (a.1 * b.2 - a.2 * b.1, a.2 * b.0 - a.0 * b.2, a.0 * b.1 - a.1 * b.0)
}

pub open spec fn minus(a: (int, int, int), b: (int, int, int)) -> (int, int, int) {
    (a.0 - b.0, a.1 - b.1, a.2 - b.2)
}

/// Both triangles of a rectangle wind counterclockwise around its normal, in
/// every direction, so that culling by winding keeps exactly the front sides.
pub proof fn law_triangles_face_along_the_normal(q: Quad, t: int)
    requires
        q.axis < 3,
        t == 0 || t == 3,
    ensures
        ({
            let a = q.corner(q.triangle_corner(t));
            let b = q.corner(q.triangle_corner(t + 1));
            let c = q.corner(q.triangle_corner(t + 2));
            let area = q.w * q.h;
            cross(minus(b, a), minus(c, a)) == (
                area * q.facing().0,
                area * q.facing().1,
                area * q.facing().2,
            )
        }),
{
    let w = q.w as int;
    let h = q.h as int;
    let (eu, ev, fu, fv) = if q.backface {
        if t == 0 {
            (w, h, w, 0int)
        } else {
            (0int, h, w, h)
        }
    } else {
        if t == 0 {
            (w, 0int, w, h)
        } else {
            (w, h, 0int, h)
        }
    };
    let a = q.corner(q.triangle_corner(t));
    assert(minus(q.corner(q.triangle_corner(t + 1)), a) == on_plane(q.axis as int, 0, eu, ev));
    assert(minus(q.corner(q.triangle_corner(t + 2)), a) == on_plane(q.axis as int, 0, fu, fv));
    lemma_cross_in_plane(q.axis as int, eu, ev, fu, fv);
    assert(w * h == h * w && 0 * w == 0 && 0 * h == 0 && w * 0 == 0 && h * 0 == 0 && (w * h) * 0
        == 0 && (w * h) * 1 == w * h && (w * h) * (-1) == -(w * h)) by (nonlinear_arith);
}

proof fn lemma_cross_in_plane(axis: int, eu: int, ev: int, fu: int, fv: int)
    ensures
        cross(on_plane(axis, 0, eu, ev), on_plane(axis, 0, fu, fv)) == on_plane(
            axis,
            eu * fv - ev * fu,
            0,
            0,
        ),
{
    assert(0 * fv == 0 && 0 * fu == 0 && ev * 0 == 0 && eu * 0 == 0 && eu * fv == fv * eu && ev * fu
        == fu * ev) by (nonlinear_arith);
}

/// On an upright face the texture stands upright: its vertical coordinate falls
/// by one for every block that the world's height rises, from the bottom of the
/// rectangle to zero at its top, and its horizontal one grows by one with every
/// block along the ground. On a level face it grows along Z and along X.
pub proof fn law_textures_stand_upright(
    vertices: Seq<Vertex>,
    indices: Seq<u32>,
    quads: Seq<Quad>,
    k: int,
    c: int,
)
    requires
        mesh_draws(vertices, indices, quads),
        0 <= k < quads.len(),
        0 <= c < 4,
    ensures
        ({
            let q = quads[k];
            let v = vertices[4 * k + c];
            let (x, y, z) = (v.position.0 as int, v.position.1 as int, v.position.2 as int);
            &&& q.axis == 0 ==> v.uv.1 == q.i + q.w - y && v.uv.0 == z - q.j
            &&& q.axis == 2 ==> v.uv.1 == q.j + q.h - y && v.uv.0 == x - q.i
            &&& q.axis == 1 ==> v.uv.0 == z - q.i && v.uv.1 == x - q.j
        }),
{
    assert(quads[k].is_vertex(c, vertices[4 * k + c]));
}

/// The four corners of a rectangle are the corners of the cells that it covers:
/// every corner lies on the plane of the rectangle and at one end of it in both
/// directions, and no two corners are at the same ends.
pub proof fn law_corners_bound_their_cells(
    vertices: Seq<Vertex>,
    indices: Seq<u32>,
    quads: Seq<Quad>,
    k: int,
    c: int,
    d: int,
)
    requires
        mesh_draws(vertices, indices, quads),
        0 <= k < quads.len(),
        0 <= c < 4,
        0 <= d < 4,
        quads[k].w >= 1 && quads[k].h >= 1,
    ensures
        ({
            let q = quads[k];
            let (x, y, z) = (
                vertices[4 * k + c].position.0 as int,
                vertices[4 * k + c].position.1 as int,
                vertices[4 * k + c].position.2 as int,
            );
            &&& q.axis == 0 ==> x == q.depth && (y == q.i || y == q.i + q.w) && (z == q.j || z
                == q.j + q.h)
            &&& q.axis == 1 ==> y == q.depth && (z == q.i || z == q.i + q.w) && (x == q.j || x
                == q.j + q.h)
            &&& q.axis == 2 ==> z == q.depth && (x == q.i || x == q.i + q.w) && (y == q.j || y
                == q.j + q.h)
        }),
        quads[k].axis <= 2 && c != d ==> vertices[4 * k + c].position != vertices[4 * k
            + d].position,
{
    assert(quads[k].is_vertex(c, vertices[4 * k + c]));
    assert(quads[k].is_vertex(d, vertices[4 * k + d]));
}

/// Front rectangles look along their axis and back ones against it, and each
/// takes its picture from the atlas column of the side that it looks to: up,
/// down, north (against Z), south, east (along X), west.
pub proof fn law_faces_look_outwards(
    vertices: Seq<Vertex>,
    indices: Seq<u32>,
    quads: Seq<Quad>,
    k: int,
    c: int,
)
    requires
        mesh_draws(vertices, indices, quads),
        0 <= k < quads.len(),
        0 <= c < 4,
        quads[k].axis <= 2,
    ensures
        ({
            let q = quads[k];
            let v = vertices[4 * k + c];
            &&& q.axis == 0 && !q.backface ==> v.normal == (1i32, 0i32, 0i32) && v.tile.0 == 4
            &&& q.axis == 0 && q.backface ==> v.normal == (-1i32, 0i32, 0i32) && v.tile.0 == 5
            &&& q.axis == 1 && !q.backface ==> v.normal == (0i32, 1i32, 0i32) && v.tile.0 == 0
            &&& q.axis == 1 && q.backface ==> v.normal == (0i32, -1i32, 0i32) && v.tile.0 == 1
            &&& q.axis == 2 && !q.backface ==> v.normal == (0i32, 0i32, 1i32) && v.tile.0 == 3
            &&& q.axis == 2 && q.backface ==> v.normal == (0i32, 0i32, -1i32) && v.tile.0 == 2
            &&& q.block == BlockType::Dirt ==> v.tile.1 == 1
            &&& q.block == BlockType::Grass ==> v.tile.1 == 2
            &&& q.block != BlockType::Dirt && q.block != BlockType::Grass ==> v.tile.1 == 0
        }),
{
    assert(quads[k].is_vertex(c, vertices[4 * k + c]));
}

/// The surface of water lies below the top of its cell, by one ninth for a
/// spring and by one more for each level; nothing else is lowered.
pub proof fn law_only_water_surfaces_are_lowered(
    vertices: Seq<Vertex>,
    indices: Seq<u32>,
    quads: Seq<Quad>,
    k: int,
    c: int,
)
    requires
        mesh_draws(vertices, indices, quads),
        0 <= k < quads.len(),
        0 <= c < 4,
    ensures
        ({
            let q = quads[k];
            let v = vertices[4 * k + c];
            &&& q.axis == 1 && !q.backface ==> (q.block matches BlockType::Water(l) ==> v.drop == l
                + 1)
            &&& !(q.block is Water) ==> v.drop == 0
            &&& q.axis != 1 || q.backface ==> v.drop == 0
        }),
{
    assert(quads[k].is_vertex(c, vertices[4 * k + c]));
}

/// A rectangle of the given side draws the block `block` at a place of a plane.
pub open spec fn drawn(
    quads: Seq<Quad>,
    axis: int,
    backface: bool,
    depth: int,
    col: int,
    row: int,
    block: BlockType,
) -> bool {
    exists|k: int|
        0 <= k < quads.len() && (#[trigger] quads[k]).axis == axis && quads[k].backface == backface
            && quads[k].depth == depth && quads[k].i <= col < quads[k].i + quads[k].w && quads[k].j
            <= row < quads[k].j + quads[k].h && quads[k].block == block
}

proof fn lemma_drawn(nb: Surroundings, quads: Seq<Quad>, s: Spot, block: BlockType)
    requires
        is_greedy_cover(nb, quads),
        s.in_grid(),
    ensures
        drawn(quads, s.axis, s.backface, s.depth, s.col, s.row, block) <==> s.face(nb) == Some(
            block,
        ),
{
    law_each_visible_face_is_drawn_once(nb, quads, s);
    if s.face(nb) == Some(block) {
        let k = choose|k: int| 0 <= k < quads.len() && (#[trigger] quads[k]).covers(s);
        assert(quads[k].block == block);
    }
    if drawn(quads, s.axis, s.backface, s.depth, s.col, s.row, block) {
        let k = choose|k: int|
            0 <= k < quads.len() && (#[trigger] quads[k]).axis == s.axis && quads[k].backface
                == s.backface && quads[k].depth == s.depth && quads[k].i <= s.col < quads[k].i
                + quads[k].w && quads[k].j <= s.row < quads[k].j + quads[k].h && quads[k].block
                == block;
        assert(quads[k].covers(s));
    }
}

/// Every block of the chunk shows itself to the air: wherever a block other than
/// air has air at one of its six sides, that side is drawn as this block, one
/// block further along the axis or at the block's own plane. Between two blocks
/// that are not both water nothing is drawn.
pub proof fn law_blocks_show_to_the_air(
    nb: Surroundings,
    quads: Seq<Quad>,
    x: int,
    y: int,
    z: int,
    any: BlockType,
)
    requires
        is_greedy_cover(nb, quads),
        0 <= x < 16 && 0 <= y < 64 && 0 <= z < 16,
        nb.at(x, y, z) != BlockType::Air,
    ensures
        ({
            let b = nb.at(x, y, z);
            &&& nb.at(x + 1, y, z) == BlockType::Air ==> drawn(quads, 0, false, x + 1, y, z, b)
            &&& nb.at(x - 1, y, z) == BlockType::Air ==> drawn(quads, 0, true, x, y, z, b)
            &&& nb.at(x, y + 1, z) == BlockType::Air ==> drawn(quads, 1, false, y + 1, z, x, b)
            &&& nb.at(x, y - 1, z) == BlockType::Air ==> drawn(quads, 1, true, y, z, x, b)
            &&& nb.at(x, y, z + 1) == BlockType::Air ==> drawn(quads, 2, false, z + 1, x, y, b)
            &&& nb.at(x, y, z - 1) == BlockType::Air ==> drawn(quads, 2, true, z, x, y, b)
            &&& nb.at(x + 1, y, z) != BlockType::Air && !(b is Water) ==> !drawn(
                quads,
                0,
                false,
                x + 1,
                y,
                z,
                any,
            ) && !drawn(quads, 0, true, x + 1, y, z, any)
            &&& nb.at(x, y + 1, z) != BlockType::Air && !(b is Water) ==> !drawn(
                quads,
                1,
                false,
                y + 1,
                z,
                x,
                any,
            ) && !drawn(quads, 1, true, y + 1, z, x, any)
            &&& nb.at(x, y, z + 1) != BlockType::Air && !(b is Water) ==> !drawn(
                quads,
                2,
                false,
                z + 1,
                x,
                y,
                any,
            ) && !drawn(quads, 2, true, z + 1, x, y, any)
        }),
{
    let b = nb.at(x, y, z);
    lemma_drawn(nb, quads, Spot { axis: 0, backface: false, depth: x + 1, col: y, row: z }, b);
    lemma_drawn(nb, quads, Spot { axis: 0, backface: true, depth: x, col: y, row: z }, b);
    lemma_drawn(nb, quads, Spot { axis: 1, backface: false, depth: y + 1, col: z, row: x }, b);
    lemma_drawn(nb, quads, Spot { axis: 1, backface: true, depth: y, col: z, row: x }, b);
    lemma_drawn(nb, quads, Spot { axis: 2, backface: false, depth: z + 1, col: x, row: y }, b);
    lemma_drawn(nb, quads, Spot { axis: 2, backface: true, depth: z, col: x, row: y }, b);
    lemma_drawn(nb, quads, Spot { axis: 0, backface: false, depth: x + 1, col: y, row: z }, any);
    lemma_drawn(nb, quads, Spot { axis: 0, backface: true, depth: x + 1, col: y, row: z }, any);
    lemma_drawn(nb, quads, Spot { axis: 1, backface: false, depth: y + 1, col: z, row: x }, any);
    lemma_drawn(nb, quads, Spot { axis: 1, backface: true, depth: y + 1, col: z, row: x }, any);
    lemma_drawn(nb, quads, Spot { axis: 2, backface: false, depth: z + 1, col: x, row: y }, any);
    lemma_drawn(nb, quads, Spot { axis: 2, backface: true, depth: z + 1, col: x, row: y }, any);
}

/// Air draws nothing of its own: between two airs there is no face, in any
/// direction.
pub proof fn law_air_is_not_drawn(
    nb: Surroundings,
    quads: Seq<Quad>,
    k: int,
    col: int,
    row: int,
)
    requires
        is_greedy_cover(nb, quads),
        0 <= k < quads.len(),
        quads[k].i <= col < quads[k].i + quads[k].w,
        quads[k].j <= row < quads[k].j + quads[k].h,
    ensures
        quads[k].block != BlockType::Air,
        ({
            let q = quads[k];
            let p = q.depth as int;
            let (a, b) = if q.axis == 0 {
                (nb.at(p - 1, col, row), nb.at(p, col, row))
            } else if q.axis == 1 {
                (nb.at(row, p - 1, col), nb.at(row, p, col))
            } else {
                (nb.at(col, row, p - 1), nb.at(col, row, p))
            };
            ||| a != BlockType::Air && b == BlockType::Air && !q.backface && q.block == a
            ||| a == BlockType::Air && b != BlockType::Air && q.backface && q.block == b
            ||| a is Water && b is Water && q.block == a
        }),
{
    let q = quads[k];
    assert(is_next_quad(nb, quads.take(k), q));
    let s = Spot { axis: q.axis as int, backface: q.backface, depth: q.depth as int, row, col };
    assert(q.covers(s));
    assert(open_face(nb, quads.take(k), s) == Some(q.block));
}

/// Rectangles are merged as far as they go: beside the first row of one, and in
/// the row under it, there is a face of another kind, one that was drawn before,
/// or the end of the chunk. They come in the order of the scan.
pub proof fn law_rectangles_cannot_grow(nb: Surroundings, quads: Seq<Quad>, k: int)
    requires
        is_greedy_cover(nb, quads),
        0 <= k < quads.len(),
    ensures
        ({
            let q = quads[k];
            let beside = q.spot(0, q.w as int);
            ||| q.i + q.w == plane_cols(q.axis as int)
            ||| beside.face(nb) != Some(q.block)
            ||| covered(quads.take(k), beside)
        }),
        ({
            let q = quads[k];
            ||| q.j + q.h == plane_rows(q.axis as int)
            ||| exists|di: int|
                0 <= di < q.w && ((#[trigger] q.spot(q.h as int, di)).face(nb) != Some(q.block)
                    || covered(quads.take(k), q.spot(q.h as int, di)))
        }),
        k > 0 ==> quads[k - 1].start().before(quads[k].start()),
{
    let q = quads[k];
    assert(is_next_quad(nb, quads.take(k), q));
    if q.j + q.h != plane_rows(q.axis as int) {
        let di = choose|di: int|
            0 <= di < q.w && #[trigger] open_face(nb, quads.take(k), q.spot(q.h as int, di)) != Some(
                q.block,
            );
        assert(q.spot(q.h as int, di).face(nb) != Some(q.block) || covered(
            quads.take(k),
            q.spot(q.h as int, di),
        ));
    }
    if k > 0 {
        let p = quads[k - 1];
        assert(is_next_quad(nb, quads.take(k - 1), p));
        assert(p.covers(p.start()));
        assert(open_face(nb, quads.take(k - 1), p.start()) == Some(p.block));
        assert(q.covers(q.start()));
        assert(open_face(nb, quads.take(k), q.start()) == Some(q.block));
        assert forall|m: int| 0 <= m < k - 1 && (#[trigger] quads[m]).covers(q.start()) implies false by {
            assert(quads.take(k)[m] == quads[m]);
        }
        assert(!covered(quads.take(k - 1), q.start())) by {
            if covered(quads.take(k - 1), q.start()) {
                let m = choose|m: int|
                    0 <= m < quads.take(k - 1).len() && (#[trigger] quads.take(k - 1)[m]).covers(
                        q.start(),
                    );
                assert(quads.take(k)[m].covers(q.start()));
            }
        }
        assert(open_face(nb, quads.take(k - 1), q.start()) is Some);
        assert(!q.start().before(p.start()));
        if q.start() == p.start() {
            assert(quads.take(k)[k - 1].covers(q.start()));
        }
    }
}

/// The two triangles of a rectangle cover it: together they use all four of its
/// corners, and they share the two corners of one diagonal.
pub proof fn law_triangles_cover_the_rectangle(
    vertices: Seq<Vertex>,
    indices: Seq<u32>,
    quads: Seq<Quad>,
    k: int,
)
    requires
        mesh_draws(vertices, indices, quads),
        0 <= k < quads.len(),
    ensures
        ({
            let first = indices.subrange(6 * k, 6 * k + 3);
            let second = indices.subrange(6 * k + 3, 6 * k + 6);
            let corner = |c: int| (4 * k + c) as u32;
            &&& first.contains(corner(0)) && first.contains(corner(1)) && first.contains(corner(2))
            &&& second.contains(corner(0)) && second.contains(corner(2)) && second.contains(
                corner(3),
            )
        }),
{
    let q = quads[k];
    let first = indices.subrange(6 * k, 6 * k + 3);
    let second = indices.subrange(6 * k + 3, 6 * k + 6);
    assert(indices[6 * k + 0] == 4 * k + q.triangle_corner(0));
    assert(indices[6 * k + 1] == 4 * k + q.triangle_corner(1));
    assert(indices[6 * k + 2] == 4 * k + q.triangle_corner(2));
    assert(indices[6 * k + 3] == 4 * k + q.triangle_corner(3));
    assert(indices[6 * k + 4] == 4 * k + q.triangle_corner(4));
    assert(indices[6 * k + 5] == 4 * k + q.triangle_corner(5));
    assert(first[0] == indices[6 * k] && first[1] == indices[6 * k + 1] && first[2] == indices[6 * k
        + 2]);
    assert(second[0] == indices[6 * k + 3] && second[1] == indices[6 * k + 4] && second[2]
        == indices[6 * k + 5]);
}

} // verus!
