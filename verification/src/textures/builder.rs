//! Putting the atlas together: out of one picture per face, or a row at a time
//! out of a cube template.
//!
//! A template is a cross of cells in a grid of three columns and four rows:
//!
//! ```text
//!     .     Top    .
//!     Left  Front  Right
//!     .     Bottom .
//!     .     Back   .
//! ```
use crate::text::{end_of_line, lemma_line_end, line_at, line_end, line_from, trim, trimmed};
use crate::textures::atlas::{Face, ATLAS_COLS, TILE_PX};
use crate::textures::picture::{
    blank_image, cropped, law_parts_show_their_place, lemma_cropped_at, overlaid, resized, Image, Picture, Rgba,
};
use vstd::prelude::*;
use vstd::string::StrSliceExecFns;
use vstd::string::StringExecFns;

verus! {

/// The cell of the template that each column of the atlas shows, column and row.
/// Front, back, left and right are the south, north, west and east faces.
pub const TEMPLATE_CELLS: [(u32, u32); 6] = [(1, 0), (1, 2), (1, 3), (1, 1), (2, 1), (0, 1)];

/// The width of the atlas in pixels.
pub const ATLAS_WIDTH: u32 = 96;

/// Whether the template divides into its grid without a rest.
pub fn divides_evenly(width: u32, height: u32) -> (r: bool)
    ensures
        r == (width % 3 == 0 && height % 4 == 0),
{
    width % 3 == 0 && height % 4 == 0
}

/// Whether the cells of the template have any area.
pub fn has_cells(width: u32, height: u32) -> (r: bool)
    ensures
        r == (width / 3 > 0 && height / 4 > 0),
{
    width / 3 > 0 && height / 4 > 0
}

/// A cell of the template.
pub open spec fn template_cell(t: Image, col: int) -> Image {
    let w = t.width / 3;
    let h = t.height / 4;
    let cell = TEMPLATE_CELLS@[col];
    cropped(t, cell.0 * w, cell.1 * h, w, h)
}

/// The tile that a column of the atlas gets from the template.
pub open spec fn template_tile(t: Image, col: int) -> Image {
    resized(template_cell(t, col), TILE_PX, TILE_PX)
}

/// Cuts the six tiles out of a template, in the order of the atlas columns.
/// Each pixel of a tile is a pixel of its cell.
pub fn template_tiles(template: &Picture) -> (tiles: Vec<Picture>)
    requires
        template@.wf(),
        template.width / 3 > 0 && template.height / 4 > 0,
        16 * (template.width * TILE_PX) <= isize::MAX,
    ensures
        tiles@.len() == ATLAS_COLS,
        forall|c: int|
            0 <= c < ATLAS_COLS ==> (#[trigger] tiles@[c])@ == template_tile(template@, c)
                && tiles@[c]@.wf(),
        forall|c: int, x: int, y: int|
            0 <= c < ATLAS_COLS && 0 <= x < TILE_PX && 0 <= y < TILE_PX ==> template_cell(
                template@,
                c,
            ).holds(#[trigger] tiles@[c]@.at(x, y)),
{
    let w: u32 = template.width / 3;
    let h: u32 = template.height / 4;
    let mut tiles: Vec<Picture> = Vec::new();
    let mut c: usize = 0;
    while c < 6
        invariant
            template@.wf(),
            w == template.width / 3,
            h == template.height / 4,
            w > 0 && h > 0,
            16 * (template.width * TILE_PX) <= isize::MAX,
            c <= 6,
            tiles@.len() == c,
            forall|k: int|
                0 <= k < c ==> (#[trigger] tiles@[k])@ == template_tile(template@, k)
                    && tiles@[k]@.wf(),
            forall|k: int, x: int, y: int|
                0 <= k < c && 0 <= x < TILE_PX && 0 <= y < TILE_PX ==> template_cell(
                    template@,
                    k,
                ).holds(#[trigger] tiles@[k]@.at(x, y)),
        decreases 6 - c,
    {
        let cell: (u32, u32) = TEMPLATE_CELLS[c];
        assert(cell.0 <= 2 && cell.1 <= 3);
        proof {
            lemma_cell_fits(cell.0, w, 3, template.width);
            lemma_cell_fits(cell.1, h, 4, template.height);
        }
        let part = template.crop(cell.0 * w, cell.1 * h, w, h);
        let tile = part.resized_to(TILE_PX, TILE_PX);
        assert(tile@ == template_tile(template@, c as int));
        tiles.push(tile);
        c = c + 1;
    }
    tiles
}

/// A picture that is not empty holds at least one row.
proof fn lemma_row_fits(width: u32, height: int)
    by (nonlinear_arith)
    requires
        height >= 1,
    ensures
        4 * width <= 4 * (width * height),
{
}

proof fn lemma_cell_fits(at: u32, size: u32, cells: u32, whole: u32)
    by (nonlinear_arith)
    requires
        at < cells,
        cells > 0,
        size == whole / cells,
    ensures
        0 <= at * size,
        at * size + size <= whole,
{
}

/// The size that the atlas needs so that a row fits in: at least as wide as six
/// tiles and as it is, and as high as its whole rows of tiles and the new one.
pub open spec fn grown_size(width: u32, height: u32, row: u32) -> (int, int) {
    let rows = height / TILE_PX;
    let w = if width > ATLAS_WIDTH {
        width as int
    } else {
        ATLAS_WIDTH as int
    };
    let h = if rows > row + 1 {
        rows as int
    } else {
        row + 1
    };
    (w, h * TILE_PX)
}

/// The atlas that a row is written into: a new one, the old one, or the old one
/// laid into a larger one.
pub open spec fn canvas_for(existing: Option<Image>, row: u32) -> Image {
    match existing {
        None => blank_image(ATLAS_WIDTH, ((row + 1) * TILE_PX) as u32),
        Some(e) => {
            let size = grown_size(e.width, e.height, row);
            if size == (e.width as int, e.height as int) {
                e
            } else {
                overlaid(blank_image(size.0 as u32, size.1 as u32), e, 0, 0)
            }
        },
    }
}

/// The atlas with the first tiles of a row written into it.
pub open spec fn with_tiles(canvas: Image, tiles: Seq<Image>, row: int, n: int) -> Image
    decreases n,
{
    if n <= 0 {
        canvas
    } else {
        overlaid(
            with_tiles(canvas, tiles, row, n - 1),
            tiles[n - 1],
            ((n - 1) * TILE_PX) as i64,
            (row * TILE_PX) as i64,
        )
    }
}

/// Pixels that belong to the tiles of a row.
pub open spec fn in_row(x: int, y: int, row: int) -> bool {
    0 <= x < ATLAS_WIDTH && row * TILE_PX <= y < row * TILE_PX + TILE_PX
}

/// Six tiles of a list, from an index on.
pub open spec fn six_tiles(tiles: Seq<Picture>, first: int) -> Seq<Image> {
    Seq::new(ATLAS_COLS as nat, |c: int| tiles[first + c]@)
}

pub open spec fn is_tile(t: Image) -> bool {
    t.wf() && t.width == TILE_PX && t.height == TILE_PX
}

/// How an atlas comes out of writing the first tiles of a row into another:
/// beside the tiles it is as before, an opaque pixel of a tile is there, and
/// under a transparent one the old pixel stays.
pub open spec fn shows_tiles(r: Image, canvas: Image, tiles: Seq<Image>, row: int, n: int) -> bool {
    &&& r.wf() && r.width == canvas.width && r.height == canvas.height
    &&& forall|i: int, j: int|
        canvas.has(i, j) && !(in_row(i, j, row) && i < n * TILE_PX) ==> #[trigger] r.at(i, j)
            == canvas.at(i, j)
    &&& forall|c: int, x: int, y: int|
        0 <= c < n && 0 <= x < TILE_PX && 0 <= y < TILE_PX && (#[trigger] tiles[c].at(x, y)).3 == 255
            ==> r.at(c * TILE_PX + x, row * TILE_PX + y) == tiles[c].at(x, y)
    &&& forall|c: int, x: int, y: int|
        0 <= c < n && 0 <= x < TILE_PX && 0 <= y < TILE_PX && (#[trigger] tiles[c].at(x, y)).3 == 0
            ==> r.at(c * TILE_PX + x, row * TILE_PX + y) == canvas.at(
            c * TILE_PX + x,
            row * TILE_PX + y,
        )
}

proof fn lemma_one_more_tile(
    r: Image,
    before: Image,
    canvas: Image,
    tiles: Seq<Image>,
    row: int,
    n: int,
)
    requires
        0 <= n < 6,
        0 <= row,
        tiles.len() == 6,
        is_tile(tiles[n]),
        canvas.width >= ATLAS_WIDTH,
        canvas.height >= (row + 1) * TILE_PX,
        shows_tiles(before, canvas, tiles, row, n),
        r.wf() && r.width == before.width && r.height == before.height,
        forall|i: int, j: int|
            before.has(i, j) && !tiles[n].has(i - n * TILE_PX, j - row * TILE_PX)
                ==> #[trigger] r.at(i, j) == before.at(i, j),
        forall|i: int, j: int|
            before.has(i, j) && tiles[n].has(i - n * TILE_PX, j - row * TILE_PX) && tiles[n].at(
                i - n * TILE_PX,
                j - row * TILE_PX,
            ).3 == 255 ==> #[trigger] r.at(i, j) == tiles[n].at(i - n * TILE_PX, j - row * TILE_PX),
        forall|i: int, j: int|
            before.has(i, j) && tiles[n].has(i - n * TILE_PX, j - row * TILE_PX) && tiles[n].at(
                i - n * TILE_PX,
                j - row * TILE_PX,
            ).3 == 0 ==> #[trigger] r.at(i, j) == before.at(i, j),
    ensures
        shows_tiles(r, canvas, tiles, row, n + 1),
{
    assert forall|i: int, j: int|
        canvas.has(i, j) && !(in_row(i, j, row) && i < (n + 1) * TILE_PX) implies #[trigger] r.at(i, j)
        == canvas.at(i, j) by {
        assert(before.at(i, j) == canvas.at(i, j));
    }
    assert forall|c: int, x: int, y: int|
        0 <= c < n + 1 && 0 <= x < TILE_PX && 0 <= y < TILE_PX && (#[trigger] tiles[c].at(x, y)).3
            == 255 implies r.at(c * TILE_PX + x, row * TILE_PX + y) == tiles[c].at(x, y) by {
        let i = c * TILE_PX + x;
        let j = row * TILE_PX + y;
        assert(before.has(i, j));
        if c < n {
            assert(before.at(i, j) == tiles[c].at(x, y));
            assert(r.at(i, j) == before.at(i, j));
        } else {
            assert(i - n * TILE_PX == x && j - row * TILE_PX == y);
            assert(r.at(i, j) == tiles[c].at(x, y));
        }
    }
    assert forall|c: int, x: int, y: int|
        0 <= c < n + 1 && 0 <= x < TILE_PX && 0 <= y < TILE_PX && (#[trigger] tiles[c].at(x, y)).3
            == 0 implies r.at(c * TILE_PX + x, row * TILE_PX + y) == canvas.at(
        c * TILE_PX + x,
        row * TILE_PX + y,
    ) by {
        let i = c * TILE_PX + x;
        let j = row * TILE_PX + y;
        assert(before.has(i, j));
        if c < n {
            assert(before.at(i, j) == canvas.at(i, j));
            assert(r.at(i, j) == before.at(i, j));
        } else {
            assert(i - n * TILE_PX == x && j - row * TILE_PX == y);
            assert(r.at(i, j) == before.at(i, j));
            assert(before.at(i, j) == canvas.at(i, j));
        }
    }
}

/// Writes six tiles of a list into a row of the atlas.
fn put_row(canvas: Picture, tiles: &Vec<Picture>, first: usize, row: u32) -> (r: Picture)
    requires
        canvas@.wf(),
        first + 6 <= tiles@.len(),
        forall|c: int| first <= c < first + 6 ==> is_tile((#[trigger] tiles@[c])@),
        canvas.width >= ATLAS_WIDTH,
        canvas.height >= (row + 1) * TILE_PX,
    ensures
        r@ == with_tiles(canvas@, six_tiles(tiles@, first as int), row as int, 6),
        shows_tiles(r@, canvas@, six_tiles(tiles@, first as int), row as int, 6),
{
    let ghost start = canvas@;
    let ghost six = six_tiles(tiles@, first as int);
    let have: usize = tiles.len();
    let mut out: Picture = canvas;
    let mut c: usize = 0;
    while c < 6
        invariant
            c <= 6,
            have == tiles@.len(),
            first + 6 <= have,
            forall|k: int| first <= k < first + 6 ==> is_tile((#[trigger] tiles@[k])@),
            six == six_tiles(tiles@, first as int),
            start.width >= ATLAS_WIDTH,
            start.height >= (row + 1) * TILE_PX,
            out@ == with_tiles(start, six, row as int, c as int),
            shows_tiles(out@, start, six, row as int, c as int),
        decreases 6 - c,
    {
        let ghost before = out@;
        assert(tiles@[first + c]@ == six[c as int]);
        assert(is_tile(tiles@[first + c]@));
        proof {
            lemma_row_fits(out.width, out.height as int);
            assert(out.pixels@.len() == out.pixels.len());
        }
        out = out.overlaid_with(&tiles[first + c], (c as i64) * 16, (row as i64) * 16);
        proof {
            lemma_one_more_tile(out@, before, start, six, row as int, c as int);
        }
        c = c + 1;
    }
    out
}

/// The value of a picture that may be missing.
pub open spec fn image_of(p: Option<Picture>) -> Option<Image> {
    match p {
        Some(p) => Some(p@),
        None => None,
    }
}

/// The size of the atlas that a row is written into.
pub open spec fn canvas_size(existing: Option<Image>, row: u32) -> (int, int) {
    match existing {
        None => (ATLAS_WIDTH as int, (row + 1) * TILE_PX),
        Some(e) => grown_size(e.width, e.height, row),
    }
}

/// The opaque pixels of a picture are still there in another, as far as it
/// reaches.
pub open spec fn keeps_opaque(r: Image, existing: Image) -> bool {
    forall|i: int, j: int|
        existing.has(i, j) && r.has(i, j) && (#[trigger] existing.at(i, j)).3 == 255 ==> r.at(i, j)
            == existing.at(i, j)
}

/// The atlas that a row is written into. It has whole rows of tiles only, at
/// least those of the old one, whose opaque pixels are kept.
pub fn grown_canvas(existing: Option<Picture>, row: u32) -> (r: Picture)
    requires
        existing is Some ==> existing->0@.wf(),
        canvas_size(image_of(existing), row).1 <= u32::MAX,
        4 * (canvas_size(image_of(existing), row).0 * canvas_size(image_of(existing), row).1)
            <= usize::MAX,
    ensures
        r@ == canvas_for(image_of(existing), row),
        r@.wf(),
        (r.width as int, r.height as int) == canvas_size(image_of(existing), row),
        existing is Some ==> keeps_opaque(r@, existing->0@),
{
    match existing {
        None => Picture::blank(ATLAS_WIDTH, (row + 1) * TILE_PX),
        Some(e) => {
            let rows: u32 = e.height / TILE_PX;
            let w: u32 = if e.width > ATLAS_WIDTH {
                e.width
            } else {
                ATLAS_WIDTH
            };
            let h: u32 = if rows > row {
                if rows - row > 1 {
                    rows
                } else {
                    row + 1
                }
            } else {
                row + 1
            };
            if w == e.width && h * TILE_PX == e.height {
                e
            } else {
                let larger = Picture::blank(w, h * TILE_PX);
                proof {
                    lemma_row_fits(w, h * TILE_PX);
                }
                let r = larger.overlaid_with(&e, 0, 0);
                assert forall|i: int, j: int|
                    e@.has(i, j) && r@.has(i, j) && (#[trigger] e@.at(i, j)).3 == 255 implies r@.at(
                    i,
                    j,
                ) == e@.at(i, j) by {
                    assert(i - 0 == i && j - 0 == j);
                }
                r
            }
        },
    }
}

/// The six tiles of a template.
pub open spec fn tiles_of(t: Image) -> Seq<Image> {
    Seq::new(ATLAS_COLS as nat, |c: int| template_tile(t, c))
}

/// Writes the six faces of a template into a row of the atlas, which grows as
/// far as it has to. The other rows keep their opaque pixels, and all their
/// pixels where the atlas had room. Where the template is opaque, each pixel of
/// the row comes from the cell of its face.
pub fn write_template(template: &Picture, row: u32, existing: Option<Picture>) -> (r: Picture)
    requires
        template@.wf(),
        template.width / 3 > 0 && template.height / 4 > 0,
        16 * (template.width * TILE_PX) <= isize::MAX,
        existing is Some ==> existing->0@.wf(),
        canvas_size(image_of(existing), row).1 <= u32::MAX,
        4 * (canvas_size(image_of(existing), row).0 * canvas_size(image_of(existing), row).1)
            <= usize::MAX,
    ensures
        r@ == with_tiles(
            canvas_for(image_of(existing), row),
            tiles_of(template@),
            row as int,
            6,
        ),
        shows_tiles(
            r@,
            canvas_for(image_of(existing), row),
            tiles_of(template@),
            row as int,
            6,
        ),
        (r.width as int, r.height as int) == canvas_size(image_of(existing), row),
        existing is Some ==> forall|i: int, j: int|
            existing->0@.has(i, j) && r@.has(i, j) && !in_row(i, j, row as int) && (
            #[trigger] existing->0@.at(i, j)).3 == 255 ==> r@.at(i, j) == existing->0@.at(i, j),
        template@.opaque() ==> forall|c: int, x: int, y: int|
            0 <= c < ATLAS_COLS && 0 <= x < TILE_PX && 0 <= y < TILE_PX ==> template_cell(
                template@,
                c,
            ).holds(#[trigger] r@.at(c * TILE_PX + x, row * TILE_PX + y)),
{
    let tiles = template_tiles(template);
    let ghost old = image_of(existing);
    let canvas = grown_canvas(existing, row);
    let ghost below = canvas@;
    assert(six_tiles(tiles@, 0) =~= tiles_of(template@));
    let r = put_row(canvas, &tiles, 0, row);
    proof {
        if old is Some {
            let e = old->0;
            assert forall|i: int, j: int|
                e.has(i, j) && r@.has(i, j) && !in_row(i, j, row as int) && (#[trigger] e.at(i, j)).3
                    == 255 implies r@.at(i, j) == e.at(i, j) by {
                assert(r@.at(i, j) == below.at(i, j));
            }
        }
        if template@.opaque() {
            assert forall|c: int, x: int, y: int|
                0 <= c < ATLAS_COLS && 0 <= x < TILE_PX && 0 <= y < TILE_PX implies template_cell(
                template@,
                c,
            ).holds(#[trigger] r@.at(c * TILE_PX + x, row * TILE_PX + y)) by {
                let px = tiles@[c]@.at(x, y);
                assert(template_cell(template@, c).holds(px));
                lemma_cell_is_opaque(template@, c, px);
                assert(tiles_of(template@)[c].at(x, y) == px);
            }
        }
    }
    r
}

/// The pixels of a cell of an opaque template are opaque.
proof fn lemma_cell_is_opaque(t: Image, c: int, px: Rgba)
    requires
        t.opaque(),
        0 <= c < 6,
        template_cell(t, c).holds(px),
    ensures
        px.3 == 255,
{
    let w = t.width / 3;
    let h = t.height / 4;
    let cell = TEMPLATE_CELLS@[c];
    assert(cell.0 <= 2 && cell.1 <= 3);
    lemma_cell_fits(cell.0, w, 3, t.width);
    lemma_cell_fits(cell.1, h, 4, t.height);
    let part = template_cell(t, c);
    let (x, y) = choose|x: int, y: int| part.has(x, y) && #[trigger] part.at(x, y) == px;
    lemma_cropped_at(t, cell.0 * w, cell.1 * h, w, h, x, y);
    assert(t.has(cell.0 * w + x, cell.1 * h + y));
}

/// Every face of the cube has a cell of its own in the template.
pub proof fn law_faces_have_cells_of_their_own(a: int, b: int)
    requires
        0 <= a < b < 6,
    ensures
        TEMPLATE_CELLS@[a] != TEMPLATE_CELLS@[b],
        TEMPLATE_CELLS@[a].0 < 3 && TEMPLATE_CELLS@[a].1 < 4,
{
}

/// The blocks that a list names from a position on: one a line, without the
/// blank lines and those that start with a number sign.
pub open spec fn blocks_from(s: Seq<char>, a: int) -> Seq<Seq<char>>
    decreases s.len() + 1 - a,
{
    if 0 <= a < s.len() {
        proof {
            lemma_line_end(s, a);
        }
        let line = trimmed(line_at(s, a));
        let rest = blocks_from(s, line_end(s, a) + 1);
        if line.len() == 0 || line[0] == '#' {
            rest
        } else {
            seq![line] + rest
        }
    } else {
        Seq::empty()
    }
}

/// The texts of a list of strings.
pub open spec fn texts(names: Seq<String>) -> Seq<Seq<char>> {
    names.map_values(|n: String| n@)
}

/// The blocks that a list names, in its order.
pub fn block_names(list: &str) -> (names: Vec<String>)
    ensures
        texts(names@) == blocks_from(list@, 0),
{
    let n: usize = list.unicode_len();
    let mut names: Vec<String> = Vec::new();
    let mut a: usize = 0;
    assert(texts(names@) =~= Seq::empty());
    assert(texts(names@) + blocks_from(list@, 0) =~= blocks_from(list@, 0));
    while a < n
        invariant
            n == list@.len(),
            a <= n,
            texts(names@) + blocks_from(list@, a as int) == blocks_from(list@, 0),
        decreases n - a,
    {
        let b: usize = end_of_line(list, a);
        let line = line_from(list, a, b);
        let name = trim(line.as_str());
        let ghost rest = blocks_from(list@, b + 1);
        let ghost before = texts(names@);
        let ghost text = name@;
        let len: usize = name.as_str().unicode_len();
        let skip: bool = if len == 0 {
            true
        } else {
            name.as_str().get_char(0) == '#'
        };
        if !skip {
            names.push(name);
            assert(texts(names@) =~= before.push(text));
            assert(before + (seq![text] + rest) =~= texts(names@) + rest);
        }
        if b == n {
            assert(rest =~= Seq::empty());
            assert(texts(names@) + rest =~= texts(names@));
            return names;
        }
        a = b + 1;
    }
    assert(texts(names@) + blocks_from(list@, n as int) =~= texts(names@));
    names
}

/// The name of a face in the files of its pictures.
pub open spec fn face_name(face: Face) -> Seq<char> {
    match face {
        Face::Top => "top"@,
        Face::Bottom => "bottom"@,
        Face::North => "north"@,
        Face::South => "south"@,
        Face::East => "east"@,
        Face::West => "west"@,
    }
}

/// The file of the picture of a face of a block.
pub fn face_file(block: &str, face: Face) -> (r: String)
    ensures
        r@ == block@ + "_"@ + face_name(face) + ".png"@,
{
    let mut out: String = String::from_str(block);
    out.append("_");
    out.append(
        match face {
            Face::Top => "top",
            Face::Bottom => "bottom",
            Face::North => "north",
            Face::South => "south",
            Face::East => "east",
            Face::West => "west",
        },
    );
    out.append(".png");
    out
}

/// A picture brought to the size of a tile.
pub open spec fn as_tile(p: Image) -> Image {
    if p.width == TILE_PX && p.height == TILE_PX {
        p
    } else {
        resized(p, TILE_PX, TILE_PX)
    }
}

/// The pictures of an atlas row, brought to the size of tiles.
pub open spec fn row_tiles(pictures: Seq<Picture>, row: int) -> Seq<Image> {
    Seq::new(ATLAS_COLS as nat, |c: int| as_tile(pictures[6 * row + c]@))
}

/// The atlas with its first rows written.
pub open spec fn with_rows(canvas: Image, pictures: Seq<Picture>, n: int) -> Image
    decreases n,
{
    if n <= 0 {
        canvas
    } else {
        with_tiles(with_rows(canvas, pictures, n - 1), row_tiles(pictures, n - 1), n - 1, 6)
    }
}

/// The first rows of an atlas show their tiles: each opaque pixel is there.
pub open spec fn shows_rows(r: Image, pictures: Seq<Picture>, n: int) -> bool {
    forall|row: int, c: int, x: int, y: int|
        0 <= row < n && 0 <= c < 6 && 0 <= x < TILE_PX && 0 <= y < TILE_PX && (#[trigger] row_tiles(
            pictures,
            row,
        )[c].at(x, y)).3 == 255 ==> r.at(c * TILE_PX + x, row * TILE_PX + y) == row_tiles(
            pictures,
            row,
        )[c].at(x, y)
}

fn tile_from(p: &Picture) -> (r: Picture)
    requires
        p@.wf(),
        p.width > 0 && p.height > 0,
        16 * (p.width * TILE_PX) <= isize::MAX,
    ensures
        r@ == as_tile(p@),
        is_tile(r@),
{
    p.resized_to(TILE_PX, TILE_PX)
}

/// Puts the atlas together: six pictures a block, in the order of the atlas
/// columns, one row a block. Pictures of another size are brought to the size
/// of a tile. Every opaque pixel of a tile is in its place.
pub fn assemble_atlas(pictures: &Vec<Picture>) -> (r: Picture)
    requires
        pictures@.len() > 0,
        pictures@.len() % 6 == 0,
        forall|k: int|
            #![trigger pictures@[k]]
            0 <= k < pictures@.len() ==> pictures@[k]@.wf() && pictures@[k].width > 0
                && pictures@[k].height > 0 && 16 * (pictures@[k].width * TILE_PX) <= isize::MAX,
        pictures@.len() / 6 * TILE_PX <= u32::MAX,
        4 * (ATLAS_WIDTH * (pictures@.len() / 6 * TILE_PX)) <= usize::MAX,
    ensures
        r@ == with_rows(
            blank_image(ATLAS_WIDTH, (pictures@.len() / 6 * TILE_PX) as u32),
            pictures@,
            pictures@.len() as int / 6,
        ),
        r@.wf(),
        r.width == ATLAS_WIDTH && r.height == pictures@.len() / 6 * TILE_PX,
        shows_rows(r@, pictures@, pictures@.len() as int / 6),
{
    let total: usize = pictures.len();
    let rows: usize = total / 6;
    let mut out: Picture = Picture::blank(ATLAS_WIDTH, rows as u32 * TILE_PX);
    let ghost canvas = out@;
    let mut row: usize = 0;
    while row < rows
        invariant
            total == pictures@.len(),
            6 * rows == total,
            row <= rows,
            rows * TILE_PX <= u32::MAX,
            forall|k: int|
                #![trigger pictures@[k]]
                0 <= k < pictures@.len() ==> pictures@[k]@.wf() && pictures@[k].width > 0
                    && pictures@[k].height > 0 && 16 * (pictures@[k].width * TILE_PX) <= isize::MAX,
            canvas.width == ATLAS_WIDTH && canvas.height == rows * TILE_PX,
            out@ == with_rows(canvas, pictures@, row as int),
            out@.wf() && out.width == canvas.width && out.height == canvas.height,
            shows_rows(out@, pictures@, row as int),
        decreases rows - row,
    {
        let mut tiles: Vec<Picture> = Vec::new();
        let mut c: usize = 0;
        while c < 6
            invariant
                total == pictures@.len(),
                6 * rows == total,
                row < rows,
                c <= 6,
                forall|k: int|
                    #![trigger pictures@[k]]
                    0 <= k < pictures@.len() ==> pictures@[k]@.wf() && pictures@[k].width > 0
                        && pictures@[k].height > 0 && 16 * (pictures@[k].width * TILE_PX)
                        <= isize::MAX,
                tiles@.len() == c,
                forall|k: int|
                    0 <= k < c ==> (#[trigger] tiles@[k])@ == as_tile(pictures@[6 * row + k]@)
                        && is_tile(tiles@[k]@),
            decreases 6 - c,
        {
            let tile = tile_from(&pictures[6 * row + c]);
            tiles.push(tile);
            c = c + 1;
        }
        let ghost before = out@;
        assert(six_tiles(tiles@, 0) =~= row_tiles(pictures@, row as int));
        out = put_row(out, &tiles, 0, row as u32);
        assert forall|k: int, c: int, x: int, y: int|
            0 <= k < row + 1 && 0 <= c < 6 && 0 <= x < TILE_PX && 0 <= y < TILE_PX && (
            #[trigger] row_tiles(pictures@, k)[c].at(x, y)).3 == 255 implies out@.at(
            c * TILE_PX + x,
            k * TILE_PX + y,
        ) == row_tiles(pictures@, k)[c].at(x, y) by {
            let i = c * TILE_PX + x;
            let j = k * TILE_PX + y;
            if k < row {
                assert(before.has(i, j));
                assert(!in_row(i, j, row as int));
                assert(out@.at(i, j) == before.at(i, j));
            }
        }
        row = row + 1;
    }
    out
}

/// The cross of the template: three cells wide and four high, with the top, the
/// front, the bottom and the back below one another in the middle, and the two
/// other sides beside the front.
pub proof fn law_template_is_a_cross(t: Image, x: int, y: int)
    requires
        t.width / 3 > 0 && t.height / 4 > 0,
        0 <= x < t.width / 3,
        0 <= y < t.height / 4,
    ensures
        ({
            let (w, h) = ((t.width / 3) as int, (t.height / 4) as int);
            &&& template_cell(t, 0).at(x, y) == t.at(w + x, y)
            &&& template_cell(t, 3).at(x, y) == t.at(w + x, h + y)
            &&& template_cell(t, 1).at(x, y) == t.at(w + x, 2 * h + y)
            &&& template_cell(t, 2).at(x, y) == t.at(w + x, 3 * h + y)
            &&& template_cell(t, 4).at(x, y) == t.at(2 * w + x, h + y)
            &&& template_cell(t, 5).at(x, y) == t.at(x, h + y)
        }),
{
    let (w, h) = (t.width / 3, t.height / 4);
    law_parts_show_their_place(t, 1 * w as int, 0 * h as int, w, h, x, y);
    law_parts_show_their_place(t, 1 * w as int, 1 * h as int, w, h, x, y);
    law_parts_show_their_place(t, 1 * w as int, 2 * h as int, w, h, x, y);
    law_parts_show_their_place(t, 1 * w as int, 3 * h as int, w, h, x, y);
    law_parts_show_their_place(t, 2 * w as int, 1 * h as int, w, h, x, y);
    law_parts_show_their_place(t, 0 * w as int, 1 * h as int, w, h, x, y);
}

/// An atlas never loses a whole row of tiles or a column, has room for the new
/// row, and is no higher than both ask for.
pub proof fn law_atlas_grows_just_enough(width: u32, height: u32, row: u32)
    ensures
        ({
            let (w, h) = grown_size(width, height, row);
            &&& w >= width && w >= 96 && (w == width || w == 96)
            &&& h >= (row + 1) * 16 && h >= height - 15 && h % 16 == 0
            &&& h == (row + 1) * 16 || h <= height
        }),
{
}

/// A list of blocks names one on each line that is neither blank nor a comment,
/// without the space around it, in the order of the lines.
pub proof fn law_block_lists_read_line_by_line(s: Seq<char>, a: int)
    requires
        0 <= a < s.len(),
    ensures
        ({
            let line = trimmed(line_at(s, a));
            let rest = blocks_from(s, line_end(s, a) + 1);
            &&& line.len() > 0 && line[0] != '#' ==> blocks_from(s, a).len() == rest.len() + 1
                && blocks_from(s, a)[0] == line && blocks_from(s, a).skip(1) == rest
            &&& line.len() == 0 || line[0] == '#' ==> blocks_from(s, a) == rest
        }),
{
    let line = trimmed(line_at(s, a));
    let rest = blocks_from(s, line_end(s, a) + 1);
    if line.len() > 0 && line[0] != '#' {
        assert((seq![line] + rest).skip(1) =~= rest);
    }
}

/// The picture files of a block are named after its faces.
pub proof fn law_faces_are_called_by_name()
    ensures
        face_name(Face::Top) == "top"@,
        face_name(Face::Bottom) == "bottom"@,
        face_name(Face::North) == "north"@,
        face_name(Face::South) == "south"@,
        face_name(Face::East) == "east"@,
        face_name(Face::West) == "west"@,
{
}

/// The atlas shows its pictures in their order, six to a row: a picture of the
/// size of a tile and without transparency is found again at its place.
pub proof fn law_atlas_shows_pictures_in_order(
    r: Image,
    pictures: Seq<Picture>,
    rows: int,
    k: int,
    x: int,
    y: int,
)
    requires
        shows_rows(r, pictures, rows),
        0 <= k < 6 * rows,
        pictures[k].width == 16 && pictures[k].height == 16,
        0 <= x < 16,
        0 <= y < 16,
        pictures[k]@.at(x, y).3 == 255,
    ensures
        r.at(16 * (k % 6) + x, 16 * (k / 6) + y) == pictures[k]@.at(x, y),
{
    let row = k / 6;
    let c = k % 6;
    assert(6 * row + c == k);
    assert(row_tiles(pictures, row)[c] == pictures[k]@);
    assert(row_tiles(pictures, row)[c].at(x, y).3 == 255);
}

} // verus!
