//! What the overlay writes: a bitmap font, a seven segment display, and the
//! texts of the panels. Where the pixels end up on the screen is not decided
//! here.
use crate::logic::menu::GameMode;
use crate::text::{decimal, push_decimal, push_signed, same_text, signed_decimal};
use vstd::prelude::*;
use vstd::string::StrSliceExecFns;
use vstd::string::StringExecFns;

verus! {

/// Rows of a glyph.
pub const GLYPH_ROWS: usize = 7;

/// Columns of a glyph.
pub const GLYPH_COLUMNS: usize = 5;

/// Characters that have a glyph of their own.
pub const GLYPH_COUNT: usize = 84;

/// The glyphs, ordered by character. A glyph is seven rows from top to bottom,
/// a row five bits from left to right.
pub const GLYPHS: [(char, [u8; 7]); 84] = [
    (' ', [0b00000, 0b00000, 0b00000, 0b00000, 0b00000, 0b00000, 0b00000]),
    ('+', [0b00000, 0b00100, 0b00100, 0b11111, 0b00100, 0b00100, 0b00000]),
    ('-', [0b00000, 0b00000, 0b00000, 0b11111, 0b00000, 0b00000, 0b00000]),
    ('.', [0b00000, 0b00000, 0b00000, 0b00000, 0b00000, 0b00000, 0b00100]),
    ('/', [0b00001, 0b00010, 0b00010, 0b00100, 0b01000, 0b01000, 0b10000]),
    ('0', [0b01110, 0b10001, 0b10011, 0b10101, 0b11001, 0b10001, 0b01110]),
    ('1', [0b00100, 0b01100, 0b00100, 0b00100, 0b00100, 0b00100, 0b01110]),
    ('2', [0b01110, 0b10001, 0b00001, 0b00110, 0b01000, 0b10000, 0b11111]),
    ('3', [0b11111, 0b00001, 0b00010, 0b00110, 0b00001, 0b10001, 0b01110]),
    ('4', [0b00010, 0b00110, 0b01010, 0b10010, 0b11111, 0b00010, 0b00010]),
    ('5', [0b11111, 0b10000, 0b11110, 0b00001, 0b00001, 0b10001, 0b01110]),
    ('6', [0b00110, 0b01000, 0b10000, 0b11110, 0b10001, 0b10001, 0b01110]),
    ('7', [0b11111, 0b00001, 0b00010, 0b00100, 0b00100, 0b00100, 0b00100]),
    ('8', [0b01110, 0b10001, 0b10001, 0b01110, 0b10001, 0b10001, 0b01110]),
    ('9', [0b01110, 0b10001, 0b10001, 0b01111, 0b00001, 0b00010, 0b01100]),
    (':', [0b00000, 0b00100, 0b00000, 0b00000, 0b00000, 0b00100, 0b00000]),
    ('<', [0b00010, 0b00100, 0b01000, 0b10000, 0b01000, 0b00100, 0b00010]),
    ('>', [0b01000, 0b00100, 0b00010, 0b00001, 0b00010, 0b00100, 0b01000]),
    ('A', [0b01110, 0b10001, 0b10001, 0b11111, 0b10001, 0b10001, 0b10001]),
    ('B', [0b11110, 0b10001, 0b10001, 0b11110, 0b10001, 0b10001, 0b11110]),
    ('C', [0b01110, 0b10001, 0b10000, 0b10000, 0b10000, 0b10001, 0b01110]),
    ('D', [0b11100, 0b10010, 0b10001, 0b10001, 0b10001, 0b10010, 0b11100]),
    ('E', [0b11111, 0b10000, 0b10000, 0b11110, 0b10000, 0b10000, 0b11111]),
    ('F', [0b11111, 0b10000, 0b10000, 0b11110, 0b10000, 0b10000, 0b10000]),
    ('G', [0b01110, 0b10001, 0b10000, 0b10111, 0b10001, 0b10001, 0b01111]),
    ('H', [0b10001, 0b10001, 0b10001, 0b11111, 0b10001, 0b10001, 0b10001]),
    ('I', [0b11111, 0b00100, 0b00100, 0b00100, 0b00100, 0b00100, 0b11111]),
    ('J', [0b00111, 0b00010, 0b00010, 0b00010, 0b10010, 0b10010, 0b01100]),
    ('K', [0b10001, 0b10010, 0b10100, 0b11000, 0b10100, 0b10010, 0b10001]),
    ('L', [0b10000, 0b10000, 0b10000, 0b10000, 0b10000, 0b10000, 0b11111]),
    ('M', [0b10001, 0b11011, 0b10101, 0b10101, 0b10001, 0b10001, 0b10001]),
    ('N', [0b10001, 0b11001, 0b10101, 0b10011, 0b10001, 0b10001, 0b10001]),
    ('O', [0b01110, 0b10001, 0b10001, 0b10001, 0b10001, 0b10001, 0b01110]),
    ('P', [0b11110, 0b10001, 0b10001, 0b11110, 0b10000, 0b10000, 0b10000]),
    ('Q', [0b01110, 0b10001, 0b10001, 0b10001, 0b10101, 0b10010, 0b01101]),
    ('R', [0b11110, 0b10001, 0b10001, 0b11110, 0b10100, 0b10010, 0b10001]),
    ('S', [0b01111, 0b10000, 0b10000, 0b01110, 0b00001, 0b00001, 0b11110]),
    ('T', [0b11111, 0b00100, 0b00100, 0b00100, 0b00100, 0b00100, 0b00100]),
    ('U', [0b10001, 0b10001, 0b10001, 0b10001, 0b10001, 0b10001, 0b01110]),
    ('V', [0b10001, 0b10001, 0b10001, 0b10001, 0b10001, 0b01010, 0b00100]),
    ('W', [0b10001, 0b10001, 0b10001, 0b10101, 0b10101, 0b11011, 0b10001]),
    ('X', [0b10001, 0b01010, 0b00100, 0b00100, 0b00100, 0b01010, 0b10001]),
    ('Y', [0b10001, 0b10001, 0b01010, 0b00100, 0b00100, 0b00100, 0b00100]),
    ('Z', [0b11111, 0b00001, 0b00010, 0b00100, 0b01000, 0b10000, 0b11111]),
    ('a', [0b00000, 0b00000, 0b01110, 0b00001, 0b01111, 0b10001, 0b01111]),
    ('b', [0b10000, 0b10000, 0b11110, 0b10001, 0b10001, 0b10001, 0b11110]),
    ('c', [0b00000, 0b00000, 0b01111, 0b10000, 0b10000, 0b10000, 0b01111]),
    ('d', [0b00001, 0b00001, 0b01111, 0b10001, 0b10001, 0b10001, 0b01111]),
    ('e', [0b00000, 0b00000, 0b01110, 0b10001, 0b11111, 0b10000, 0b01111]),
    ('f', [0b00110, 0b01001, 0b01000, 0b11100, 0b01000, 0b01000, 0b01000]),
    ('g', [0b00000, 0b00000, 0b01111, 0b10001, 0b01111, 0b00001, 0b01110]),
    ('h', [0b10000, 0b10000, 0b11110, 0b10001, 0b10001, 0b10001, 0b10001]),
    ('i', [0b00100, 0b00000, 0b00100, 0b00100, 0b00100, 0b00100, 0b00100]),
    ('j', [0b00010, 0b00000, 0b00010, 0b00010, 0b00010, 0b10010, 0b01100]),
    ('k', [0b10000, 0b10000, 0b10010, 0b10100, 0b11000, 0b10100, 0b10010]),
    ('l', [0b01000, 0b01000, 0b01000, 0b01000, 0b01000, 0b01000, 0b00111]),
    ('m', [0b00000, 0b00000, 0b11011, 0b10101, 0b10101, 0b10101, 0b10101]),
    ('n', [0b00000, 0b00000, 0b10110, 0b11001, 0b10001, 0b10001, 0b10001]),
    ('o', [0b00000, 0b00000, 0b01110, 0b10001, 0b10001, 0b10001, 0b01110]),
    ('p', [0b00000, 0b00000, 0b11110, 0b10001, 0b10001, 0b11110, 0b10000]),
    ('q', [0b00000, 0b00000, 0b01111, 0b10001, 0b10001, 0b01111, 0b00001]),
    ('r', [0b00000, 0b00000, 0b10110, 0b11001, 0b10000, 0b10000, 0b10000]),
    ('s', [0b00000, 0b00000, 0b01111, 0b10000, 0b01110, 0b00001, 0b11110]),
    ('t', [0b01000, 0b11111, 0b01000, 0b01000, 0b01000, 0b01001, 0b00110]),
    ('u', [0b00000, 0b00000, 0b10001, 0b10001, 0b10001, 0b10011, 0b01101]),
    ('v', [0b00000, 0b00000, 0b10001, 0b10001, 0b10001, 0b01010, 0b00100]),
    ('w', [0b00000, 0b00000, 0b10001, 0b10001, 0b10101, 0b10101, 0b01010]),
    ('x', [0b00000, 0b00000, 0b10001, 0b01010, 0b00100, 0b01010, 0b10001]),
    ('y', [0b00000, 0b00000, 0b10001, 0b10001, 0b01111, 0b00001, 0b01110]),
    ('z', [0b00000, 0b00000, 0b11111, 0b00010, 0b00100, 0b01000, 0b11111]),
    ('Á', [0b00010, 0b10001, 0b10001, 0b11111, 0b10001, 0b10001, 0b10001]),
    ('É', [0b00010, 0b10000, 0b10000, 0b11110, 0b10000, 0b10000, 0b11111]),
    ('Í', [0b00010, 0b00100, 0b00100, 0b00100, 0b00100, 0b00100, 0b11111]),
    ('Ñ', [0b01010, 0b11001, 0b10101, 0b10011, 0b10001, 0b10001, 0b10001]),
    ('Ó', [0b00010, 0b10001, 0b10001, 0b10001, 0b10001, 0b10001, 0b01110]),
    ('Ú', [0b00010, 0b10001, 0b10001, 0b10001, 0b10001, 0b10001, 0b01110]),
    ('Ü', [0b01010, 0b10001, 0b10001, 0b10001, 0b10001, 0b10001, 0b01110]),
    ('á', [0b00000, 0b00010, 0b01110, 0b00001, 0b01111, 0b10001, 0b01111]),
    ('é', [0b00000, 0b00010, 0b01110, 0b10001, 0b11111, 0b10000, 0b01111]),
    ('í', [0b00010, 0b00000, 0b00100, 0b00100, 0b00100, 0b00100, 0b00100]),
    ('ñ', [0b01010, 0b00000, 0b10110, 0b11001, 0b10001, 0b10001, 0b10001]),
    ('ó', [0b00000, 0b00010, 0b01110, 0b10001, 0b10001, 0b10001, 0b01110]),
    ('ú', [0b00000, 0b00010, 0b10001, 0b10001, 0b10001, 0b10011, 0b01101]),
    ('ü', [0b00000, 0b01010, 0b10001, 0b10001, 0b10001, 0b10011, 0b01101]),
];

/// The box that stands for every other character.
pub const BOX_GLYPH: [u8; 7] = [
    0b11111, 0b10001, 0b10001, 0b10001, 0b10001, 0b10001, 0b11111,
];

/// The glyph of a character among those from an index on.
pub open spec fn glyph_from(c: char, i: int) -> Seq<u8>
    decreases GLYPH_COUNT - i,
{
    if i < 0 || i >= GLYPH_COUNT {
        BOX_GLYPH@
    } else if GLYPHS@[i].0 == c {
        GLYPHS@[i].1@
    } else {
        glyph_from(c, i + 1)
    }
}

/// The glyph of a character.
pub open spec fn glyph(c: char) -> Seq<u8> {
    glyph_from(c, 0)
}

/// The glyph that a character is drawn with.
pub fn char_bitmap(c: char) -> (r: [u8; 7])
    ensures
        r@ == glyph(c),
{
    let mut i: usize = 0;
    while i < GLYPH_COUNT
        invariant
            i <= GLYPH_COUNT,
            glyph(c) == glyph_from(c, i as int),
        decreases GLYPH_COUNT - i,
    {
        if GLYPHS[i].0 == c {
            return GLYPHS[i].1;
        }
        i = i + 1;
    }
    BOX_GLYPH
}

/// The characters of the table ascend.
proof fn lemma_glyphs_ascend(i: int)
    requires
        0 <= i < GLYPH_COUNT - 1,
    ensures
        GLYPHS@[i].0 < GLYPHS@[i + 1].0,
{
}

proof fn lemma_glyphs_differ(i: int, j: int)
    requires
        0 <= i < j < GLYPH_COUNT,
    ensures
        GLYPHS@[i].0 < GLYPHS@[j].0,
    decreases j - i,
{
    lemma_glyphs_ascend(j - 1);
    if i < j - 1 {
        lemma_glyphs_differ(i, j - 1);
    }
}

proof fn lemma_glyph_found(i: int, k: int)
    requires
        0 <= k <= i < GLYPH_COUNT,
    ensures
        glyph_from(GLYPHS@[i].0, k) == GLYPHS@[i].1@,
    decreases i - k,
{
    if k < i {
        lemma_glyphs_differ(k, i);
        lemma_glyph_found(i, k + 1);
    }
}

/// Every character of the table is drawn with its own glyph, and no glyph is
/// wider than its cell.
pub proof fn law_listed_characters_have_their_glyphs(i: int, row: int)
    requires
        0 <= i < GLYPH_COUNT,
        0 <= row < GLYPH_ROWS,
    ensures
        glyph(GLYPHS@[i].0) == GLYPHS@[i].1@,
        GLYPHS@[i].1@[row] < 32,
{
    lemma_glyph_found(i, 0);
}

/// The letter under an accent, and the row that the accent takes.
pub open spec fn plain_letter(c: char) -> Option<(char, int)> {
    match c {
        'Á' => Some(('A', 0)),
        'É' => Some(('E', 0)),
        'Í' => Some(('I', 0)),
        'Ñ' => Some(('N', 0)),
        'Ó' => Some(('O', 0)),
        'Ú' => Some(('U', 0)),
        'Ü' => Some(('U', 0)),
        'í' => Some(('i', 0)),
        'ñ' => Some(('n', 0)),
        'á' => Some(('a', 1)),
        'é' => Some(('e', 1)),
        'ó' => Some(('o', 1)),
        'ú' => Some(('u', 1)),
        'ü' => Some(('u', 1)),
        _ => None,
    }
}

/// Where the glyphs of an accented letter and of the letter under it stand.
spec fn accent_places(c: char) -> (int, int) {
    match c {
        'Á' => (70, 18),
        'É' => (71, 22),
        'Í' => (72, 26),
        'Ñ' => (73, 31),
        'Ó' => (74, 32),
        'Ú' => (75, 38),
        'Ü' => (76, 38),
        'í' => (79, 52),
        'ñ' => (80, 57),
        'á' => (77, 44),
        'é' => (78, 48),
        'ó' => (81, 58),
        'ú' => (82, 64),
        'ü' => (83, 64),
        _ => (0, 0),
    }
}

/// An accented letter keeps all rows of its letter but the one that the accent
/// takes. A small letter with a free second row takes that one.
pub proof fn law_accents_keep_their_letter(c: char, row: int)
    requires
        plain_letter(c) is Some,
        0 <= row < GLYPH_ROWS,
    ensures
        ({
            let (letter, mark) = plain_letter(c)->0;
            &&& row != mark ==> glyph(c)[row] == glyph(letter)[row]
            &&& glyph(c)[mark] != 0
            &&& mark == 1 ==> glyph(letter)[mark] == 0
        }),
{
    let (i, j) = accent_places(c);
    lemma_glyph_found(i, 0);
    lemma_glyph_found(j, 0);
    let (letter, mark) = plain_letter(c)->0;
    assert(GLYPHS@[i].0 == c && GLYPHS@[j].0 == letter);
}

/// Whether a pixel of a glyph is set.
pub open spec fn is_lit(g: Seq<u8>, row: int, col: int) -> bool {
    g[row] & (16u8 >> (col as u32)) != 0
}

/// A pixel of a text: the place of its character and its place in the glyph.
#[derive(Clone, Copy, Debug, PartialEq, Eq, Structural)]
pub struct Pixel {
    pub index: usize,
    pub row: u32,
    pub col: u32,
}

/// The set pixels of a glyph among its first cells, in reading order.
pub open spec fn glyph_pixels(g: Seq<u8>, index: usize, cells: int) -> Seq<Pixel>
    decreases cells,
{
    if cells <= 0 {
        Seq::empty()
    } else {
        let row = (cells - 1) / 5;
        let col = (cells - 1) % 5;
        let front = glyph_pixels(g, index, cells - 1);
        if is_lit(g, row, col) {
            front.push(Pixel { index, row: row as u32, col: col as u32 })
        } else {
            front
        }
    }
}

/// The set pixels of the first characters of a text, character by character.
pub open spec fn text_pixels_of(s: Seq<char>, n: int) -> Seq<Pixel>
    decreases n,
{
    if n <= 0 {
        Seq::empty()
    } else {
        text_pixels_of(s, n - 1) + glyph_pixels(glyph(s[n - 1]), (n - 1) as usize, 35)
    }
}

fn push_glyph(out: &mut Vec<Pixel>, bitmap: [u8; 7], index: usize)
    ensures
        final(out)@ == old(out)@ + glyph_pixels(bitmap@, index, 35),
{
    let mut row: u32 = 0;
    assert(out@ + glyph_pixels(bitmap@, index, 0) =~= out@);
    while row < 7
        invariant
            row <= 7,
            out@ == old(out)@ + glyph_pixels(bitmap@, index, row * 5),
        decreases 7 - row,
    {
        let bits: u8 = bitmap[row as usize];
        let mut col: u32 = 0;
        while col < 5
            invariant
                row < 7,
                col <= 5,
                bits == bitmap@[row as int],
                out@ == old(out)@ + glyph_pixels(bitmap@, index, row * 5 + col),
            decreases 5 - col,
        {
            let ghost before = out@;
            let ghost cells = row * 5 + col + 1;
            assert((cells - 1) / 5 == row && (cells - 1) % 5 == col);
            if bits & (16u8 >> col) != 0 {
                out.push(Pixel { index, row, col });
                assert(out@ =~= old(out)@ + glyph_pixels(bitmap@, index, cells));
            }
            col = col + 1;
        }
        row = row + 1;
    }
}

/// The pixels that a text is drawn with: one for every set pixel of every
/// glyph, in the order of the text and from top to bottom.
pub fn text_pixels(text: &str) -> (r: Vec<Pixel>)
    ensures
        r@ == text_pixels_of(text@, text@.len() as int),
{
    let n: usize = text.unicode_len();
    let mut out: Vec<Pixel> = Vec::new();
    let mut i: usize = 0;
    while i < n
        invariant
            n == text@.len(),
            i <= n,
            out@ == text_pixels_of(text@, i as int),
        decreases n - i,
    {
        let bitmap: [u8; 7] = char_bitmap(text.get_char(i));
        push_glyph(&mut out, bitmap, i);
        i = i + 1;
    }
    out
}

proof fn lemma_glyph_pixels(g: Seq<u8>, index: usize, cells: int)
    requires
        cells <= 35,
    ensures
        forall|k: int| 0 <= k < glyph_pixels(g, index, cells).len() ==> {
            let p = #[trigger] glyph_pixels(g, index, cells)[k];
            p.index == index && p.row < 7 && p.col < 5 && is_lit(g, p.row as int, p.col as int)
        },
    decreases cells,
{
    if cells > 0 {
        lemma_glyph_pixels(g, index, cells - 1);
        let front = glyph_pixels(g, index, cells - 1);
        assert forall|k: int| 0 <= k < glyph_pixels(g, index, cells).len() implies {
            let p = #[trigger] glyph_pixels(g, index, cells)[k];
            p.index == index && p.row < 7 && p.col < 5 && is_lit(g, p.row as int, p.col as int)
        } by {
            if k < front.len() {
                assert(glyph_pixels(g, index, cells)[k] == front[k]);
            }
        }
    }
}

proof fn lemma_text_pixels(s: Seq<char>, n: int)
    requires
        n <= s.len() <= usize::MAX,
    ensures
        forall|k: int| 0 <= k < text_pixels_of(s, n).len() ==> {
            let p = #[trigger] text_pixels_of(s, n)[k];
            p.index < n && p.row < 7 && p.col < 5 && is_lit(
                glyph(s[p.index as int]),
                p.row as int,
                p.col as int,
            )
        },
    decreases n,
{
    if n > 0 {
        lemma_text_pixels(s, n - 1);
        lemma_glyph_pixels(glyph(s[n - 1]), (n - 1) as usize, 35);
        let front = text_pixels_of(s, n - 1);
        let last = glyph_pixels(glyph(s[n - 1]), (n - 1) as usize, 35);
        assert forall|k: int| 0 <= k < text_pixels_of(s, n).len() implies {
            let p = #[trigger] text_pixels_of(s, n)[k];
            p.index < n && p.row < 7 && p.col < 5 && is_lit(
                glyph(s[p.index as int]),
                p.row as int,
                p.col as int,
            )
        } by {
            if k < front.len() {
                assert(text_pixels_of(s, n)[k] == front[k]);
            } else {
                assert(text_pixels_of(s, n)[k] == last[k - front.len()]);
            }
        }
    }
}

/// Only set pixels of the text's own characters are drawn.
pub proof fn law_pixels_belong_to_the_text(s: Seq<char>, k: int)
    requires
        s.len() <= usize::MAX,
        0 <= k < text_pixels_of(s, s.len() as int).len(),
    ensures
        ({
            let p = text_pixels_of(s, s.len() as int)[k];
            p.index < s.len() && p.row < GLYPH_ROWS && p.col < GLYPH_COLUMNS && is_lit(
                glyph(s[p.index as int]),
                p.row as int,
                p.col as int,
            )
        }),
{
    lemma_text_pixels(s, s.len() as int);
}

/// Width of a pixel of the plain font, on the screen.
pub const FONT_SCALE: u32 = 3;

/// Gap between characters of the plain font, in its pixels.
pub const FONT_GAP: u32 = 2;

/// Width of a pixel of the large font, on the screen.
pub const FONT_LARGE_SCALE: u32 = 5;

/// Gap between characters of the large font, in its pixels.
pub const FONT_LARGE_GAP: u32 = 3;

/// The width of so many characters: five pixels each, and a gap between any
/// two.
pub open spec fn width_of(chars: nat, scale: nat, gap: nat) -> int {
    if chars == 0 {
        0
    } else {
        chars * (5 * scale) + (chars - 1) * (gap * scale)
    }
}

/// The width of a text in the plain font, on the screen.
pub fn text_width(text: &str) -> (r: u128)
    ensures
        r == width_of(text@.len(), FONT_SCALE as nat, FONT_GAP as nat),
{
    let n: usize = text.unicode_len();
    if n == 0 {
        return 0;
    }
    n as u128 * 15 + (n as u128 - 1) * 6
}

/// The width of a text in the large font, on the screen.
pub fn text_width_large(text: &str) -> (r: u128)
    ensures
        r == width_of(text@.len(), FONT_LARGE_SCALE as nat, FONT_LARGE_GAP as nat),
{
    let n: usize = text.unicode_len();
    if n == 0 {
        return 0;
    }
    n as u128 * 25 + (n as u128 - 1) * 15
}

/// The segments of a digit, in the order top, upper left, upper right, middle,
/// lower left, lower right, bottom.
pub const SEGMENTS_BY_DIGIT: [[bool; 7]; 10] = [
    [true, true, true, false, true, true, true],
    [false, false, true, false, false, true, false],
    [true, false, true, true, true, false, true],
    [true, false, true, true, false, true, true],
    [false, true, true, true, false, true, false],
    [true, true, false, true, false, true, true],
    [true, true, false, true, true, true, true],
    [true, false, true, false, false, true, false],
    [true, true, true, true, true, true, true],
    [true, true, true, true, false, true, true],
];

/// The segments that show a digit. What is no digit is shown as a nine.
pub fn digit_segments(digit: u8) -> (r: [bool; 7])
    ensures
        r@ == SEGMENTS_BY_DIGIT@[if digit < 9 {
            digit as int
        } else {
            9
        }]@,
{
    let d: usize = if digit < 9 {
        digit as usize
    } else {
        9
    };
    SEGMENTS_BY_DIGIT[d]
}

/// No two digits look alike.
pub proof fn law_digits_look_different(a: int, b: int)
    requires
        0 <= a < b < 10,
    ensures
        SEGMENTS_BY_DIGIT@[a]@ != SEGMENTS_BY_DIGIT@[b]@,
{
    let s = SEGMENTS_BY_DIGIT@[a]@;
    let t = SEGMENTS_BY_DIGIT@[b]@;
    assert(s[0] != t[0] || s[1] != t[1] || s[2] != t[2] || s[3] != t[3] || s[4] != t[4] || s[5]
        != t[5] || s[6] != t[6]);
}

/// The digits of a number, most significant first.
pub open spec fn digits(n: nat) -> Seq<u8>
    decreases n,
{
    if n < 10 {
        seq![n as u8]
    } else {
        digits(n / 10).push((n % 10) as u8)
    }
}

/// The number that the frame counter shows: kept between nothing and 999.
pub open spec fn shown_rate(rate: int) -> nat {
    if rate < 0 {
        0
    } else if rate > 999 {
        999
    } else {
        rate as nat
    }
}

/// The digits of the frame counter.
pub fn fps_digits(rate: i32) -> (r: Vec<u8>)
    ensures
        r@ == digits(shown_rate(rate as int)),
{
    let v: u32 = if rate < 0 {
        0
    } else if rate > 999 {
        999
    } else {
        rate as u32
    };
    reveal_with_fuel(digits, 3);
    let mut out: Vec<u8> = Vec::new();
    if v >= 100 {
        out.push((v / 100) as u8);
    }
    if v >= 10 {
        out.push((v / 10 % 10) as u8);
    }
    out.push((v % 10) as u8);
    assert(out@ =~= digits(v as nat)) by {
        if v >= 100 {
            assert(v / 10 / 10 == v / 100);
            assert(digits((v / 100) as nat) =~= seq![(v / 100) as u8]);
        }
    }
    out
}

pub open spec fn upper_char(c: char) -> char {
    if 'a' <= c <= 'z' {
        (c as u32 - 32) as char
    } else {
        c
    }
}

/// A text with its ASCII letters in capitals.
pub open spec fn upper(s: Seq<char>) -> Seq<char> {
    s.map_values(|c: char| upper_char(c))
}

fn to_upper(c: char) -> (r: char)
    ensures
        r == upper_char(c),
{
    if 'a' <= c && c <= 'z' {
        (c as u8 - 32) as char
    } else {
        c
    }
}

/// The text with its ASCII letters in capitals.
pub fn upper_text(text: &str) -> (r: String)
    ensures
        r@ == upper(text@),
{
    let n: usize = text.unicode_len();
    let mut out: String = String::new();
    let mut i: usize = 0;
    while i < n
        invariant
            n == text@.len(),
            i <= n,
            out@ == upper(text@).take(i as int),
        decreases n - i,
    {
        out.push(to_upper(text.get_char(i)));
        assert(out@ =~= upper(text@).take(i + 1));
        i = i + 1;
    }
    assert(out@ =~= upper(text@));
    out
}

/// Characters that a line of the debug panel has room for: a panel of 460
/// pixels less 10 on both sides, at 21 pixels a character.
pub const DEBUG_LINE_CHARS: usize = 20;

/// A line cut to the debug panel: what does not fit gives way to a mark.
pub open spec fn fitted(s: Seq<char>) -> Seq<char> {
    if s.len() > DEBUG_LINE_CHARS {
        s.take(DEBUG_LINE_CHARS - 1).push('>')
    } else {
        s
    }
}

/// A line as the debug panel shows it: cut to the panel and in capitals.
pub fn fit_line(line: &str) -> (r: String)
    ensures
        r@ == upper(fitted(line@)),
{
    let n: usize = line.unicode_len();
    if n > DEBUG_LINE_CHARS {
        let part: &str = line.substring_char(0, DEBUG_LINE_CHARS - 1);
        assert(part@ =~= line@.take(DEBUG_LINE_CHARS - 1));
        let mut shown: String = String::from_str(part);
        shown.push('>');
        upper_text(shown.as_str())
    } else {
        upper_text(line)
    }
}

/// A line of the debug panel always fits into it.
pub proof fn law_debug_lines_fit(s: Seq<char>)
    ensures
        upper(fitted(s)).len() <= DEBUG_LINE_CHARS,
        width_of(upper(fitted(s)).len(), FONT_SCALE as nat, FONT_GAP as nat) <= 460 - 2 * 10,
{
}

/// What the debug panel tells.
#[derive(Debug)]
pub struct DebugPanelData {
    /// The player's position, to one decimal and to two.
    pub position: String,
    pub exact_position: (String, String, String),
    pub chunk_pos: (i32, i32),
    /// The name and the cell of the block in view.
    pub looking_at: Option<(String, (i32, i32, i32))>,
    /// Frames per second, rounded.
    pub fps: i32,
    pub mode: GameMode,
    /// The file of the session log, if there is one.
    pub log_file: Option<String>,
}

/// The block in view, as the panel names it.
pub open spec fn looking_line(looking_at: Option<(String, (i32, i32, i32))>) -> Seq<char> {
    match looking_at {
        Some((label, cell)) => "MIRANDO: "@ + label@ + " "@ + signed_decimal(cell.0 as int) + " "@
            + signed_decimal(cell.1 as int) + " "@ + signed_decimal(cell.2 as int),
        None => "MIRANDO: NADA"@,
    }
}

/// The file of the session log, as the panel names it.
pub open spec fn log_hint(log_file: Option<String>) -> Seq<char> {
    match log_file {
        Some(path) => path@,
        None => "(no disponible)"@,
    }
}

/// The lines of the debug panel before they are cut.
pub open spec fn debug_line(d: DebugPanelData, i: int) -> Seq<char> {
    if i == 0 {
        "POS: "@ + d.position@
    } else if i == 1 {
        "CHUNK: "@ + signed_decimal(d.chunk_pos.0 as int) + " "@ + signed_decimal(
            d.chunk_pos.1 as int,
        )
    } else if i == 2 {
        looking_line(d.looking_at)
    } else if i == 3 {
        "MODO: "@ + d.mode.name()
    } else if i == 4 {
        "FPS: "@ + signed_decimal(d.fps as int)
    } else {
        "LOG: "@ + log_hint(d.log_file)
    }
}

/// Lines of the debug panel.
pub const DEBUG_PANEL_LINE_COUNT: usize = 6;

/// The lines of the debug panel: position, chunk, block in view, mode, frame
/// rate and log file.
pub fn debug_panel_lines(d: &DebugPanelData) -> (r: Vec<String>)
    ensures
        r@.len() == DEBUG_PANEL_LINE_COUNT,
        forall|i: int|
            0 <= i < DEBUG_PANEL_LINE_COUNT ==> (#[trigger] r@[i])@ == upper(
                fitted(debug_line(*d, i)),
            ),
{
    let mut pos: String = String::from_str("POS: ");
    pos.append(d.position.as_str());
    let mut chunk: String = String::from_str("CHUNK: ");
    push_signed(&mut chunk, d.chunk_pos.0);
    chunk.append(" ");
    push_signed(&mut chunk, d.chunk_pos.1);
    let mut looking: String = String::from_str("MIRANDO: NADA");
    if let Some((label, cell)) = &d.looking_at {
        looking = String::from_str("MIRANDO: ");
        looking.append(label.as_str());
        looking.append(" ");
        push_signed(&mut looking, cell.0);
        looking.append(" ");
        push_signed(&mut looking, cell.1);
        looking.append(" ");
        push_signed(&mut looking, cell.2);
    }
    let mut mode: String = String::from_str("MODO: ");
    mode.append(d.mode.label());
    let mut fps: String = String::from_str("FPS: ");
    push_signed(&mut fps, d.fps);
    let mut log: String = String::from_str("LOG: ");
    match &d.log_file {
        Some(path) => log.append(path.as_str()),
        None => log.append("(no disponible)"),
    }
    let mut out: Vec<String> = Vec::new();
    out.push(fit_line(pos.as_str()));
    out.push(fit_line(chunk.as_str()));
    out.push(fit_line(looking.as_str()));
    out.push(fit_line(mode.as_str()));
    out.push(fit_line(fps.as_str()));
    out.push(fit_line(log.as_str()));
    out
}

/// The block in view, as the snapshot names it.
pub open spec fn looking_text(looking_at: Option<(String, (i32, i32, i32))>) -> Seq<char> {
    match looking_at {
        Some((label, cell)) => label@ + " en ("@ + signed_decimal(cell.0 as int) + ", "@
            + signed_decimal(cell.1 as int) + ", "@ + signed_decimal(cell.2 as int) + ")"@,
        None => "nada al alcance"@,
    }
}

/// The snapshot of the debug panel for the clipboard.
pub open spec fn snapshot_text(d: DebugPanelData) -> Seq<char> {
    "=== Voxel Engine: snapshot de debug ===\nPosición: ("@ + d.exact_position.0@ + ", "@
        + d.exact_position.1@ + ", "@ + d.exact_position.2@ + ")\nChunk: ("@ + signed_decimal(
        d.chunk_pos.0 as int,
    ) + ", "@ + signed_decimal(d.chunk_pos.1 as int) + ")\nMirando: "@ + looking_text(d.looking_at)
        + "\nModo: "@ + d.mode.name() + "\nFPS: "@ + signed_decimal(d.fps as int)
        + "\nArchivo de log: "@ + log_hint(d.log_file) + "\n"@
}

/// The snapshot of the debug panel for the clipboard.
pub fn debug_snapshot(d: &DebugPanelData) -> (r: String)
    ensures
        r@ == snapshot_text(*d),
{
    let mut looking: String = String::from_str("nada al alcance");
    if let Some((label, cell)) = &d.looking_at {
        looking = String::from_str(label.as_str());
        looking.append(" en (");
        push_signed(&mut looking, cell.0);
        looking.append(", ");
        push_signed(&mut looking, cell.1);
        looking.append(", ");
        push_signed(&mut looking, cell.2);
        looking.append(")");
    }
    let mut out: String = String::from_str(
        "=== Voxel Engine: snapshot de debug ===\nPosición: (",
    );
    out.append(d.exact_position.0.as_str());
    out.append(", ");
    out.append(d.exact_position.1.as_str());
    out.append(", ");
    out.append(d.exact_position.2.as_str());
    out.append(")\nChunk: (");
    push_signed(&mut out, d.chunk_pos.0);
    out.append(", ");
    push_signed(&mut out, d.chunk_pos.1);
    out.append(")\nMirando: ");
    out.append(looking.as_str());
    out.append("\nModo: ");
    out.append(d.mode.label());
    out.append("\nFPS: ");
    push_signed(&mut out, d.fps);
    out.append("\nArchivo de log: ");
    match &d.log_file {
        Some(path) => out.append(path.as_str()),
        None => out.append("(no disponible)"),
    }
    out.append("\n");
    out
}

/// How long the debug panel shows that it was copied.
pub const DEBUG_COPY_FLASH_MS: u64 = 1200;

/// The copy button of the debug panel.
pub fn copy_button_label(flash: bool) -> (r: &'static str)
    ensures
        r@ == if flash {
            "COPIADO!"@
        } else {
            "COPIAR"@
        },
{
    if flash {
        "COPIADO!"
    } else {
        "COPIAR"
    }
}

/// The text beside a switch.
pub fn switch_label(is_on: bool) -> (r: &'static str)
    ensures
        r@ == if is_on {
            "ON"@
        } else {
            "OFF"@
        },
{
    if is_on {
        "ON"
    } else {
        "OFF"
    }
}

/// The name that the build overlay gives a platform.
pub open spec fn platform_name(os: Seq<char>) -> Seq<char> {
    if os == "windows"@ {
        "WINDOWS"@
    } else if os == "linux"@ {
        "LINUX"@
    } else if os == "android"@ {
        "ANDROID"@
    } else if os == "macos"@ {
        "MACOS"@
    } else if os == "ios"@ {
        "IOS"@
    } else if os.len() == 0 {
        "DESCONOCIDO"@
    } else {
        "OTRO"@
    }
}

/// The name that the build overlay gives the platform.
pub fn platform_label(os: &str) -> (r: &'static str)
    ensures
        r@ == platform_name(os@),
{
    if same_text(os, "windows") {
        "WINDOWS"
    } else if same_text(os, "linux") {
        "LINUX"
    } else if same_text(os, "android") {
        "ANDROID"
    } else if same_text(os, "macos") {
        "MACOS"
    } else if same_text(os, "ios") {
        "IOS"
    } else if os.unicode_len() == 0 {
        "DESCONOCIDO"
    } else {
        "OTRO"
    }
}

/// A page of the list of worlds.
#[derive(Clone, Copy, Debug, PartialEq, Eq, Structural)]
pub struct WorldPage {
    /// The page that is shown, from 0 on.
    pub page: usize,
    pub page_count: usize,
    /// The worlds on it: from the first up to, without, the second.
    pub start: usize,
    pub end: usize,
}

impl WorldPage {
    /// Whether there is a page before this one.
    pub fn has_previous(&self) -> (r: bool)
        ensures
            r == (self.page > 0),
    {
        self.page > 0
    }

    /// Whether there is a page after this one.
    pub fn has_next(&self) -> (r: bool)
        ensures
            r == (self.page + 1 < self.page_count),
    {
        self.page < self.page_count && self.page_count - self.page > 1
    }
}

/// The number of pages: enough for all worlds, and no page too many.
pub open spec fn page_count_of(worlds: int, rows: int) -> int {
    (worlds + rows - 1) / rows
}

/// The page of the list of worlds that is shown when one is asked for. A page
/// beyond the last gives the last. At least one row fits on a page.
pub fn world_page(worlds: usize, rows_per_page: usize, page: usize) -> (r: WorldPage)
    requires
        worlds > 0,
    ensures
        ({
            let rows = if rows_per_page == 0 {
                1
            } else {
                rows_per_page as int
            };
            &&& r.page_count == page_count_of(worlds as int, rows)
            &&& r.page == if page < r.page_count {
                page as int
            } else {
                r.page_count - 1
            }
            &&& r.start == r.page * rows
            &&& r.end == if r.start + rows < worlds {
                r.start + rows
            } else {
                worlds as int
            }
            &&& r.start < r.end
        }),
{
    let rows: usize = if rows_per_page == 0 {
        1
    } else {
        rows_per_page
    };
    let page_count: usize = (worlds - 1) / rows + 1;
    let shown: usize = if page < page_count {
        page
    } else {
        page_count - 1
    };
    proof {
        lemma_page(worlds as int, rows as int, shown as int);
    }
    let start: usize = shown * rows;
    let end: usize = if worlds - start > rows {
        start + rows
    } else {
        worlds
    };
    WorldPage { page: shown, page_count, start, end }
}

proof fn lemma_page(worlds: int, rows: int, page: int)
    by (nonlinear_arith)
    requires
        worlds > 0,
        rows > 0,
        0 <= page <= (worlds - 1) / rows,
    ensures
        page_count_of(worlds, rows) == (worlds - 1) / rows + 1,
        0 <= page * rows < worlds,
{
}

/// Every world is on exactly one page: the one that its place in the list
/// divided by the rows gives.
pub proof fn law_each_world_is_on_one_page(worlds: int, rows: int, world: int, page: int)
    requires
        rows > 0,
        0 <= world < worlds,
        0 <= page < page_count_of(worlds, rows),
    ensures
        0 <= world / rows < page_count_of(worlds, rows),
        page * rows <= world < page * rows + rows <==> page == world / rows,
{
    lemma_one_page(worlds, rows, world, page);
}

proof fn lemma_one_page(worlds: int, rows: int, world: int, page: int)
    by (nonlinear_arith)
    requires
        rows > 0,
        0 <= world < worlds,
        0 <= page,
    ensures
        0 <= world / rows < (worlds + rows - 1) / rows,
        page * rows <= world < page * rows + rows <==> page == world / rows,
{
}

/// The label of a page.
pub fn page_label(p: &WorldPage) -> (r: String)
    requires
        p.page < p.page_count,
    ensures
        r@ == "PAGINA "@ + decimal((p.page + 1) as nat) + "/"@ + decimal(p.page_count as nat),
{
    let mut out: String = String::from_str("PAGINA ");
    push_decimal(&mut out, p.page as u64 + 1);
    out.append("/");
    push_decimal(&mut out, p.page_count as u64);
    out
}

proof fn lemma_lit_pixel_is_listed(g: Seq<u8>, index: usize, cells: int, row: int, col: int)
    requires
        0 <= row < 7,
        0 <= col < 5,
        row * 5 + col < cells <= 35,
        is_lit(g, row, col),
    ensures
        glyph_pixels(g, index, cells).contains(
            Pixel { index, row: row as u32, col: col as u32 },
        ),
    decreases cells,
{
    let p = Pixel { index, row: row as u32, col: col as u32 };
    let front = glyph_pixels(g, index, cells - 1);
    let all = glyph_pixels(g, index, cells);
    if row * 5 + col == cells - 1 {
        assert((cells - 1) / 5 == row && (cells - 1) % 5 == col);
        assert(all[front.len() as int] == p);
    } else {
        lemma_lit_pixel_is_listed(g, index, cells - 1, row, col);
        let i = choose|i: int| 0 <= i < front.len() && front[i] == p;
        assert(all[i] == p);
    }
}

/// Every set pixel of every character of a text is drawn.
pub proof fn law_whole_text_is_drawn(s: Seq<char>, n: int, i: int, row: int, col: int)
    requires
        0 <= i < n <= s.len() <= usize::MAX,
        0 <= row < 7,
        0 <= col < 5,
        is_lit(glyph(s[i]), row, col),
    ensures
        text_pixels_of(s, n).contains(
            Pixel { index: i as usize, row: row as u32, col: col as u32 },
        ),
    decreases n,
{
    let p = Pixel { index: i as usize, row: row as u32, col: col as u32 };
    let front = text_pixels_of(s, n - 1);
    let last = glyph_pixels(glyph(s[n - 1]), (n - 1) as usize, 35);
    if i == n - 1 {
        lemma_lit_pixel_is_listed(glyph(s[i]), i as usize, 35, row, col);
        let k = choose|k: int| 0 <= k < last.len() && last[k] == p;
        assert((front + last)[front.len() + k] == p);
    } else {
        law_whole_text_is_drawn(s, n - 1, i, row, col);
        let k = choose|k: int| 0 <= k < front.len() && front[k] == p;
        assert((front + last)[k] == p);
    }
}

/// The leftmost pixel of a row is its highest bit, the rightmost its lowest.
pub proof fn law_rows_read_from_left_to_right(g: Seq<u8>, row: int)
    ensures
        is_lit(g, row, 0) <==> g[row] & 16 != 0,
        is_lit(g, row, 1) <==> g[row] & 8 != 0,
        is_lit(g, row, 2) <==> g[row] & 4 != 0,
        is_lit(g, row, 3) <==> g[row] & 2 != 0,
        is_lit(g, row, 4) <==> g[row] & 1 != 0,
{
    assert(16u8 >> 0u32 == 16 && 16u8 >> 1u32 == 8 && 16u8 >> 2u32 == 4 && 16u8 >> 3u32 == 2
        && 16u8 >> 4u32 == 1) by (bit_vector);
}

/// Characters without a glyph of their own are drawn as a box.
pub proof fn law_unknown_characters_are_boxes(c: char)
    requires
        forall|i: int| 0 <= i < 84 ==> (#[trigger] GLYPHS@[i]).0 != c,
    ensures
        glyph(c) == BOX_GLYPH@,
        glyph(c)[0] == 31 && glyph(c)[6] == 31 && glyph(c)[3] == 17,
{
    lemma_unlisted_from(c, 0);
}

proof fn lemma_unlisted_from(c: char, i: int)
    requires
        0 <= i <= 84,
        forall|k: int| 0 <= k < 84 ==> (#[trigger] GLYPHS@[k]).0 != c,
    ensures
        glyph_from(c, i) == BOX_GLYPH@,
    decreases 84 - i,
{
    if i < 84 {
        assert(GLYPHS@[i].0 != c);
        lemma_unlisted_from(c, i + 1);
    }
}

/// Two texts side by side take their two widths and one gap between them.
pub proof fn law_widths_add_up(a: nat, b: nat, scale: nat, gap: nat)
    requires
        a > 0,
        b > 0,
    ensures
        width_of(a + b, scale, gap) == width_of(a, scale, gap) + gap * scale + width_of(
            b,
            scale,
            gap,
        ),
        width_of(1, scale, gap) == 5 * scale,
        width_of(0, scale, gap) == 0,
{
    let (c, g) = ((5 * scale) as int, (gap * scale) as int);
    assert((a + b) * c + (a + b - 1) * g == a * c + (a - 1) * g + g + (b * c + (b - 1) * g))
        by (nonlinear_arith);
    assert(1 * c + 0 * g == c) by (nonlinear_arith);
}

/// The number that digits say, the most significant first.
pub open spec fn digits_say(d: Seq<u8>) -> int
    decreases d.len(),
{
    if d.len() == 0 {
        0
    } else {
        10 * digits_say(d.drop_last()) + d.last()
    }
}

proof fn lemma_digits_say(n: nat)
    ensures
        digits_say(digits(n)) == n,
        forall|i: int| 0 <= i < digits(n).len() ==> #[trigger] digits(n)[i] < 10,
        digits(n).len() > 0,
    decreases n,
{
    let d = digits(n);
    if n < 10 {
        assert(d.drop_last() =~= Seq::<u8>::empty());
        reveal_with_fuel(digits_say, 2);
    } else {
        lemma_digits_say(n / 10);
        let front = digits(n / 10);
        assert(d.drop_last() =~= front);
        assert forall|i: int| 0 <= i < d.len() implies #[trigger] d[i] < 10 by {
            if i < front.len() {
                assert(d[i] == front[i]);
            }
        }
    }
}

/// The frame counter shows the rate itself from 0 to 999, and the nearer end
/// beyond.
pub proof fn law_counter_shows_the_rate(rate: int)
    ensures
        0 <= rate <= 999 ==> digits_say(digits(shown_rate(rate))) == rate,
        rate < 0 ==> digits_say(digits(shown_rate(rate))) == 0,
        rate > 999 ==> digits_say(digits(shown_rate(rate))) == 999,
        forall|i: int| 0 <= i < digits(shown_rate(rate)).len() ==> #[trigger] digits(
            shown_rate(rate),
        )[i] < 10,
{
    lemma_digits_say(shown_rate(rate));
}

/// Capitals keep the length of a text and change its small ASCII letters only,
/// each into the capital of the same letter.
pub proof fn law_capitals_change_small_letters_only(s: Seq<char>, i: int)
    requires
        0 <= i < s.len(),
    ensures
        upper(s).len() == s.len(),
        !('a' <= s[i] <= 'z') ==> upper(s)[i] == s[i],
        'a' <= s[i] <= 'z' ==> 'A' <= upper(s)[i] <= 'Z' && upper(s)[i] as int - 'A' as int
            == s[i] as int - 'a' as int,
        upper(upper(s)) == upper(s),
{
    assert(upper(upper(s)) =~= upper(s));
}

/// A line of up to twenty characters is shown whole; a longer one shows its first
/// nineteen and a mark.
pub proof fn law_long_lines_are_cut(s: Seq<char>, i: int)
    requires
        0 <= i < 19,
        i < s.len(),
    ensures
        s.len() <= 20 ==> fitted(s) == s,
        s.len() > 20 ==> fitted(s).len() == 20 && fitted(s)[19] == '>' && fitted(s)[i] == s[i],
{
}

/// There are just enough pages: one less would not hold all worlds.
pub proof fn law_pages_hold_all_worlds(worlds: int, rows: int)
    requires
        worlds > 0,
        rows > 0,
    ensures
        page_count_of(worlds, rows) >= 1,
        (page_count_of(worlds, rows) - 1) * rows < worlds <= page_count_of(worlds, rows) * rows,
{
    let t = worlds + rows - 1;
    vstd::arithmetic::div_mod::lemma_fundamental_div_mod(t, rows);
    let q = t / rows;
    let m = t % rows;
    assert(rows * q == q * rows && (q - 1) * rows == q * rows - rows) by (nonlinear_arith);
    assert(q >= 1) by (nonlinear_arith)
        requires
            q * rows + m == worlds + rows - 1,
            0 <= m < rows,
            worlds > 0,
            rows > 0,
    ;
}

/// Characters that look the same from left to right and from right to left.
pub open spec fn mirrored_sideways(c: char) -> bool {
    c == ' ' || c == '+' || c == '-' || c == '.' || c == '8' || c == ':' || c == 'A' || c == 'H' || c == 'I' || c == 'M' || c == 'O' || c == 'T' || c == 'U' || c == 'V' || c == 'W' || c == 'X' || c == 'Y' || c == 'i' || c == 'm' || c == 'o' || c == 'v' || c == 'w' || c == 'x'
}

/// Characters that look the same from top to bottom and from bottom to top.
pub open spec fn mirrored_upwards(c: char) -> bool {
    c == ' ' || c == '+' || c == '-' || c == '8' || c == ':' || c == '<' || c == '>' || c == 'B' || c == 'C' || c == 'D' || c == 'E' || c == 'H' || c == 'I' || c == 'K' || c == 'O' || c == 'X'
}

spec fn mirrored_place(c: char) -> int {
    match c {
        ' ' => 0,
        '+' => 1,
        '-' => 2,
        '.' => 3,
        '8' => 13,
        ':' => 15,
        '<' => 16,
        '>' => 17,
        'A' => 18,
        'B' => 19,
        'C' => 20,
        'D' => 21,
        'E' => 22,
        'H' => 25,
        'I' => 26,
        'K' => 28,
        'M' => 30,
        'O' => 32,
        'T' => 37,
        'U' => 38,
        'V' => 39,
        'W' => 40,
        'X' => 41,
        'Y' => 42,
        'i' => 52,
        'm' => 56,
        'o' => 58,
        'v' => 65,
        'w' => 66,
        'x' => 67,
        _ => 0,
    }
}

proof fn lemma_mirrored_bits(b: u8)
    requires
        b == 0 || b == 4 || b == 10 || b == 14 || b == 17 || b == 21 || b == 27 || b == 31,
    ensures
        b & 16 != 0 <==> b & 1 != 0,
        b & 8 != 0 <==> b & 2 != 0,
{
    assert((b == 0 || b == 4 || b == 10 || b == 14 || b == 17 || b == 21 || b == 27 || b == 31) ==> (
    (b & 16 != 0) == (b & 1 != 0)) && ((b & 8 != 0) == (b & 2 != 0))) by (bit_vector);
}

/// The font draws symmetric characters symmetrically.
pub proof fn law_symmetric_characters_are_symmetric(c: char, row: int)
    requires
        0 <= row < 7,
    ensures
        mirrored_sideways(c) ==> {
            let b = glyph(c)[row];
            (b & 16 != 0 <==> b & 1 != 0) && (b & 8 != 0 <==> b & 2 != 0)
        },
        mirrored_upwards(c) ==> glyph(c)[row] == glyph(c)[6 - row],
{
    if mirrored_sideways(c) || mirrored_upwards(c) {
        let i = mirrored_place(c);
        assert(GLYPHS@[i].0 == c);
        lemma_glyph_found(i, 0);
        if mirrored_sideways(c) {
            lemma_mirrored_bits(GLYPHS@[i].1@[row]);
        }
    }
}

/// Which digits light a segment: the top all but 1 and 4, the upper left 0, 4 to
/// 6, 8 and 9, the upper right all but 5 and 6, the middle all but 0, 1 and 7, the
/// lower left 0, 2, 6 and 8, the lower right all but 2, the bottom all but 1, 4
/// and 7.
pub proof fn law_segments_belong_to_their_digits(d: int)
    requires
        0 <= d < 10,
    ensures
        ({
            let s = SEGMENTS_BY_DIGIT@[d]@;
            &&& s[0] <==> d != 1 && d != 4
            &&& s[1] <==> d == 0 || d == 4 || d == 5 || d == 6 || d == 8 || d == 9
            &&& s[2] <==> d != 5 && d != 6
            &&& s[3] <==> d != 0 && d != 1 && d != 7
            &&& s[4] <==> d == 0 || d == 2 || d == 6 || d == 8
            &&& s[5] <==> d != 2
            &&& s[6] <==> d != 1 && d != 4 && d != 7
        }),
{
}

/// Every platform that is known is called by its name.
pub proof fn law_platforms_are_called_by_name()
    ensures
        platform_name("windows"@) == "WINDOWS"@,
        platform_name("linux"@) == "LINUX"@,
        platform_name("android"@) == "ANDROID"@,
        platform_name("macos"@) == "MACOS"@,
        platform_name("ios"@) == "IOS"@,
        platform_name(Seq::empty()) == "DESCONOCIDO"@,
{
    reveal_strlit("windows");
    reveal_strlit("linux");
    reveal_strlit("android");
    reveal_strlit("macos");
    reveal_strlit("ios");
    assert("windows"@.len() == 7 && "linux"@.len() == 5 && "android"@.len() == 7 && "macos"@.len()
        == 5 && "ios"@.len() == 3);
    assert("android"@[0] != "windows"@[0] && "macos"@[0] != "linux"@[0]);
}

/// The lines of the panel and the snapshot hold what they tell of: they are as
/// much longer as the position is long.
pub proof fn law_panel_tells_the_position(d: DebugPanelData, e: DebugPanelData)
    requires
        e.chunk_pos == d.chunk_pos && e.looking_at == d.looking_at && e.fps == d.fps && e.mode
            == d.mode && e.log_file == d.log_file,
    ensures
        debug_line(d, 0).len() - d.position@.len() == debug_line(e, 0).len() - e.position@.len(),
        debug_line(d, 1) == debug_line(e, 1) && debug_line(d, 2) == debug_line(e, 2) && debug_line(
            d,
            3,
        ) == debug_line(e, 3),
        snapshot_text(d).len() - d.exact_position.0@.len() - d.exact_position.1@.len()
            - d.exact_position.2@.len() == snapshot_text(e).len() - e.exact_position.0@.len()
            - e.exact_position.1@.len() - e.exact_position.2@.len(),
{
}

/// A block in view is named with its cell.
pub proof fn law_block_in_view_is_named(label: String, cell: (i32, i32, i32))
    ensures
        ({
            let size = label@.len() + signed_decimal(cell.0 as int).len() + signed_decimal(
                cell.1 as int,
            ).len() + signed_decimal(cell.2 as int).len();
            &&& looking_line(Some((label, cell))).len() == size + "MIRANDO: "@.len() + 3 * " "@.len()
            &&& looking_text(Some((label, cell))).len() == size + " en ("@.len() + 2 * ", "@.len()
                + ")"@.len()
        }),
{
}

} // verus!
