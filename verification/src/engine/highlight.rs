//! The outline of the block in view.
use vstd::prelude::*;

verus! {

/// A corner of a cube: for every axis the near side or the far one.
pub type Corner = (bool, bool, bool);

/// The corners of a cube: around the bottom, then around the top.
pub const CORNERS: [(bool, bool, bool); 8] = [
    (false, false, false),
    (true, false, false),
    (true, false, true),
    (false, false, true),
    (false, true, false),
    (true, true, false),
    (true, true, true),
    (false, true, true),
];

/// The edges of a cube as pairs of corners: the bottom, the top, the uprights.
pub const EDGES: [(usize, usize); 12] = [
    (0, 1),
    (1, 2),
    (2, 3),
    (3, 0),
    (4, 5),
    (5, 6),
    (6, 7),
    (7, 4),
    (0, 4),
    (1, 5),
    (2, 6),
    (3, 7),
];

/// The corner that a line of the outline starts or ends at.
pub open spec fn outline_point(k: int) -> Corner {
    let edge = EDGES@[k / 2];
    CORNERS@[if k % 2 == 0 {
        edge.0 as int
    } else {
        edge.1 as int
    }]
}

/// The outline of a block: two corners a line, twelve lines.
pub fn block_outline() -> (r: Vec<Corner>)
    ensures
        r@ == Seq::new(24, |k: int| outline_point(k)),
{
    let mut out: Vec<Corner> = Vec::new();
    let mut n: usize = 0;
    while n < 12
        invariant
            n <= 12,
            out@ == Seq::new((2 * n) as nat, |k: int| outline_point(k)),
        decreases 12 - n,
    {
        let edge: (usize, usize) = EDGES[n];
        assert(edge.0 < 8 && edge.1 < 8);
        out.push(CORNERS[edge.0]);
        out.push(CORNERS[edge.1]);
        assert(out@ =~= Seq::new((2 * (n + 1)) as nat, |k: int| outline_point(k)));
        n = n + 1;
    }
    out
}

/// How many coordinates of two corners differ.
pub open spec fn differences(a: Corner, b: Corner) -> int {
    (if a.0 != b.0 {
        1int
    } else {
        0
    }) + (if a.1 != b.1 {
        1int
    } else {
        0
    }) + (if a.2 != b.2 {
        1int
    } else {
        0
    })
}

/// Two corners are the ends of an edge, whichever comes first.
pub open spec fn is_edge(e: int, a: Corner, b: Corner) -> bool {
    ||| outline_point(2 * e) == a && outline_point(2 * e + 1) == b
    ||| outline_point(2 * e) == b && outline_point(2 * e + 1) == a
}

/// Every line of the outline runs along one axis, and any two corners that
/// differ along one axis only are joined by exactly one line.
pub proof fn law_outline_is_a_cube(a: Corner, b: Corner)
    ensures
        forall|e: int|
            0 <= e < 12 ==> differences(#[trigger] outline_point(2 * e), outline_point(2 * e + 1))
                == 1,
        differences(a, b) == 1 ==> exists|e: int| 0 <= e < 12 && #[trigger] is_edge(e, a, b),
        forall|e: int, f: int|
            0 <= e < 12 && 0 <= f < 12 && #[trigger] is_edge(e, a, b) && #[trigger] is_edge(f, a, b)
                ==> e == f,
{
    assert forall|e: int| 0 <= e < 12 implies differences(
        #[trigger] outline_point(2 * e),
        outline_point(2 * e + 1),
    ) == 1 by {
        assert((2 * e) / 2 == e && (2 * e + 1) / 2 == e);
    }
    assert(is_edge(0, a, b) || is_edge(1, a, b) || is_edge(2, a, b) || is_edge(3, a, b) || is_edge(
        4,
        a,
        b,
    ) || is_edge(5, a, b) || is_edge(6, a, b) || is_edge(7, a, b) || is_edge(8, a, b) || is_edge(
        9,
        a,
        b,
    ) || is_edge(10, a, b) || is_edge(11, a, b) || differences(a, b) != 1);
}

} // verus!
