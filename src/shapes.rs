use vstd::prelude::*;

verus! {

/// An integer cell position, or a cell offset relative to a piece's anchor.
#[derive(Clone, Copy, Debug, PartialEq, Eq, Structural)]
pub struct Point {
    pub x: i64,
    pub y: i64,
}

/// Number of shapes in the catalog.
pub const SHAPE_COUNT: usize = 5;

pub open spec fn pt(x: int, y: int) -> Point {
    Point { x: x as i64, y: y as i64 }
}

/// The cell offsets of each shape of the catalog, the anchor cell first.
pub open spec fn shape_cells(index: int) -> Seq<Point> {
    if index == 0 {
        seq![pt(0, 0), pt(0, 1), pt(0, -1), pt(-1, 1)]
    } else if index == 1 {
        seq![pt(0, 0), pt(-1, 0), pt(1, 0)]
    } else if index == 2 {
        seq![pt(0, 0), pt(-1, 0), pt(1, 0), pt(0, -1)]
    } else if index == 3 {
        seq![pt(0, 0), pt(-1, 0), pt(-1, 1), pt(0, -1)]
    } else {
        seq![pt(0, 0), pt(1, 0), pt(1, -1), pt(0, -1)]
    }
}

/// An offset within one cell of the anchor in each direction.
pub open spec fn offset_ok(o: Point) -> bool {
    -1 <= o.x <= 1 && -1 <= o.y <= 1
}

/// A quarter turn of an offset about the anchor: `(x, y)` becomes `(y, -x)`.
pub open spec fn turned(o: Point) -> Point {
    Point { x: o.y, y: (-o.x) as i64 }
}

/// Every offset of a piece turned a quarter turn.
pub open spec fn turned_all(offsets: Seq<Point>) -> Seq<Point> {
    Seq::new(offsets.len(), |i: int| turned(offsets[i]))
}

/// A well-formed list of offsets: one to five offsets near the anchor, the
/// anchor cell itself first.
pub open spec fn offsets_wf(offsets: Seq<Point>) -> bool {
    &&& 1 <= offsets.len() <= 5
    &&& offsets[0] == pt(0, 0)
    &&& forall|i: int| 0 <= i < offsets.len() ==> offset_ok(#[trigger] offsets[i])
}

/// The offsets of catalog shape `index`.
pub fn shape_offsets(index: usize) -> (r: Vec<Point>)
    requires
        index < SHAPE_COUNT,
    ensures
        r@ == shape_cells(index as int),
        offsets_wf(r@),
{
    let r = if index == 0 {
        vec![Point { x: 0, y: 0 }, Point { x: 0, y: 1 }, Point { x: 0, y: -1 }, Point { x: -1, y: 1 }]
    } else if index == 1 {
        vec![Point { x: 0, y: 0 }, Point { x: -1, y: 0 }, Point { x: 1, y: 0 }]
    } else if index == 2 {
        vec![Point { x: 0, y: 0 }, Point { x: -1, y: 0 }, Point { x: 1, y: 0 }, Point { x: 0, y: -1 }]
    } else if index == 3 {
        vec![Point { x: 0, y: 0 }, Point { x: -1, y: 0 }, Point { x: -1, y: 1 }, Point { x: 0, y: -1 }]
    } else {
        vec![Point { x: 0, y: 0 }, Point { x: 1, y: 0 }, Point { x: 1, y: -1 }, Point { x: 0, y: -1 }]
    };
    assert(r@ =~= shape_cells(index as int));
    r
}

/// Turns every offset a quarter turn about the anchor.
pub fn turn_offsets(offsets: &Vec<Point>) -> (r: Vec<Point>)
    requires
        offsets_wf(offsets@),
    ensures
        r@ == turned_all(offsets@),
        offsets_wf(r@),
{
    let mut r: Vec<Point> = Vec::new();
    let mut i: usize = 0;
    while i < offsets.len()
        invariant
            offsets_wf(offsets@),
            0 <= i <= offsets@.len(),
            r@ =~= turned_all(offsets@).take(i as int),
        decreases offsets@.len() - i,
    {
        let o = offsets[i];
        assert(offset_ok(offsets@[i as int]));
        r.push(Point { x: o.y, y: -o.x });
        i = i + 1;
    }
    assert(turned_all(offsets@).take(i as int) =~= turned_all(offsets@));
    r
}

/// Four quarter turns bring every offset back where it was.
pub proof fn law_four_turns_identity(offsets: Seq<Point>)
    requires
        offsets_wf(offsets),
    ensures
        turned_all(turned_all(turned_all(turned_all(offsets)))) == offsets,
{
    assert forall|i: int| 0 <= i < offsets.len() implies turned(
        turned(turned(turned(#[trigger] offsets[i]))),
    ) == offsets[i] by {
        assert(offset_ok(offsets[i]));
    }
    assert(turned_all(turned_all(turned_all(turned_all(offsets)))) =~= offsets);
}

} // verus!
