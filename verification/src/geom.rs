use vstd::prelude::*;

verus! {

/// An axis-aligned rectangle in pixel space. Positions and sizes are
/// non-negative: regions of a texture never extend left of or above its
/// origin.
#[derive(Clone, Copy, PartialEq, Eq, Structural, Debug)]
pub struct Rectangle {
    pub x: u32,
    pub y: u32,
    pub width: u32,
    pub height: u32,
}

/// A position in pixel space.
#[derive(Clone, Copy, PartialEq, Eq, Structural, Debug)]
pub struct Vector {
    pub x: i32,
    pub y: i32,
}

impl Rectangle {
    pub fn new(x: u32, y: u32, width: u32, height: u32) -> (r: Rectangle)
        ensures
            r == (Rectangle { x, y, width, height }),
    {
        Rectangle { x, y, width, height }
    }
}

impl Vector {
    pub fn new(x: i32, y: i32) -> (r: Vector)
        ensures
            r == (Vector { x, y }),
    {
        Vector { x, y }
    }
}

/// Whether `inner`, read as offsets in `outer`'s local coordinate space,
/// can be translated into `outer`'s own frame without leaving `u32`.
pub open spec fn compose_fits(outer: Rectangle, inner: Rectangle) -> bool {
    outer.x + inner.x <= u32::MAX && outer.y + inner.y <= u32::MAX
}

/// `inner` translated out of `outer`'s local coordinate space: the offset of
/// `inner` is measured from `outer`'s top-left corner, while the size is
/// `inner`'s own.
pub open spec fn compose(outer: Rectangle, inner: Rectangle) -> Rectangle
    recommends
        compose_fits(outer, inner),
{
    Rectangle {
        x: (outer.x + inner.x) as u32,
        y: (outer.y + inner.y) as u32,
        width: inner.width,
        height: inner.height,
    }
}

/// Translating local rectangles is associative: carrying `r2` out of `r1`'s
/// frame and then out of `outer`'s frame lands on the same region as first
/// combining `r1` and `r2` and carrying the result out of `outer`'s frame.
pub proof fn lemma_compose_associative(outer: Rectangle, r1: Rectangle, r2: Rectangle)
    requires
        compose_fits(outer, r1),
        compose_fits(compose(outer, r1), r2),
    ensures
        compose_fits(r1, r2),
        compose_fits(outer, compose(r1, r2)),
        compose(compose(outer, r1), r2) == compose(outer, compose(r1, r2)),
{
}

} // verus!
