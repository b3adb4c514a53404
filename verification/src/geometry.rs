//! Axis-aligned rectangles and the containment and overlap relations on them.

use vstd::prelude::*;

verus! {

/// A rectangle given by its top-left corner and its extent.
///
/// Both axes use one unit: cells for cursor rectangles, pixels for the
/// bounding boxes of graphics. The rectangle covers the half-open ranges
/// `row .. row + height` and `col .. col + width`.
#[derive(Clone, Copy, Debug, PartialEq, Eq, Structural)]
pub struct Rectangle {
    pub row: u16,
    pub col: u16,
    pub width: u16,
    pub height: u16,
}

impl Rectangle {
    /// The first row below the rectangle.
    pub open spec fn bottom(self) -> int {
        self.row + self.height
    }

    /// The first column to the right of the rectangle.
    pub open spec fn right(self) -> int {
        self.col + self.width
    }

    /// `inner` lies fully inside `self`.
    pub open spec fn encloses(self, inner: Rectangle) -> bool {
        &&& inner.row >= self.row
        &&& inner.col >= self.col
        &&& inner.bottom() <= self.bottom()
        &&& inner.right() <= self.right()
    }

    /// `self` and `other` are not separated along either axis.
    pub open spec fn intersects(self, other: Rectangle) -> bool {
        !(self.bottom() <= other.row || self.right() <= other.col || self.row >= other.bottom()
            || self.col >= other.right())
    }

    /// The rectangle written as `(row, col, width, height)`.
    pub open spec fn of_tuple(area: (u16, u16, u16, u16)) -> Rectangle {
        Rectangle { row: area.0, col: area.1, width: area.2, height: area.3 }
    }

    pub fn new(row: u16, col: u16, width: u16, height: u16) -> (r: Rectangle)
        ensures
            r == (Rectangle { row, col, width, height }),
    {
        Rectangle { row, col, width, height }
    }

    /// Reads a rectangle from the order `(row, col, width, height)`.
    pub fn from_tuple(area: (u16, u16, u16, u16)) -> (r: Rectangle)
        ensures
            r == Rectangle::of_tuple(area),
    {
        Rectangle { row: area.0, col: area.1, width: area.2, height: area.3 }
    }

    /// Writes the rectangle in the order `(row, col, width, height)`.
    pub fn to_tuple(&self) -> (area: (u16, u16, u16, u16))
        ensures
            area == (self.row, self.col, self.width, self.height),
            Rectangle::of_tuple(area) == *self,
    {
        (self.row, self.col, self.width, self.height)
    }

    /// Whether `inner` lies fully inside `self`. The sums are taken in 32
    /// bits, so no position or extent can wrap.
    pub fn contains(&self, inner: &Rectangle) -> (r: bool)
        ensures
            r == self.encloses(*inner),
    {
        let self_bottom: u32 = self.row as u32 + self.height as u32;
        let self_right: u32 = self.col as u32 + self.width as u32;
        let inner_bottom: u32 = inner.row as u32 + inner.height as u32;
        let inner_right: u32 = inner.col as u32 + inner.width as u32;
        inner.row >= self.row && inner.col >= self.col && inner_bottom <= self_bottom
            && inner_right <= self_right
    }

    /// Whether the two rectangles share a point. Rectangles that only touch
    /// along an edge do not overlap.
    pub fn overlaps(&self, other: &Rectangle) -> (r: bool)
        ensures
            r == self.intersects(*other),
    {
        let self_bottom: u32 = self.row as u32 + self.height as u32;
        let self_right: u32 = self.col as u32 + self.width as u32;
        let other_bottom: u32 = other.row as u32 + other.height as u32;
        let other_right: u32 = other.col as u32 + other.width as u32;
        !(self_bottom <= other.row as u32 || self_right <= other.col as u32 || self.row as u32
            >= other_bottom || self.col as u32 >= other_right)
    }
}

/// Every rectangle contains itself.
pub proof fn lemma_contains_reflexive(a: Rectangle)
    ensures
        a.encloses(a),
{
}

/// Containment is transitive.
pub proof fn lemma_contains_transitive(a: Rectangle, b: Rectangle, c: Rectangle)
    requires
        a.encloses(b),
        b.encloses(c),
    ensures
        a.encloses(c),
{
}

/// A rectangle overlaps whatever rectangle of positive width and height it
/// contains. (The containing rectangle is then of positive extent too.)
pub proof fn lemma_contains_implies_overlaps(a: Rectangle, b: Rectangle)
    requires
        b.width > 0,
        b.height > 0,
        a.encloses(b),
    ensures
        a.intersects(b),
        a.width > 0,
        a.height > 0,
{
}

/// Overlap does not depend on the order of the two rectangles.
pub proof fn lemma_overlaps_symmetric(a: Rectangle, b: Rectangle)
    ensures
        a.intersects(b) == b.intersects(a),
{
}

/// A rectangle without extent is contained exactly when its origin lies
/// within the bounds of the containing rectangle, the far edges included.
pub proof fn lemma_point_containment(a: Rectangle, p: Rectangle)
    requires
        p.width == 0,
        p.height == 0,
    ensures
        a.encloses(p) <==> (a.row <= p.row <= a.bottom() && a.col <= p.col <= a.right()),
{
}

/// Rectangles that meet only along an edge do not overlap.
pub proof fn lemma_touching_edges_disjoint(a: Rectangle, b: Rectangle)
    requires
        a.bottom() == b.row || a.right() == b.col,
    ensures
        !a.intersects(b),
{
}

} // verus!
