//! Rectangles on the pixel grid and the arithmetic used to cut them up.

use vstd::prelude::*;

verus! {

/// One of the four sides of a region.
#[derive(Clone, Copy, Debug, PartialEq, Eq, Structural)]
pub enum Edge {
    Top,
    Bottom,
    Left,
    Right,
}

/// An axis-aligned rectangle: the pixel columns `x .. x + width` and the
/// pixel rows `y .. y + height`.
///
/// A region with zero width or zero height covers no pixel.
#[derive(Clone, Copy, Debug, PartialEq, Eq, Structural)]
pub struct Region {
    pub x: i32,
    pub y: i32,
    pub width: u32,
    pub height: u32,
}

/// The smaller of `pixels` and `extent`: how far an edge can move inwards
/// before it meets the opposite edge.
pub open spec fn clip(pixels: u32, extent: u32) -> u32 {
    if pixels <= extent {
        pixels
    } else {
        extent
    }
}

/// `extent` less `pixels` taken from both ends, or zero where that would be
/// negative.
pub open spec fn shrunk(extent: u32, pixels: u32) -> u32 {
    if 2 * pixels <= extent {
        (extent - 2 * pixels) as u32
    } else {
        0
    }
}

impl Region {
    /// The coordinate just past the last column.
    pub open spec fn right(self) -> int {
        self.x + self.width
    }

    /// The coordinate just past the last row.
    pub open spec fn bottom(self) -> int {
        self.y + self.height
    }

    /// The far edges are coordinates that an `i32` can hold.
    pub open spec fn wf(self) -> bool {
        self.right() <= i32::MAX && self.bottom() <= i32::MAX
    }

    /// The region covers no pixel.
    pub open spec fn spec_is_empty(self) -> bool {
        self.width == 0 || self.height == 0
    }

    /// `other` lies within the bounds of `self`.
    pub open spec fn spec_contains(self, other: Region) -> bool {
        &&& self.x <= other.x
        &&& self.y <= other.y
        &&& other.right() <= self.right()
        &&& other.bottom() <= self.bottom()
    }

    /// The two regions have at least one pixel in common.
    pub open spec fn spec_overlaps(self, other: Region) -> bool {
        &&& !self.spec_is_empty()
        &&& !other.spec_is_empty()
        &&& self.x < other.right()
        &&& other.x < self.right()
        &&& self.y < other.bottom()
        &&& other.y < self.bottom()
    }

    /// The region with `pixels` taken away along `edge`, or with nothing left
    /// in that direction where it is not that large.
    pub open spec fn spec_reserve(self, edge: Edge, pixels: u32) -> Region {
        match edge {
            Edge::Top => Region {
                y: (self.y + clip(pixels, self.height)) as i32,
                height: (self.height - clip(pixels, self.height)) as u32,
                ..self
            },
            Edge::Bottom => Region {
                height: (self.height - clip(pixels, self.height)) as u32,
                ..self
            },
            Edge::Left => Region {
                x: (self.x + clip(pixels, self.width)) as i32,
                width: (self.width - clip(pixels, self.width)) as u32,
                ..self
            },
            Edge::Right => Region {
                width: (self.width - clip(pixels, self.width)) as u32,
                ..self
            },
        }
    }

    /// The region with `pixels` taken away along all four edges. A dimension
    /// smaller than `2 * pixels` becomes zero.
    pub open spec fn spec_inset(self, pixels: u32) -> Region {
        Region {
            x: (self.x + clip(pixels, self.width)) as i32,
            y: (self.y + clip(pixels, self.height)) as i32,
            width: shrunk(self.width, pixels),
            height: shrunk(self.height, pixels),
        }
    }

    /// The part of the region to the left of the column `self.x + at`.
    pub open spec fn spec_left_part(self, at: u32) -> Region {
        Region { width: at, ..self }
    }

    /// The part of the region from the column `self.x + at` rightwards.
    pub open spec fn spec_right_part(self, at: u32) -> Region {
        Region { x: (self.x + at) as i32, width: (self.width - at) as u32, ..self }
    }

    /// The part of the region above the row `self.y + at`.
    pub open spec fn spec_top_part(self, at: u32) -> Region {
        Region { height: at, ..self }
    }

    /// The part of the region from the row `self.y + at` downwards.
    pub open spec fn spec_bottom_part(self, at: u32) -> Region {
        Region { y: (self.y + at) as i32, height: (self.height - at) as u32, ..self }
    }

    /// The `index`-th of `count` rows of equal height, counted from the top.
    /// Each row is `height / count` pixels high, rounded down: the pixels that
    /// remain are left uncovered below the last row.
    pub open spec fn spec_row(self, count: nat, index: nat) -> Region {
        Region {
            y: (self.y + index * (self.height as nat / count)) as i32,
            height: (self.height as nat / count) as u32,
            ..self
        }
    }

    /// The `index`-th of `count` columns of equal width, counted from the
    /// left. Each column is `width / count` pixels wide, rounded down: the
    /// pixels that remain are left uncovered right of the last column.
    pub open spec fn spec_column(self, count: nat, index: nat) -> Region {
        Region {
            x: (self.x + index * (self.width as nat / count)) as i32,
            width: (self.width as nat / count) as u32,
            ..self
        }
    }

    /// The region with its top left corner at `(x, y)` and the given size.
    pub fn new(x: i32, y: i32, width: u32, height: u32) -> (region: Region)
        ensures
            region == (Region { x, y, width, height }),
    {
        Region { x, y, width, height }
    }

    /// Tells whether the far edges are representable coordinates.
    pub fn is_wf(self) -> (ok: bool)
        ensures
            ok == self.wf(),
    {
        let right: i64 = self.x as i64 + self.width as i64;
        let bottom: i64 = self.y as i64 + self.height as i64;
        right <= i32::MAX as i64 && bottom <= i32::MAX as i64
    }

    /// Tells whether the region covers no pixel.
    #[verifier::when_used_as_spec(spec_is_empty)]
    pub fn is_empty(self) -> (empty: bool)
        ensures
            empty == self.spec_is_empty(),
    {
        self.width == 0 || self.height == 0
    }

    /// Tells whether `other` lies within the bounds of this region.
    #[verifier::when_used_as_spec(spec_contains)]
    pub fn contains(self, other: Region) -> (inside: bool)
        ensures
            inside == self.spec_contains(other),
    {
        let right: i64 = self.x as i64 + self.width as i64;
        let bottom: i64 = self.y as i64 + self.height as i64;
        let other_right: i64 = other.x as i64 + other.width as i64;
        let other_bottom: i64 = other.y as i64 + other.height as i64;
        self.x <= other.x && self.y <= other.y && other_right <= right && other_bottom <= bottom
    }

    /// Tells whether the two regions have a pixel in common.
    #[verifier::when_used_as_spec(spec_overlaps)]
    pub fn overlaps(self, other: Region) -> (shared: bool)
        ensures
            shared == self.spec_overlaps(other),
    {
        let right: i64 = self.x as i64 + self.width as i64;
        let bottom: i64 = self.y as i64 + self.height as i64;
        let other_right: i64 = other.x as i64 + other.width as i64;
        let other_bottom: i64 = other.y as i64 + other.height as i64;
        !self.is_empty() && !other.is_empty() && (self.x as i64) < other_right && (other.x as i64)
            < right && (self.y as i64) < other_bottom && (other.y as i64) < bottom
    }

    /// Takes `pixels` away along `edge`, or all there is in that direction
    /// where the region is not that large.
    #[verifier::when_used_as_spec(spec_reserve)]
    pub fn reserve(self, edge: Edge, pixels: u32) -> (inner: Region)
        requires
            self.wf(),
        ensures
            inner == self.spec_reserve(edge, pixels),
            inner.wf(),
            self.spec_contains(inner),
    {
        match edge {
            Edge::Top => {
                let cut: u32 = if pixels <= self.height { pixels } else { self.height };
                Region {
                    x: self.x,
                    y: (self.y as i64 + cut as i64) as i32,
                    width: self.width,
                    height: self.height - cut,
                }
            },
            Edge::Bottom => {
                let cut: u32 = if pixels <= self.height { pixels } else { self.height };
                Region { x: self.x, y: self.y, width: self.width, height: self.height - cut }
            },
            Edge::Left => {
                let cut: u32 = if pixels <= self.width { pixels } else { self.width };
                Region {
                    x: (self.x as i64 + cut as i64) as i32,
                    y: self.y,
                    width: self.width - cut,
                    height: self.height,
                }
            },
            Edge::Right => {
                let cut: u32 = if pixels <= self.width { pixels } else { self.width };
                Region { x: self.x, y: self.y, width: self.width - cut, height: self.height }
            },
        }
    }

    /// Takes `pixels` away along all four edges. A dimension smaller than
    /// `2 * pixels` becomes zero, never negative.
    #[verifier::when_used_as_spec(spec_inset)]
    pub fn inset(self, pixels: u32) -> (inner: Region)
        requires
            self.wf(),
        ensures
            inner == self.spec_inset(pixels),
            inner.wf(),
            self.spec_contains(inner),
    {
        let dx: u32 = if pixels <= self.width { pixels } else { self.width };
        let dy: u32 = if pixels <= self.height { pixels } else { self.height };
        let both: u64 = 2 * (pixels as u64);
        let width: u32 = if both <= self.width as u64 {
            (self.width as u64 - both) as u32
        } else {
            0
        };
        let height: u32 = if both <= self.height as u64 {
            (self.height as u64 - both) as u32
        } else {
            0
        };
        Region {
            x: (self.x as i64 + dx as i64) as i32,
            y: (self.y as i64 + dy as i64) as i32,
            width,
            height,
        }
    }

    /// Cuts the region in two along the column `self.x + at`.
    pub fn split_at_column(self, at: u32) -> (parts: (Region, Region))
        requires
            self.wf(),
            at <= self.width,
        ensures
            parts.0 == self.spec_left_part(at),
            parts.1 == self.spec_right_part(at),
            parts.0.wf(),
            parts.1.wf(),
            self.spec_contains(parts.0),
            self.spec_contains(parts.1),
    {
        let left = Region { x: self.x, y: self.y, width: at, height: self.height };
        let right = Region {
            x: (self.x as i64 + at as i64) as i32,
            y: self.y,
            width: self.width - at,
            height: self.height,
        };
        (left, right)
    }

    /// Cuts the region in two along the row `self.y + at`.
    pub fn split_at_row(self, at: u32) -> (parts: (Region, Region))
        requires
            self.wf(),
            at <= self.height,
        ensures
            parts.0 == self.spec_top_part(at),
            parts.1 == self.spec_bottom_part(at),
            parts.0.wf(),
            parts.1.wf(),
            self.spec_contains(parts.0),
            self.spec_contains(parts.1),
    {
        let top = Region { x: self.x, y: self.y, width: self.width, height: at };
        let bottom = Region {
            x: self.x,
            y: (self.y as i64 + at as i64) as i32,
            width: self.width,
            height: self.height - at,
        };
        (top, bottom)
    }

    /// The `index`-th of `count` rows of equal height, counted from the top.
    pub fn row(self, count: usize, index: usize) -> (cell: Region)
        requires
            self.wf(),
            index < count,
        ensures
            cell == self.spec_row(count as nat, index as nat),
            cell.wf(),
            self.spec_contains(cell),
    {
        let each: u32 = (self.height as u64 / count as u64) as u32;
        proof {
            lemma_cell_fits(self.height as nat, count as nat, index as nat);
        }
        let offset: u64 = index as u64 * each as u64;
        Region {
            x: self.x,
            y: (self.y as i64 + offset as i64) as i32,
            width: self.width,
            height: each,
        }
    }

    /// The `index`-th of `count` columns of equal width, counted from the
    /// left.
    pub fn column(self, count: usize, index: usize) -> (cell: Region)
        requires
            self.wf(),
            index < count,
        ensures
            cell == self.spec_column(count as nat, index as nat),
            cell.wf(),
            self.spec_contains(cell),
    {
        let each: u32 = (self.width as u64 / count as u64) as u32;
        proof {
            lemma_cell_fits(self.width as nat, count as nat, index as nat);
        }
        let offset: u64 = index as u64 * each as u64;
        Region {
            x: (self.x as i64 + offset as i64) as i32,
            y: self.y,
            width: each,
            height: self.height,
        }
    }
}

/// Where `extent` is cut into `count` cells of `extent / count` each, the
/// cell at `index` ends within `extent`.
pub proof fn lemma_cell_fits(extent: nat, count: nat, index: nat)
    requires
        index < count,
    ensures
        extent / count <= extent,
        index * (extent / count) + extent / count <= extent,
{
    let each = extent / count;
    assert(count * each <= extent) by (nonlinear_arith)
        requires
            count > 0,
            each == extent / count,
    ;
    assert(index * each + each <= count * each) by (nonlinear_arith)
        requires
            index < count,
            each >= 0,
    ;
}

/// A region that lies within a well-formed one is itself well formed.
pub proof fn lemma_contained_wf(outer: Region, inner: Region)
    requires
        outer.wf(),
        outer.spec_contains(inner),
    ensures
        inner.wf(),
{
}

/// Containment carries over from a region to what lies within it.
pub proof fn lemma_contains_transitive(outer: Region, middle: Region, inner: Region)
    requires
        outer.spec_contains(middle),
        middle.spec_contains(inner),
    ensures
        outer.spec_contains(inner),
{
}

/// Reserving an edge leaves a region within the one it was taken from.
pub proof fn lemma_reserve_within(region: Region, edge: Edge, pixels: u32)
    requires
        region.wf(),
    ensures
        region.spec_contains(region.spec_reserve(edge, pixels)),
        region.spec_reserve(edge, pixels).wf(),
{
}

/// Insetting leaves a region within the one it was taken from.
pub proof fn lemma_inset_within(region: Region, pixels: u32)
    requires
        region.wf(),
    ensures
        region.spec_contains(region.spec_inset(pixels)),
        region.spec_inset(pixels).wf(),
{
}

/// Both parts of a region that is cut along a column lie within it.
pub proof fn lemma_column_cut_within(region: Region, at: u32)
    requires
        region.wf(),
        at <= region.width,
    ensures
        region.spec_contains(region.spec_left_part(at)),
        region.spec_contains(region.spec_right_part(at)),
        region.spec_left_part(at).wf(),
        region.spec_right_part(at).wf(),
{
}

/// Both parts of a region that is cut along a row lie within it.
pub proof fn lemma_row_cut_within(region: Region, at: u32)
    requires
        region.wf(),
        at <= region.height,
    ensures
        region.spec_contains(region.spec_top_part(at)),
        region.spec_contains(region.spec_bottom_part(at)),
        region.spec_top_part(at).wf(),
        region.spec_bottom_part(at).wf(),
{
}

/// Each of the equal rows of a region lies within it.
pub proof fn lemma_row_within(region: Region, count: nat, index: nat)
    requires
        region.wf(),
        index < count,
    ensures
        region.spec_contains(region.spec_row(count, index)),
        region.spec_row(count, index).wf(),
{
    lemma_cell_fits(region.height as nat, count, index);
}

/// Each of the equal columns of a region lies within it.
pub proof fn lemma_column_within(region: Region, count: nat, index: nat)
    requires
        region.wf(),
        index < count,
    ensures
        region.spec_contains(region.spec_column(count, index)),
        region.spec_column(count, index).wf(),
{
    lemma_cell_fits(region.width as nat, count, index);
}

/// Of the equal rows of a region, an earlier one ends where a later one
/// begins, or above.
pub proof fn lemma_rows_apart(region: Region, count: nat, earlier: nat, later: nat)
    requires
        region.wf(),
        earlier < later < count,
    ensures
        region.spec_row(count, earlier).bottom() <= region.spec_row(count, later).y,
        !region.spec_row(count, earlier).spec_overlaps(region.spec_row(count, later)),
{
    let each = region.height as nat / count;
    lemma_cell_fits(region.height as nat, count, earlier);
    lemma_cell_fits(region.height as nat, count, later);
    assert(earlier * each + each <= later * each) by (nonlinear_arith)
        requires
            earlier < later,
            each >= 0,
    ;
}

/// Of the equal columns of a region, an earlier one ends where a later one
/// begins, or left of it.
pub proof fn lemma_columns_apart(region: Region, count: nat, earlier: nat, later: nat)
    requires
        region.wf(),
        earlier < later < count,
    ensures
        region.spec_column(count, earlier).right() <= region.spec_column(count, later).x,
        !region.spec_column(count, earlier).spec_overlaps(region.spec_column(count, later)),
{
    let each = region.width as nat / count;
    lemma_cell_fits(region.width as nat, count, earlier);
    lemma_cell_fits(region.width as nat, count, later);
    assert(earlier * each + each <= later * each) by (nonlinear_arith)
        requires
            earlier < later,
            each >= 0,
    ;
}

/// Two regions that lie within regions without a pixel in common have no
/// pixel in common either.
pub proof fn lemma_within_stay_apart(first: Region, second: Region, a: Region, b: Region)
    requires
        !first.spec_overlaps(second),
        first.spec_contains(a),
        second.spec_contains(b),
    ensures
        !a.spec_overlaps(b),
{
}

} // verus!
