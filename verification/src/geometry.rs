//! Points and rectangles on the virtual screen.
//!
//! Coordinates are pixels counted from the top-left corner of the virtual
//! screen; right and down are positive.

use vstd::prelude::*;
use vstd::std_specs::ops::AddSpecImpl;

verus! {

/// A position on the virtual screen: `(100, 100)` lies 100 pixels to the right
/// of and 100 pixels below the top-left corner.
#[derive(Clone, Copy, PartialEq, Eq, Debug, Structural)]
pub struct Point {
    x: u32,
    y: u32,
}

/// The sum of two coordinates, held at `u32::MAX` where it would not fit.
pub open spec fn saturating_sum(a: u32, b: u32) -> u32 {
    if a + b > u32::MAX {
        u32::MAX
    } else {
        (a + b) as u32
    }
}

impl Point {
    pub closed spec fn spec_new(x: u32, y: u32) -> Point {
        Point { x, y }
    }

    pub closed spec fn spec_x(&self) -> u32 {
        self.x
    }

    pub closed spec fn spec_y(&self) -> u32 {
        self.y
    }

    #[verifier::when_used_as_spec(spec_new)]
    pub fn new(x: u32, y: u32) -> (p: Point)
        ensures
            p == Point::new(x, y),
            p.x() == x,
            p.y() == y,
    {
        Point { x, y }
    }

    #[verifier::when_used_as_spec(spec_x)]
    pub fn x(&self) -> (x: u32)
        ensures
            x == self.x(),
    {
        self.x
    }

    #[verifier::when_used_as_spec(spec_y)]
    pub fn y(&self) -> (y: u32)
        ensures
            y == self.y(),
    {
        self.y
    }

    /// A point is its two coordinates: the constructor and the accessors are
    /// inverse to each other.
    pub proof fn lemma_coordinates(self)
        ensures
            self == Point::new(self.x(), self.y()),
            forall|x: u32, y: u32| #[trigger] Point::new(x, y).x() == x && Point::new(x, y).y() == y,
    {
    }
}

impl AddSpecImpl for Point {
    open spec fn obeys_add_spec() -> bool {
        true
    }

    open spec fn add_req(self, rhs: Point) -> bool {
        true
    }

    open spec fn add_spec(self, rhs: Point) -> Point {
        Point::new(saturating_sum(self.x(), rhs.x()), saturating_sum(self.y(), rhs.y()))
    }
}

/// Component-wise addition. A coordinate that would pass `u32::MAX` stays at
/// `u32::MAX`.
impl core::ops::Add for Point {
    type Output = Point;

    fn add(self, other: Point) -> (sum: Point)
        ensures
            sum.x() == saturating_sum(self.x(), other.x()),
            sum.y() == saturating_sum(self.y(), other.y()),
    {
        Point { x: self.x.saturating_add(other.x), y: self.y.saturating_add(other.y) }
    }
}

/// A rectangle lying on the virtual screen. It may stand for a monitor or for
/// any other region.
#[derive(Clone, Copy, PartialEq, Eq, Debug, Structural)]
pub struct Rect {
    /// Width in pixels.
    width: u32,
    /// Height in pixels.
    height: u32,
    /// The top-left corner, relative to the top-left corner of the virtual
    /// screen.
    offset: Point,
}

impl Rect {
    pub closed spec fn spec_new(width: u32, height: u32, offset: Point) -> Rect {
        Rect { width, height, offset }
    }

    pub closed spec fn spec_width(&self) -> u32 {
        self.width
    }

    pub closed spec fn spec_height(&self) -> u32 {
        self.height
    }

    pub closed spec fn spec_offset(&self) -> Point {
        self.offset
    }

    /// Whether `point` lies on the rectangle. The left and top edges belong to
    /// it, the right and bottom edges do not, so that of two rectangles side by
    /// side only one holds a point on their common border.
    pub open spec fn contains(&self, point: Point) -> bool {
        &&& self.offset().x() <= point.x() < self.offset().x() + self.width()
        &&& self.offset().y() <= point.y() < self.offset().y() + self.height()
    }

    /// The point half the width and half the height (rounded down) away from
    /// the top-left corner.
    pub open spec fn spec_center(&self) -> Point {
        Point::new(
            saturating_sum(self.offset().x(), self.width() / 2),
            saturating_sum(self.offset().y(), self.height() / 2),
        )
    }

    /// Width times height, held at `u32::MAX` where the product would not fit.
    pub open spec fn spec_area(&self) -> u32 {
        if self.width() * self.height() > u32::MAX {
            u32::MAX
        } else {
            (self.width() * self.height()) as u32
        }
    }

    /// Creates the rectangle of the given size whose top-left corner is
    /// `offset`.
    #[verifier::when_used_as_spec(spec_new)]
    pub fn new(width: u32, height: u32, offset: Point) -> (r: Rect)
        ensures
            r == Rect::new(width, height, offset),
            r.width() == width,
            r.height() == height,
            r.offset() == offset,
    {
        Rect { width, height, offset }
    }

    /// Returns `true` if the point lies on the rectangle, otherwise `false`.
    pub fn contains_point(&self, point: &Point) -> (inside: bool)
        ensures
            inside == self.contains(*point),
            inside <==> (self.offset().x() <= point.x() < self.offset().x() + self.width()
                && self.offset().y() <= point.y() < self.offset().y() + self.height()),
    {
        let x_min: u64 = self.offset.x() as u64;
        let x_max: u64 = x_min + self.width as u64;
        let y_min: u64 = self.offset.y() as u64;
        let y_max: u64 = y_min + self.height as u64;
        let x: u64 = point.x() as u64;
        let y: u64 = point.y() as u64;
        (x >= x_min && x < x_max) && (y >= y_min && y < y_max)
    }

    /// Returns the point at the center of the rectangle. A coordinate that
    /// would pass `u32::MAX` stays at `u32::MAX`.
    #[verifier::when_used_as_spec(spec_center)]
    pub fn center(&self) -> (c: Point)
        ensures
            c == self.center(),
            c.x() == saturating_sum(self.offset().x(), self.width() / 2),
            c.y() == saturating_sum(self.offset().y(), self.height() / 2),
    {
        let raw_midpoint = Point::new(self.width / 2, self.height / 2);
        self.offset + raw_midpoint
    }

    /// Returns the width of the rectangle in pixels.
    #[verifier::when_used_as_spec(spec_width)]
    pub fn width(&self) -> (w: u32)
        ensures
            w == self.width(),
    {
        self.width
    }

    /// Returns the height of the rectangle in pixels.
    #[verifier::when_used_as_spec(spec_height)]
    pub fn height(&self) -> (h: u32)
        ensures
            h == self.height(),
    {
        self.height
    }

    /// Returns the top-left corner of the rectangle, relative to the top-left
    /// corner of the virtual screen.
    #[verifier::when_used_as_spec(spec_offset)]
    pub fn offset(&self) -> (o: Point)
        ensures
            o == self.offset(),
    {
        self.offset
    }

    /// Yields the area of the rectangle in square pixels, held at `u32::MAX`
    /// where it would not fit.
    #[verifier::when_used_as_spec(spec_area)]
    pub fn area(&self) -> (a: u32)
        ensures
            a == self.area(),
            self.width() * self.height() <= u32::MAX ==> a == self.width() * self.height(),
            self.width() * self.height() > u32::MAX ==> a == u32::MAX,
    {
        match self.width.checked_mul(self.height) {
            Some(product) => product,
            None => u32::MAX,
        }
    }

    /// A rectangle is its size and its corner. One without width or without
    /// height holds no point.
    pub proof fn lemma_parts(self)
        ensures
            self == Rect::new(self.width(), self.height(), self.offset()),
            forall|w: u32, h: u32, o: Point|
                #![trigger Rect::new(w, h, o)]
                Rect::new(w, h, o).width() == w && Rect::new(w, h, o).height() == h && Rect::new(
                    w,
                    h,
                    o,
                ).offset() == o,
            self.width() == 0 || self.height() == 0 ==> forall|p: Point| !self.contains(p),
    {
    }
}

} // verus!
