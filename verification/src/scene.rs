//! The scene model: the data the renderer consumes. Canvas, Drawing, Shape
//! and Position are immutable value data built once by the caller and handed
//! to the renderer by reference; they carry no behavior beyond structural
//! accessors.

use vstd::prelude::*;

verus! {

/// A 2D coordinate. An immutable value with no identity beyond its
/// coordinates.
#[derive(Clone, Copy, PartialEq, Eq, Structural, Debug)]
pub struct Position {
    pub x: i64,
    pub y: i64,
}

impl Position {
    pub fn new(x: i64, y: i64) -> (p: Position)
        ensures
            p == (Position { x, y }),
    {
        Position { x, y }
    }
}

/// The closed, tagged set of drawable primitives. Adding a variant forces
/// every match over `Shape` — in particular the shape-to-primitive mapping —
/// to be extended before the crate builds again.
#[derive(Clone, Copy, PartialEq, Eq, Structural, Debug)]
pub enum Shape {
    Rectangle { width: i64, height: i64 },
}

/// An ordered sequence of child drawings, painted bottom to top: each entry
/// is drawn after (on top of) the one before it.
pub struct DisplayList {
    pub drawings: Vec<Drawing>,
}

/// A positioned shape with a nested sub-scene. The children in
/// `display_list` are drawn after the drawing's own shape and on top of it;
/// their positions are absolute, not offset by the parent's position.
pub struct Drawing {
    pub position: Position,
    pub shape: Shape,
    pub display_list: DisplayList,
}

/// The root rendering context: the viewport extents, an optional background
/// shape drawn at the origin before anything else, and the root-level
/// display list.
pub struct Canvas {
    pub width: i64,
    pub height: i64,
    pub background: Option<Shape>,
    pub drawings: Vec<Drawing>,
}

impl Canvas {
    /// The root-level drawings, in bottom-to-top paint order.
    pub fn drawings(&self) -> (r: &Vec<Drawing>)
        ensures
            *r == self.drawings,
    {
        &self.drawings
    }
}

} // verus!
