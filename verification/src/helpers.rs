//! Small shared value types: sizes, positions, and the shape-action enum
//! whose integer encoding is shared with the GPU kernels.

use vstd::prelude::*;

verus! {

/// The current drawing action. Its integer encoding (see [`Action::code`])
/// is the single source of truth for shape-kind dispatch: the interaction
/// state machine and both GPU kernel binding blocks use the same value.
#[derive(Clone, Copy, PartialEq, Eq, Structural, Debug)]
pub enum Action {
    Init,
    DrawLine,
    DrawRectangle,
    DrawCircle,
    DrawEllipse,
    DrawPolygon,
    Erase,
    Fill,
    CutRectangle,
}

impl Action {
    /// The integer encoding of an action, as both GPU kernels read it.
    pub open spec fn spec_code(self) -> u32 {
        match self {
            Action::Init => 0,
            Action::DrawLine => 1,
            Action::DrawRectangle => 2,
            Action::DrawCircle => 3,
            Action::DrawEllipse => 4,
            Action::DrawPolygon => 5,
            Action::Erase => 6,
            Action::Fill => 7,
            Action::CutRectangle => 8,
        }
    }

    /// Executable form of the shared encoding.
    pub fn code(self) -> (r: u32)
        ensures
            r == self.spec_code(),
    {
        match self {
            Action::Init => 0,
            Action::DrawLine => 1,
            Action::DrawRectangle => 2,
            Action::DrawCircle => 3,
            Action::DrawEllipse => 4,
            Action::DrawPolygon => 5,
            Action::Erase => 6,
            Action::Fill => 7,
            Action::CutRectangle => 8,
        }
    }

    /// True of the single-shape actions: those that are drawn from a fixed
    /// set of control points and committed as one shape.
    pub open spec fn spec_is_single_shape(self) -> bool {
        match self {
            Action::DrawLine
            | Action::DrawRectangle
            | Action::DrawCircle
            | Action::DrawEllipse
            | Action::CutRectangle => true,
            _ => false,
        }
    }

    /// Executable form of [`Action::spec_is_single_shape`].
    pub fn is_single_shape(self) -> (r: bool)
        ensures
            r == self.spec_is_single_shape(),
    {
        match self {
            Action::DrawLine
            | Action::DrawRectangle
            | Action::DrawCircle
            | Action::DrawEllipse
            | Action::CutRectangle => true,
            _ => false,
        }
    }
}

/// An RGBA color as four bytes.
#[derive(Clone, Copy, PartialEq, Eq, Structural, Debug)]
pub struct Rgba {
    pub r: u8,
    pub g: u8,
    pub b: u8,
    pub a: u8,
}

impl Rgba {
    pub fn new(r: u8, g: u8, b: u8, a: u8) -> (c: Self)
        ensures
            c == (Rgba { r, g, b, a }),
    {
        Self { r, g, b, a }
    }

    /// The color as the byte array pixel memory holds.
    pub fn to_array(self) -> (arr: [u8; 4])
        ensures
            arr@ == seq![self.r, self.g, self.b, self.a],
    {
        let arr = [self.r, self.g, self.b, self.a];
        proof {
            assert(arr@ =~= seq![self.r, self.g, self.b, self.a]);
        }
        arr
    }
}

/// A width/height pair.
#[derive(Clone, Copy, PartialEq, Eq, Structural, Debug)]
pub struct Size<T> {
    pub width: T,
    pub height: T,
}

impl<T> Size<T> {
    pub fn new(width: T, height: T) -> (r: Self)
        ensures
            r.width == width,
            r.height == height,
    {
        Self { width, height }
    }
}

/// A two-dimensional position.
#[derive(Clone, Copy, PartialEq, Eq, Structural, Debug)]
pub struct Position<T> {
    pub x: T,
    pub y: T,
}

impl<T> Position<T> {
    pub fn new(x: T, y: T) -> (r: Self)
        ensures
            r.x == x,
            r.y == y,
    {
        Self { x, y }
    }
}

} // verus!
