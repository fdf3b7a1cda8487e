use vstd::prelude::*;

verus! {

/// A 24-bit RGB color.
#[derive(Clone, Copy, Debug)]
pub struct Color {
    pub r: u8,
    pub g: u8,
    pub b: u8,
}

impl Color {
    /// The color with the given components.
    pub fn rgb(r: u8, g: u8, b: u8) -> (c: Self)
        ensures
            c == (Color { r, g, b }),
    {
        Color { r, g, b }
    }

    /// Black: every component 0.
    pub fn black() -> (c: Self)
        ensures
            c == (Color { r: 0, g: 0, b: 0 }),
    {
        Color { r: 0, g: 0, b: 0 }
    }

    /// White: every component 255.
    pub fn white() -> (c: Self)
        ensures
            c == (Color { r: 255, g: 255, b: 255 }),
    {
        Color { r: 255, g: 255, b: 255 }
    }

    /// Pure red.
    pub fn red() -> (c: Self)
        ensures
            c == (Color { r: 255, g: 0, b: 0 }),
    {
        Color { r: 255, g: 0, b: 0 }
    }

    /// Pure green.
    pub fn green() -> (c: Self)
        ensures
            c == (Color { r: 0, g: 255, b: 0 }),
    {
        Color { r: 0, g: 255, b: 0 }
    }

    /// Pure blue.
    pub fn blue() -> (c: Self)
        ensures
            c == (Color { r: 0, g: 0, b: 255 }),
    {
        Color { r: 0, g: 0, b: 255 }
    }
}

/// A pixel position: column `x`, row `y`.
#[derive(Clone, Copy, Debug)]
pub struct Point {
    pub x: usize,
    pub y: usize,
}

impl Point {
    pub fn new(x: usize, y: usize) -> (p: Self)
        ensures
            p == (Point { x, y }),
    {
        Point { x, y }
    }
}

/// A width and a height in pixels.
#[derive(Clone, Copy, Debug)]
pub struct Size {
    pub width: usize,
    pub height: usize,
}

impl Size {
    pub fn new(width: usize, height: usize) -> (s: Self)
        ensures
            s == (Size { width, height }),
    {
        Size { width, height }
    }
}

/// An axis-aligned rectangle: top-left corner `(x, y)` and its size.
#[derive(Clone, Copy, Debug)]
pub struct Rect {
    pub x: usize,
    pub y: usize,
    pub width: usize,
    pub height: usize,
}

impl Rect {
    pub fn new(x: usize, y: usize, width: usize, height: usize) -> (r: Self)
        ensures
            r == (Rect { x, y, width, height }),
    {
        Rect { x, y, width, height }
    }
}

} // verus!
