//! Small stand-alone integer utilities.

use vstd::prelude::*;

verus! {

/// An axis-aligned rectangle with integer sides.
#[derive(Clone, Copy, Debug, PartialEq, Eq, Structural)]
pub struct Rectangle {
    pub width: u32,
    pub height: u32,
}

impl Rectangle {
    pub fn new(width: u32, height: u32) -> (r: Rectangle)
        ensures
            r == (Rectangle { width, height }),
    {
        Rectangle { width, height }
    }

    /// The area; the product must fit the return type.
    pub fn area(&self) -> (r: u32)
        requires
            self.width * self.height <= u32::MAX,
        ensures
            r == self.width * self.height,
    {
        self.width * self.height
    }
}

/// A selectable arithmetic operation.
#[derive(Clone, Copy, Debug, PartialEq, Eq, Structural)]
pub enum MyEnum {
    Add,
    Subtract,
}

impl MyEnum {
    /// Applies the selected operation; the result must fit the type.
    pub fn run(&self, x: i32, y: i32) -> (r: i32)
        requires
            *self is Add ==> i32::MIN <= x + y <= i32::MAX,
            *self is Subtract ==> i32::MIN <= x - y <= i32::MAX,
        ensures
            *self is Add ==> r == x + y,
            *self is Subtract ==> r == x - y,
    {
        match self {
            MyEnum::Add => x + y,
            MyEnum::Subtract => x - y,
        }
    }
}

} // verus!
