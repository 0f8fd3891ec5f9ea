//! Axis-aligned rectangles with whole-number sides.

use crate::decimal::{append_decimal, decimal};
use vstd::prelude::*;
use vstd::string::StringExecFns;

verus! {

/// The product of two side lengths, which may exceed what a `u32` can hold.
pub open spec fn area_of(width: u32, height: u32) -> nat {
    (width as nat) * (height as nat)
}

/// What is said of a rectangle with the given sides: the words
/// `rectangle with width: `, the width in decimal digits, the words
/// ` and height `, and the height in decimal digits.
pub open spec fn info_of(width: u32, height: u32) -> Seq<char> {
    "rectangle with width: "@ + decimal(width as nat) + " and height "@ + decimal(height as nat)
}

/// A rectangle given by its width and height.
#[derive(Debug)]
pub struct Rectangle {
    pub width: u32,
    pub height: u32,
}

impl Rectangle {
    /// The area of the rectangle, for a rectangle whose area fits in a
    /// `u32`.
    pub fn area(&self) -> (area: u32)
        requires
            area_of(self.width, self.height) <= u32::MAX,
        ensures
            area == area_of(self.width, self.height),
    {
        self.width * self.height
    }
}

/// A rectangle that keeps its sides to itself.
#[derive(Debug)]
pub struct MyRectangle {
    width: u32,
    height: u32,
}

impl View for MyRectangle {
    type V = (u32, u32);

    /// The width and the height, in this order.
    closed spec fn view(&self) -> (u32, u32) {
        (self.width, self.height)
    }
}

impl MyRectangle {
    /// The rectangle with the given sides.
    pub fn new(width: u32, height: u32) -> (rectangle: Self)
        ensures
            rectangle@ == (width, height),
    {
        Self { width, height }
    }

    /// The width.
    pub fn width(&self) -> (width: u32)
        ensures
            width == self@.0,
    {
        self.width
    }

    /// The height.
    pub fn height(&self) -> (height: u32)
        ensures
            height == self@.1,
    {
        self.height
    }

    /// One line of text that names the sides of the rectangle.
    pub fn info(&self) -> (text: String)
        ensures
            text@ == info_of(self@.0, self@.1),
    {
        let mut text = String::from_str("rectangle with width: ");
        append_decimal(&mut text, self.width);
        text.append(" and height ");
        append_decimal(&mut text, self.height);
        text
    }

    /// The area of the rectangle, for a rectangle whose area fits in a
    /// `u32`.
    pub fn area(&self) -> (area: u32)
        requires
            area_of(self@.0, self@.1) <= u32::MAX,
        ensures
            area == area_of(self@.0, self@.1),
    {
        self.width * self.height
    }
}

} // verus!
