//! The closed set of colors a drawing can use.

use vstd::prelude::*;

verus! {

/// A named color, rendered into markup attributes by its lower-case
/// name (`Transparent` renders as the keyword `none`: not painted).
#[derive(Clone, Copy, Debug, PartialEq, Eq, Structural)]
pub enum Color {
    Transparent,
    Black,
    Brown,
    Maroon,
    White,
    Red,
    Green,
    DarkGreen,
    Blue,
    Orange,
    Grey,
    LightGrey,
    DarkGrey,
}

/// The attribute text of each color.
pub open spec fn color_str(c: Color) -> Seq<char> {
    match c {
        Color::Transparent => "none"@,
        Color::Black => "black"@,
        Color::Brown => "brown"@,
        Color::Maroon => "maroon"@,
        Color::White => "white"@,
        Color::Red => "red"@,
        Color::Green => "green"@,
        Color::DarkGreen => "darkgreen"@,
        Color::Blue => "blue"@,
        Color::Orange => "orange"@,
        Color::Grey => "grey"@,
        Color::LightGrey => "lightgrey"@,
        Color::DarkGrey => "darkgrey"@,
    }
}

impl Color {
    /// The color's attribute text: its lower-case name.
    pub fn name(&self) -> (r: &'static str)
        ensures
            r@ == color_str(*self),
    {
        match self {
            Color::Transparent => "none",
            Color::Black => "black",
            Color::Brown => "brown",
            Color::Maroon => "maroon",
            Color::White => "white",
            Color::Red => "red",
            Color::Green => "green",
            Color::DarkGreen => "darkgreen",
            Color::Blue => "blue",
            Color::Orange => "orange",
            Color::Grey => "grey",
            Color::LightGrey => "lightgrey",
            Color::DarkGrey => "darkgrey",
        }
    }
}

} // verus!
