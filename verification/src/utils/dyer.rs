//! Colours for the terminal.

use vstd::prelude::*;
use vstd::string::*;

verus! {

/// The sequence that ends a colour.
pub const COLOR_END: &'static str = "\x1b[0m";

/// The sixteen colours of a terminal.
#[derive(Debug, PartialEq, Eq, Hash)]
pub enum Colors {
    Black,
    Red,
    Green,
    Yellow,
    Blue,
    Magenta,
    Cyan,
    White,
    BrightBlack,
    BrightRed,
    BrightGreen,
    BrightYellow,
    BrightBlue,
    BrightMagenta,
    BrightCyan,
    BrightWhite,
}

impl Colors {
    /// The escape sequence that switches the terminal to the colour.
    pub open spec fn escape(self) -> Seq<char> {
        match self {
            Colors::Black => "\x1b[30m"@,
            Colors::Red => "\x1b[31m"@,
            Colors::Green => "\x1b[32m"@,
            Colors::Yellow => "\x1b[33m"@,
            Colors::Blue => "\x1b[34m"@,
            Colors::Magenta => "\x1b[35m"@,
            Colors::Cyan => "\x1b[36m"@,
            Colors::White => "\x1b[37m"@,
            Colors::BrightBlack => "\x1b[90m"@,
            Colors::BrightRed => "\x1b[91m"@,
            Colors::BrightGreen => "\x1b[92m"@,
            Colors::BrightYellow => "\x1b[93m"@,
            Colors::BrightBlue => "\x1b[94m"@,
            Colors::BrightMagenta => "\x1b[95m"@,
            Colors::BrightCyan => "\x1b[96m"@,
            Colors::BrightWhite => "\x1b[97m"@,
        }
    }
}

impl From<Colors> for String {
    fn from(value: Colors) -> (s: String)
        ensures
            s@ == value.escape(),
    {
        match value {
            Colors::Black => String::from_str("\x1b[30m"),
            Colors::Red => String::from_str("\x1b[31m"),
            Colors::Green => String::from_str("\x1b[32m"),
            Colors::Yellow => String::from_str("\x1b[33m"),
            Colors::Blue => String::from_str("\x1b[34m"),
            Colors::Magenta => String::from_str("\x1b[35m"),
            Colors::Cyan => String::from_str("\x1b[36m"),
            Colors::White => String::from_str("\x1b[37m"),
            Colors::BrightBlack => String::from_str("\x1b[90m"),
            Colors::BrightRed => String::from_str("\x1b[91m"),
            Colors::BrightGreen => String::from_str("\x1b[92m"),
            Colors::BrightYellow => String::from_str("\x1b[93m"),
            Colors::BrightBlue => String::from_str("\x1b[94m"),
            Colors::BrightMagenta => String::from_str("\x1b[95m"),
            Colors::BrightCyan => String::from_str("\x1b[96m"),
            Colors::BrightWhite => String::from_str("\x1b[97m"),
        }
    }
}

impl vstd::std_specs::convert::FromSpecImpl<Colors> for String {
    open spec fn obeys_from_spec() -> bool {
        false
    }

    open spec fn from_spec(value: Colors) -> String {
        arbitrary()
    }
}

/// `text` in the colour `color`: the colour's escape sequence, the text,
/// the sequence that ends the colour.
pub open spec fn dyed(text: Seq<char>, color: Colors) -> Seq<char> {
    color.escape() + text + COLOR_END@
}

/// What can be written in colour.
pub trait Dye {
    /// The characters that are written.
    spec fn plain(&self) -> Seq<char>;

    fn dye(&self, color: Colors) -> (s: String)
        ensures
            s@ == dyed(self.plain(), color),
    ;
}

impl Dye for String {
    open spec fn plain(&self) -> Seq<char> {
        self@
    }

    fn dye(&self, color: Colors) -> (s: String) {
        let c: String = String::from(color);
        c.concat(self.as_str()).concat(COLOR_END)
    }
}

impl Dye for &str {
    open spec fn plain(&self) -> Seq<char> {
        self@
    }

    fn dye(&self, color: Colors) -> (s: String) {
        let c: String = String::from(color);
        c.concat(self).concat(COLOR_END)
    }
}

} // verus!
