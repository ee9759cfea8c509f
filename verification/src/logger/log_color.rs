use vstd::prelude::*;
use vstd::string::StringExecFns;

verus! {

/// [`LogColor`] represents colors that log messages can use.
#[derive(Debug, Clone, Copy, PartialEq, Eq)]
pub enum LogColor {
    /// [`LogColor::BrightBlue`] represents a bright shade of blue.
    BrightBlue,
    /// [`LogColor::BrightGreen`] represents a bright shade of green.
    BrightGreen,
    /// [`LogColor::BrightRed`] represents a bright shade of red.
    BrightRed,
    /// [`LogColor::BrightYellow`] represents a bright shade of yellow.
    BrightYellow,
    /// [`LogColor::Blue`] represents a medium shade of blue.
    Blue,
    /// [`LogColor::Green`] represents a medium shade of green.
    Green,
    /// [`LogColor::Red`] represents a medium shade of red.
    Red,
    /// [`LogColor::Yellow`] represents a medium shade of yellow.
    Yellow,
    /// [`LogColor::White`] represents a bright shade of white.
    White,
    /// [`LogColor::Grey`] represents a dark shade of white.
    Grey,
}

impl LogColor {
    /// The escape sequence that switches a terminal to the color.
    pub open spec fn code(self) -> Seq<char> {
        match self {
            LogColor::Green => "\x1b[32m"@,
            LogColor::BrightGreen => "\x1b[32;1m"@,
            LogColor::Blue => "\x1b[34m"@,
            LogColor::BrightBlue => "\x1b[34;1m"@,
            LogColor::Yellow => "\x1b[33m"@,
            LogColor::BrightYellow => "\x1b[33;1m"@,
            LogColor::Red => "\x1b[31m"@,
            LogColor::BrightRed => "\x1b[31;1m"@,
            LogColor::White => "\x1b[37;0m"@,
            LogColor::Grey => "\x1b[37;2m"@,
        }
    }

    /// The escape sequence that switches a terminal to the color.
    pub fn to_string(&self) -> (r: String)
        ensures
            r@ == self.code(),
    {
        match self {
            LogColor::Green => String::from_str("\x1b[32m"),
            LogColor::BrightGreen => String::from_str("\x1b[32;1m"),
            LogColor::Blue => String::from_str("\x1b[34m"),
            LogColor::BrightBlue => String::from_str("\x1b[34;1m"),
            LogColor::Yellow => String::from_str("\x1b[33m"),
            LogColor::BrightYellow => String::from_str("\x1b[33;1m"),
            LogColor::Red => String::from_str("\x1b[31m"),
            LogColor::BrightRed => String::from_str("\x1b[31;1m"),
            LogColor::White => String::from_str("\x1b[37;0m"),
            LogColor::Grey => String::from_str("\x1b[37;2m"),
        }
    }
}

} // verus!
