//! Colours for text on a terminal.

use vstd::prelude::*;
use vstd::string::StringExecFns;

verus! {

/// The colours that text on a terminal can have.
pub enum TerminalColor {
    Green,
    Yellow,
    Red,
    Blue,
    Magenta,
    Default,
}

impl TerminalColor {
    /// The escape sequence that switches the terminal to the colour.
    pub open spec fn code(self) -> Seq<char> {
        match self {
            TerminalColor::Green => "\x1b[32m"@,
            TerminalColor::Yellow => "\x1b[33m"@,
            TerminalColor::Red => "\x1b[31m"@,
            TerminalColor::Blue => "\x1b[34m"@,
            TerminalColor::Magenta => "\x1b[35m"@,
            TerminalColor::Default => "\x1b[39m"@,
        }
    }

    /// The escape sequence that switches the terminal to the colour.
    pub fn escape_code(&self) -> (code: &'static str)
        ensures
            code@ == self.code(),
    {
        match self {
            TerminalColor::Green => "\x1b[32m",
            TerminalColor::Yellow => "\x1b[33m",
            TerminalColor::Red => "\x1b[31m",
            TerminalColor::Blue => "\x1b[34m",
            TerminalColor::Magenta => "\x1b[35m",
            TerminalColor::Default => "\x1b[39m",
        }
    }
}

/// What can be shown in a colour.
pub trait Colorizable {
    type Result;

    fn colorize(&self, color: TerminalColor) -> Self::Result;
}

impl Colorizable for String {
    type Result = String;

    /// The text between the escape sequence of the colour and the one that switches
    /// back to the default colour.
    fn colorize(&self, color: TerminalColor) -> (text: String)
        ensures
            text@ == color.code() + self@ + TerminalColor::Default.code(),
    {
        let mut text = String::from_str(color.escape_code());
        text.append(self.as_str());
        text.append(TerminalColor::Default.escape_code());
        text
    }
}

} // verus!
