//! ANSI terminal escape sequences (Select Graphic Rendition).
use vstd::prelude::*;
use crate::text::decimal;

verus! {

/// An SGR terminal attribute: a reset, a text attribute, a foreground colour
/// or a background colour.
#[derive(Debug, Clone, Copy, PartialEq, Eq)]
pub enum Ansi {
    /* ---------- reset ---------- */
    Reset,

    /* ---------- text attributes ---------- */
    Bold,
    Dim,
    Italic,
    Underline,
    Blink,
    Reverse,
    Hidden,
    Strikethrough,
    NormalIntensity,
    ItalicOff,
    UnderlineOff,
    BlinkOff,
    ReverseOff,
    HiddenOff,
    StrikethroughOff,

    /* ---------- foreground colours ---------- */
    Black,
    Red,
    Green,
    Yellow,
    Blue,
    Magenta,
    Cyan,
    White,
    BrightBlack,
    BrightRed,
    BrightGreen,
    BrightYellow,
    BrightBlue,
    BrightMagenta,
    BrightCyan,
    BrightWhite,

    /* ---------- background colours ---------- */
    BgBlack,
    BgRed,
    BgGreen,
    BgYellow,
    BgBlue,
    BgMagenta,
    BgCyan,
    BgWhite,
    BgBrightBlack,
    BgBrightRed,
    BgBrightGreen,
    BgBrightYellow,
    BgBrightBlue,
    BgBrightMagenta,
    BgBrightCyan,
    BgBrightWhite,
}

impl Ansi {
    /// The SGR parameter of the attribute: the number between `ESC [` and `m`.
    pub open spec fn sgr(self) -> nat {
        match self {
            Ansi::Reset => 0,
            Ansi::Bold => 1,
            Ansi::Dim => 2,
            Ansi::Italic => 3,
            Ansi::Underline => 4,
            Ansi::Blink => 5,
            Ansi::Reverse => 7,
            Ansi::Hidden => 8,
            Ansi::Strikethrough => 9,
            Ansi::NormalIntensity => 22,
            Ansi::ItalicOff => 23,
            Ansi::UnderlineOff => 24,
            Ansi::BlinkOff => 25,
            Ansi::ReverseOff => 27,
            Ansi::HiddenOff => 28,
            Ansi::StrikethroughOff => 29,
            Ansi::Black => 30,
            Ansi::Red => 31,
            Ansi::Green => 32,
            Ansi::Yellow => 33,
            Ansi::Blue => 34,
            Ansi::Magenta => 35,
            Ansi::Cyan => 36,
            Ansi::White => 37,
            Ansi::BrightBlack => 90,
            Ansi::BrightRed => 91,
            Ansi::BrightGreen => 92,
            Ansi::BrightYellow => 93,
            Ansi::BrightBlue => 94,
            Ansi::BrightMagenta => 95,
            Ansi::BrightCyan => 96,
            Ansi::BrightWhite => 97,
            Ansi::BgBlack => 40,
            Ansi::BgRed => 41,
            Ansi::BgGreen => 42,
            Ansi::BgYellow => 43,
            Ansi::BgBlue => 44,
            Ansi::BgMagenta => 45,
            Ansi::BgCyan => 46,
            Ansi::BgWhite => 47,
            Ansi::BgBrightBlack => 100,
            Ansi::BgBrightRed => 101,
            Ansi::BgBrightGreen => 102,
            Ansi::BgBrightYellow => 103,
            Ansi::BgBrightBlue => 104,
            Ansi::BgBrightMagenta => 105,
            Ansi::BgBrightCyan => 106,
            Ansi::BgBrightWhite => 107,
        }
    }

    /// The escape sequence of the attribute: `ESC [ <sgr> m`.
    pub open spec fn escape(self) -> Seq<char> {
        sgr_sequence(self.sgr())
    }

    /// The escape sequence that selects this attribute on an ANSI terminal.
    pub fn to_str(&self) -> (s: &'static str)
        ensures
            s@ == self.escape(),
    {
        proof {
            reveal_with_fuel(decimal, 4);
        }
        match self {
            Ansi::Reset => {
                proof {
                    reveal_strlit("\x1B[0m");
                }
                "\x1B[0m"
            },
            Ansi::Bold => {
                proof {
                    reveal_strlit("\x1B[1m");
                }
                "\x1B[1m"
            },
            Ansi::Dim => {
                proof {
                    reveal_strlit("\x1B[2m");
                }
                "\x1B[2m"
            },
            Ansi::Italic => {
                proof {
                    reveal_strlit("\x1B[3m");
                }
                "\x1B[3m"
            },
            Ansi::Underline => {
                proof {
                    reveal_strlit("\x1B[4m");
                }
                "\x1B[4m"
            },
            Ansi::Blink => {
                proof {
                    reveal_strlit("\x1B[5m");
                }
                "\x1B[5m"
            },
            Ansi::Reverse => {
                proof {
                    reveal_strlit("\x1B[7m");
                }
                "\x1B[7m"
            },
            Ansi::Hidden => {
                proof {
                    reveal_strlit("\x1B[8m");
                }
                "\x1B[8m"
            },
            Ansi::Strikethrough => {
                proof {
                    reveal_strlit("\x1B[9m");
                }
                "\x1B[9m"
            },
            Ansi::NormalIntensity => {
                proof {
                    reveal_strlit("\x1B[22m");
                }
                "\x1B[22m"
            },
            Ansi::ItalicOff => {
                proof {
                    reveal_strlit("\x1B[23m");
                }
                "\x1B[23m"
            },
            Ansi::UnderlineOff => {
                proof {
                    reveal_strlit("\x1B[24m");
                }
                "\x1B[24m"
            },
            Ansi::BlinkOff => {
                proof {
                    reveal_strlit("\x1B[25m");
                }
                "\x1B[25m"
            },
            Ansi::ReverseOff => {
                proof {
                    reveal_strlit("\x1B[27m");
                }
                "\x1B[27m"
            },
            Ansi::HiddenOff => {
                proof {
                    reveal_strlit("\x1B[28m");
                }
                "\x1B[28m"
            },
            Ansi::StrikethroughOff => {
                proof {
                    reveal_strlit("\x1B[29m");
                }
                "\x1B[29m"
            },
            Ansi::Black => {
                proof {
                    reveal_strlit("\x1B[30m");
                }
                "\x1B[30m"
            },
            Ansi::Red => {
                proof {
                    reveal_strlit("\x1B[31m");
                }
                "\x1B[31m"
            },
            Ansi::Green => {
                proof {
                    reveal_strlit("\x1B[32m");
                }
                "\x1B[32m"
            },
            Ansi::Yellow => {
                proof {
                    reveal_strlit("\x1B[33m");
                }
                "\x1B[33m"
            },
            Ansi::Blue => {
                proof {
                    reveal_strlit("\x1B[34m");
                }
                "\x1B[34m"
            },
            Ansi::Magenta => {
                proof {
                    reveal_strlit("\x1B[35m");
                }
                "\x1B[35m"
            },
            Ansi::Cyan => {
                proof {
                    reveal_strlit("\x1B[36m");
                }
                "\x1B[36m"
            },
            Ansi::White => {
                proof {
                    reveal_strlit("\x1B[37m");
                }
                "\x1B[37m"
            },
            Ansi::BrightBlack => {
                proof {
                    reveal_strlit("\x1B[90m");
                }
                "\x1B[90m"
            },
            Ansi::BrightRed => {
                proof {
                    reveal_strlit("\x1B[91m");
                }
                "\x1B[91m"
            },
            Ansi::BrightGreen => {
                proof {
                    reveal_strlit("\x1B[92m");
                }
                "\x1B[92m"
            },
            Ansi::BrightYellow => {
                proof {
                    reveal_strlit("\x1B[93m");
                }
                "\x1B[93m"
            },
            Ansi::BrightBlue => {
                proof {
                    reveal_strlit("\x1B[94m");
                }
                "\x1B[94m"
            },
            Ansi::BrightMagenta => {
                proof {
                    reveal_strlit("\x1B[95m");
                }
                "\x1B[95m"
            },
            Ansi::BrightCyan => {
                proof {
                    reveal_strlit("\x1B[96m");
                }
                "\x1B[96m"
            },
            Ansi::BrightWhite => {
                proof {
                    reveal_strlit("\x1B[97m");
                }
                "\x1B[97m"
            },
            Ansi::BgBlack => {
                proof {
                    reveal_strlit("\x1B[40m");
                }
                "\x1B[40m"
            },
            Ansi::BgRed => {
                proof {
                    reveal_strlit("\x1B[41m");
                }
                "\x1B[41m"
            },
            Ansi::BgGreen => {
                proof {
                    reveal_strlit("\x1B[42m");
                }
                "\x1B[42m"
            },
            Ansi::BgYellow => {
                proof {
                    reveal_strlit("\x1B[43m");
                }
                "\x1B[43m"
            },
            Ansi::BgBlue => {
                proof {
                    reveal_strlit("\x1B[44m");
                }
                "\x1B[44m"
            },
            Ansi::BgMagenta => {
                proof {
                    reveal_strlit("\x1B[45m");
                }
                "\x1B[45m"
            },
            Ansi::BgCyan => {
                proof {
                    reveal_strlit("\x1B[46m");
                }
                "\x1B[46m"
            },
            Ansi::BgWhite => {
                proof {
                    reveal_strlit("\x1B[47m");
                }
                "\x1B[47m"
            },
            Ansi::BgBrightBlack => {
                proof {
                    reveal_strlit("\x1B[100m");
                }
                "\x1B[100m"
            },
            Ansi::BgBrightRed => {
                proof {
                    reveal_strlit("\x1B[101m");
                }
                "\x1B[101m"
            },
            Ansi::BgBrightGreen => {
                proof {
                    reveal_strlit("\x1B[102m");
                }
                "\x1B[102m"
            },
            Ansi::BgBrightYellow => {
                proof {
                    reveal_strlit("\x1B[103m");
                }
                "\x1B[103m"
            },
            Ansi::BgBrightBlue => {
                proof {
                    reveal_strlit("\x1B[104m");
                }
                "\x1B[104m"
            },
            Ansi::BgBrightMagenta => {
                proof {
                    reveal_strlit("\x1B[105m");
                }
                "\x1B[105m"
            },
            Ansi::BgBrightCyan => {
                proof {
                    reveal_strlit("\x1B[106m");
                }
                "\x1B[106m"
            },
            Ansi::BgBrightWhite => {
                proof {
                    reveal_strlit("\x1B[107m");
                }
                "\x1B[107m"
            },
        }
    }
}

/// `ESC [ <code> m`
pub open spec fn sgr_sequence(code: nat) -> Seq<char> {
    seq!['\x1B', '['] + decimal(code) + seq!['m']
}

} // verus!
