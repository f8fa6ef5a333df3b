//! The state of the HTTP service, as shown in a terminal status line.
use vstd::prelude::*;

use colored::Colorize;

verus! {

/// Where the HTTP service stands.
#[derive(Clone, Copy, Debug, PartialEq, Eq, Structural)]
pub enum ApiStatus {
    RunningOk,
    Starting,
    FailedToBindToPort,
    UnknownServerError,
    Stopped,
}

/// The terminal colors a status line uses.
#[derive(Clone, Copy, Debug, PartialEq, Eq, Structural)]
pub enum Tint {
    Green,
    BrightGreen,
    Red,
    BrightRed,
}

/// The foreground code of a tint in an ANSI escape sequence.
pub open spec fn tint_code(t: Tint) -> Seq<char> {
    match t {
        Tint::Green => seq!['3', '2'],
        Tint::BrightGreen => seq!['9', '2'],
        Tint::Red => seq!['3', '1'],
        Tint::BrightRed => seq!['9', '1'],
    }
}

/// `text` in the color of `t`: the escape sequence that sets the color, the
/// text, and the one that resets it.
pub open spec fn tinted(text: Seq<char>, t: Tint) -> Seq<char> {
    seq!['\u{1b}', '['] + tint_code(t) + seq!['m'] + text + seq!['\u{1b}', '[', '0', 'm']
}

pub open spec fn has_no_escape(s: Seq<char>) -> bool {
    forall|i: int| 0 <= i < s.len() ==> s[i] != '\u{1b}'
}

/// Relies on colored's `Colorize::color` on a `&str` and the `Display` of the
/// resulting `ColoredString`: with colors switched on (which depends on the
/// environment and the terminal) the text is wrapped in the escape sequences
/// of its foreground color; with them off it is the text alone. Text without
/// an escape character is not altered otherwise.
#[verifier::external_body]
fn paint(text: &str, t: Tint) -> (r: String)
    requires
        has_no_escape(text@),
    ensures
        r@ == text@ || r@ == tinted(text@, t),
{
    let color = match t {
        Tint::Green => colored::Color::Green,
        Tint::BrightGreen => colored::Color::BrightGreen,
        Tint::Red => colored::Color::Red,
        Tint::BrightRed => colored::Color::BrightRed,
    };
    text.color(color).to_string()
}

impl ApiStatus {
    /// The variant's name.
    pub open spec fn name_spec(self) -> Seq<char> {
        match self {
            ApiStatus::RunningOk => seq!['R', 'u', 'n', 'n', 'i', 'n', 'g', 'O', 'k'],
            ApiStatus::Starting => seq!['S', 't', 'a', 'r', 't', 'i', 'n', 'g'],
            ApiStatus::FailedToBindToPort => seq![
                'F', 'a', 'i', 'l', 'e', 'd', 'T', 'o', 'B', 'i', 'n', 'd', 'T', 'o', 'P', 'o', 'r', 't',
            ],
            ApiStatus::UnknownServerError => seq![
                'U', 'n', 'k', 'n', 'o', 'w', 'n', 'S', 'e', 'r', 'v', 'e', 'r', 'E', 'r', 'r', 'o', 'r',
            ],
            ApiStatus::Stopped => seq!['S', 't', 'o', 'p', 'p', 'e', 'd'],
        }
    }

    /// The color the status is shown in.
    pub open spec fn tint(self) -> Tint {
        match self {
            ApiStatus::RunningOk => Tint::BrightGreen,
            ApiStatus::Starting => Tint::Green,
            ApiStatus::FailedToBindToPort | ApiStatus::UnknownServerError => Tint::Red,
            ApiStatus::Stopped => Tint::BrightRed,
        }
    }

    /// The variant's name.
    pub fn name(&self) -> (r: &'static str)
        ensures
            r@ == self.name_spec(),
    {
        match self {
            ApiStatus::RunningOk => {
                proof {
                    reveal_strlit("RunningOk");
                }
                let r = "RunningOk";
                assert(r@ =~= self.name_spec());
                r
            },
            ApiStatus::Starting => {
                proof {
                    reveal_strlit("Starting");
                }
                let r = "Starting";
                assert(r@ =~= self.name_spec());
                r
            },
            ApiStatus::FailedToBindToPort => {
                proof {
                    reveal_strlit("FailedToBindToPort");
                }
                let r = "FailedToBindToPort";
                assert(r@ =~= self.name_spec());
                r
            },
            ApiStatus::UnknownServerError => {
                proof {
                    reveal_strlit("UnknownServerError");
                }
                let r = "UnknownServerError";
                assert(r@ =~= self.name_spec());
                r
            },
            ApiStatus::Stopped => {
                proof {
                    reveal_strlit("Stopped");
                }
                let r = "Stopped";
                assert(r@ =~= self.name_spec());
                r
            },
        }
    }

    /// The status's name in its color: bright green while running, green
    /// while starting, red after a failure and bright red once stopped. The
    /// name stands alone when the terminal takes no colors.
    pub fn as_info_string(&self) -> (r: String)
        ensures
            r@ == self.name_spec() || r@ == tinted(self.name_spec(), self.tint()),
    {
        let name = self.name();
        let tint = match self {
            ApiStatus::RunningOk => Tint::BrightGreen,
            ApiStatus::Starting => Tint::Green,
            ApiStatus::FailedToBindToPort | ApiStatus::UnknownServerError => Tint::Red,
            ApiStatus::Stopped => Tint::BrightRed,
        };
        paint(name, tint)
    }
}

} // verus!
