//! Colours for a terminal.
use crate::numbers;
use crate::text;
use colored::Colorize;
use vstd::prelude::*;

verus! {

/// The ways in which a text can be set off.
#[derive(Debug, Clone, Copy, PartialEq, Eq, Structural)]
pub enum Tone {
    Red,
    Green,
    Magenta,
    Dimmed,
    BoldGreen,
}

/// The sequence that begins a tone.
pub open spec fn style(tone: Tone) -> Seq<char> {
    match tone {
        Tone::Red => "\x1B[31m"@,
        Tone::Green => "\x1B[32m"@,
        Tone::Magenta => "\x1B[35m"@,
        Tone::Dimmed => "\x1B[2m"@,
        Tone::BoldGreen => "\x1B[1;32m"@,
    }
}

/// The sequence that ends every tone.
pub open spec fn reset() -> Seq<char> {
    "\x1B[0m"@
}

/// `s` in a tone, with blanks before it up to a width. The tone is taken up again
/// after each reset within the text.
pub open spec fn inked(s: Seq<char>, tone: Tone, width: nat) -> Seq<char> {
    style(tone) + numbers::pad_start(text::replace(s, reset(), reset() + style(tone)), width)
        + reset()
}

/// `s`, with blanks before it up to a width, in a tone if that shows.
pub open spec fn painted(s: Seq<char>, tone: Tone, width: nat, shows: bool) -> Seq<char> {
    if shows {
        inked(s, tone, width)
    } else {
        numbers::pad_start(s, width)
    }
}

/// Whether `out` is `s`, with blanks before it up to a width, in a tone or
/// without one.
pub open spec fn painting(out: Seq<char>, s: Seq<char>, tone: Tone, width: nat) -> bool {
    out == painted(s, tone, width, false) || out == painted(s, tone, width, true)
}

/// `colored::Colorize`: the text in a tone, written with `{:>width$}`. Whether
/// the tone shows depends on the environment and on the terminal, so either
/// outcome is possible. A width beyond 65535 is more than `format!` takes.
#[verifier::external_body]
pub(crate) fn paint(s: &str, tone: Tone, width: usize) -> (out: String)
    requires
        width <= 65535,
    ensures
        painting(out@, s@, tone, width as nat),
{
    let coloured = match tone {
        Tone::Red => s.red(),
        Tone::Green => s.green(),
        Tone::Magenta => s.magenta(),
        Tone::Dimmed => s.dimmed(),
        Tone::BoldGreen => s.bold().green(),
    };
    format!("{:>width$}", coloured)
}

} // verus!
