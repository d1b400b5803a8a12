pub mod canvas;
pub mod dec_line;
pub mod typography;
pub mod compat;
pub mod globe;
pub mod line;

use vstd::prelude::*;
use crate::render::canvas::TerminalCapability;
use crate::text::{ascii_lower, contains_str, lower_equals, seq_contains, seq_starts_with, starts_with_str, str_equal};

verus! {

/// Capability tier read off the terminal's environment (non-Windows rules):
/// `$COLORTERM` of `truecolor`/`24bit` (any ASCII case) means true colour; a
/// `$TERM` containing `256color`, or a `$TERM_PROGRAM` containing `iTerm` or
/// `vscode` or equal to `Hyper`, means 256 colours; a `$TERM` starting with
/// `xterm`, `rxvt`, `screen`, `tmux` or equal to `linux` means ANSI 8; anything
/// else falls back to VT-100.
pub open spec fn capability_for_env(colorterm: Option<Seq<char>>, term: Seq<char>, term_program: Seq<char>) -> TerminalCapability {
    if colorterm is Some && (ascii_lower(colorterm->0) == "truecolor"@ || ascii_lower(colorterm->0) == "24bit"@) {
        TerminalCapability::TrueColor
    } else if seq_contains(term, "256color"@) || seq_contains(term_program, "iTerm"@) || seq_contains(
        term_program,
        "vscode"@,
    ) || term_program == "Hyper"@ {
        TerminalCapability::Color256
    } else if seq_starts_with(term, "xterm"@) || seq_starts_with(term, "rxvt"@) || seq_starts_with(
        term,
        "screen"@,
    ) || seq_starts_with(term, "tmux"@) || term == "linux"@ {
        TerminalCapability::Ansi8
    } else {
        TerminalCapability::Vt100
    }
}

/// Decide the terminal capability from the values of `$COLORTERM` (`None`
/// when unset), `$TERM` and `$TERM_PROGRAM` (empty when unset).
pub fn capability_from_env(colorterm: Option<&str>, term: &str, term_program: &str) -> (c: TerminalCapability)
    ensures
        c == capability_for_env(
            match colorterm {
                Some(ct) => Some(ct@),
                None => None,
            },
            term@,
            term_program@,
        ),
{
    if let Some(ct) = colorterm {
        if lower_equals(ct, "truecolor") || lower_equals(ct, "24bit") {
            return TerminalCapability::TrueColor;
        }
    }
    if contains_str(term, "256color") || contains_str(term_program, "iTerm") || contains_str(
        term_program,
        "vscode",
    ) || str_equal(term_program, "Hyper") {
        return TerminalCapability::Color256;
    }
    if starts_with_str(term, "xterm") || starts_with_str(term, "rxvt") || starts_with_str(term, "screen")
        || starts_with_str(term, "tmux") || str_equal(term, "linux") {
        return TerminalCapability::Ansi8;
    }
    // VT-100 / unknown — safest fallback
    TerminalCapability::Vt100
}

} // verus!
