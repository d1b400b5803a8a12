//! DEC Special Graphics line-drawing set (VT-100): the escape sequences that
//! switch it on and off, and the ASCII keys of its box-drawing glyphs.
use vstd::prelude::*;

verus! {

/// Switch G0 to the line-drawing set.
pub const ENTER: &'static str = "\x1b(0";
/// Switch G0 back to ASCII.
pub const EXIT: &'static str = "\x1b(B";

/// `─`
pub const HORIZONTAL: char = 'q';
/// `│`
pub const VERTICAL: char = 'x';
/// `┌`
pub const TOP_LEFT: char = 'l';
/// `┐`
pub const TOP_RIGHT: char = 'k';
/// `└`
pub const BOT_LEFT: char = 'm';
/// `┘`
pub const BOT_RIGHT: char = 'j';
/// `┼`
pub const CROSS: char = 'n';
/// `├`
pub const TEE_LEFT: char = 't';
/// `┤`
pub const TEE_RIGHT: char = 'u';
/// `┬`
pub const TEE_TOP: char = 'w';
/// `┴`
pub const TEE_BOT: char = 'v';

} // verus!
