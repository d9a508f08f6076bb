//! ANSI escape sequences used by the colored rendering of a trace.

use vstd::prelude::*;

verus! {

pub const FG_BLACK: &'static str = "\x1b[30m";
pub const FG_RED: &'static str = "\x1b[31m";
pub const FG_GREEN: &'static str = "\x1b[32m";
pub const FG_YELLOW: &'static str = "\x1b[33m";
pub const FG_MAGENTA: &'static str = "\x1b[35m";
pub const BG_BLUE: &'static str = "\x1b[44m";
pub const TEXT_UNDERLINE: &'static str = "\x1b[4m";
pub const TEXT_INVERSE: &'static str = "\x1b[7m";
pub const TEXT_UNDERLINE_RESET: &'static str = "\x1b[24m";
pub const TEXT_INVERSE_RESET: &'static str = "\x1b[27m";
pub const RESET: &'static str = "\x1b[0m";

} // verus!
