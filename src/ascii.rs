use vstd::prelude::*;

verus! {

/// NULL
pub const NUL: u8 = 0;
/// horizontal tab
pub const HTAB: u8 = 9;
/// line feed
pub const LF: u8 = 10;
/// carriage return
pub const CR: u8 = 13;
/// space
pub const SP: u8 = 32;
/// `"`
pub const DQUOTE: u8 = 34;
/// `(`
pub const LPAREN: u8 = 40;
/// `)`
pub const RPAREN: u8 = 41;
/// `.`
pub const DOT: u8 = 46;
/// `@`
pub const AT: u8 = 64;
/// `[`
pub const LBRACKET: u8 = 91;
/// `\`
pub const BACKSLASH: u8 = 92;
/// `]`
pub const RBRACKET: u8 = 93;
/// delete
pub const DEL: u8 = 127;

} // verus!
