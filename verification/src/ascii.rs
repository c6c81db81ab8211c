//! Classes of ASCII bytes, and the bytes that the name rules single out.

use vstd::prelude::*;

verus! {

/// The byte that ends a name handed to the operating system.
pub const NUL: u8 = 0x00;

/// Horizontal tab.
pub const TAB: u8 = 0x09;

/// Line feed, the end of a line.
pub const LINE_FEED: u8 = 0x0a;

/// Form feed.
pub const FORM_FEED: u8 = 0x0c;

/// Carriage return.
pub const CARRIAGE_RETURN: u8 = 0x0d;

/// Space.
pub const SPACE: u8 = 0x20;

/// `#`, which opens a comment line in a name file.
pub const HASH: u8 = 0x23;

/// `-`, allowed inside a name.
pub const DASH: u8 = 0x2d;

/// `.`, which separates the labels of a name.
pub const DOT: u8 = 0x2e;

/// ASCII white space: space, horizontal tab, line feed, form feed and
/// carriage return. Vertical tab is not white space.
pub open spec fn is_whitespace(byte: u8) -> bool {
    byte == SPACE || byte == TAB || byte == LINE_FEED || byte == FORM_FEED || byte
        == CARRIAGE_RETURN
}

/// ASCII decimal digits and letters of either case.
pub open spec fn is_alphanumeric(byte: u8) -> bool {
    (0x30 <= byte <= 0x39) || (0x41 <= byte <= 0x5a) || (0x61 <= byte <= 0x7a)
}

/// Whether `byte` is ASCII white space.
pub fn is_ascii_whitespace(byte: u8) -> (r: bool)
    ensures
        r == is_whitespace(byte),
{
    byte == SPACE || byte == TAB || byte == LINE_FEED || byte == FORM_FEED || byte
        == CARRIAGE_RETURN
}

/// Whether `byte` is an ASCII letter or digit.
pub fn is_ascii_alphanumeric(byte: u8) -> (r: bool)
    ensures
        r == is_alphanumeric(byte),
{
    (0x30 <= byte && byte <= 0x39) || (0x41 <= byte && byte <= 0x5a) || (0x61 <= byte && byte
        <= 0x7a)
}

} // verus!
