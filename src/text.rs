//! Rendering bytes and codes as text for error messages.

use vstd::prelude::*;

verus! {

/// The characters that `String::from_utf8_lossy` makes of some bytes.
pub uninterp spec fn utf8_lossy_of(b: Seq<u8>) -> Seq<char>;

/// Relies on `String::from_utf8_lossy`: its text depends on the bytes alone.
#[verifier::external_body]
pub(crate) fn utf8_lossy(b: &[u8]) -> (r: String)
    ensures
        r@ == utf8_lossy_of(b@),
{
    String::from_utf8_lossy(b).into_owned()
}

/// The lower-case hexadecimal digit of a value below sixteen.
pub open spec fn hex_digit(d: nat) -> Seq<char> {
    if d == 0 { "0"@ } else if d == 1 { "1"@ } else if d == 2 { "2"@ } else if d == 3 { "3"@ }
    else if d == 4 { "4"@ } else if d == 5 { "5"@ } else if d == 6 { "6"@ } else if d == 7 { "7"@ }
    else if d == 8 { "8"@ } else if d == 9 { "9"@ } else if d == 10 { "a"@ } else if d == 11 { "b"@ }
    else if d == 12 { "c"@ } else if d == 13 { "d"@ } else if d == 14 { "e"@ } else { "f"@ }
}

/// The lower-case hexadecimal digits of a number, without leading zeros.
pub open spec fn lower_hex_of(v: nat) -> Seq<char>
    decreases v,
{
    if v < 16 {
        hex_digit(v)
    } else {
        lower_hex_of(v / 16) + hex_digit(v % 16)
    }
}

fn hex_digit_str(d: u32) -> (r: &'static str)
    requires
        d < 16,
    ensures
        r@ == hex_digit(d as nat),
{
    if d == 0 { "0" } else if d == 1 { "1" } else if d == 2 { "2" } else if d == 3 { "3" }
    else if d == 4 { "4" } else if d == 5 { "5" } else if d == 6 { "6" } else if d == 7 { "7" }
    else if d == 8 { "8" } else if d == 9 { "9" } else if d == 10 { "a" } else if d == 11 { "b" }
    else if d == 12 { "c" } else if d == 13 { "d" } else if d == 14 { "e" } else { "f" }
}

/// Appends the lower-case hexadecimal digits of `v`.
pub fn push_lower_hex(s: &mut String, v: u32)
    ensures
        final(s)@ == old(s)@ + lower_hex_of(v as nat),
    decreases v,
{
    if v >= 16 {
        push_lower_hex(s, v / 16);
    }
    s.append(hex_digit_str(v % 16));
    assert(final(s)@ =~= old(s)@ + lower_hex_of(v as nat));
}

} // verus!
