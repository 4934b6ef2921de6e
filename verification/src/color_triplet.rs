//! RGB color triplets and their textual forms.

use vstd::prelude::*;
use crate::strutil::{dec, hex2, push_decimal, push_hex2, string_from_chars};

verus! {

/// An RGB color triplet.
#[derive(Debug, Clone, Copy, PartialEq, Eq, Hash, Structural)]
pub struct ColorTriplet {
    pub red: u8,
    pub green: u8,
    pub blue: u8,
}

/// `#rrggbb` with lowercase, zero-padded hexadecimal components.
pub open spec fn spec_hex(t: ColorTriplet) -> Seq<char> {
    seq!['#'] + hex2(t.red) + hex2(t.green) + hex2(t.blue)
}

/// `rgb(r,g,b)` with decimal components and no spaces.
pub open spec fn spec_rgb(t: ColorTriplet) -> Seq<char> {
    seq!['r', 'g', 'b', '('] + dec(t.red as nat) + seq![','] + dec(t.green as nat) + seq![',']
        + dec(t.blue as nat) + seq![')']
}

impl ColorTriplet {
    /// Creates a new ColorTriplet from red, green, and blue components.
    pub fn new(red: u8, green: u8, blue: u8) -> (t: Self)
        ensures
            t.red == red,
            t.green == green,
            t.blue == blue,
    {
        ColorTriplet { red, green, blue }
    }

    /// Appends the `#rrggbb` form to `out`.
    pub fn push_hex(&self, out: &mut Vec<char>)
        ensures
            final(out)@ == old(out)@ + spec_hex(*self),
    {
        out.push('#');
        push_hex2(out, self.red);
        push_hex2(out, self.green);
        push_hex2(out, self.blue);
        assert(out@ =~= old(out)@ + spec_hex(*self));
    }

    /// Returns the color as a lowercase hexadecimal string (e.g., "#ffffff").
    pub fn hex(&self) -> (s: String)
        ensures
            s@ == spec_hex(*self),
    {
        let mut out: Vec<char> = Vec::new();
        self.push_hex(&mut out);
        assert(out@ =~= spec_hex(*self));
        string_from_chars(&out)
    }

    /// Returns the color as an RGB string (e.g., "rgb(255,255,255)").
    pub fn rgb(&self) -> (s: String)
        ensures
            s@ == spec_rgb(*self),
    {
        let mut out: Vec<char> = Vec::new();
        out.push('r');
        out.push('g');
        out.push('b');
        out.push('(');
        push_decimal(&mut out, self.red as u32);
        out.push(',');
        push_decimal(&mut out, self.green as u32);
        out.push(',');
        push_decimal(&mut out, self.blue as u32);
        out.push(')');
        assert(out@ =~= spec_rgb(*self));
        string_from_chars(&out)
    }
}

} // verus!
