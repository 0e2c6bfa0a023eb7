//! Hardware (MAC) addresses and their canonical text form.
use vstd::prelude::*;

verus! {

/// The sixteen lowercase hexadecimal digits, in order of value.
pub open spec fn hex_digits() -> Seq<char> {
    seq!['0', '1', '2', '3', '4', '5', '6', '7', '8', '9', 'a', 'b', 'c', 'd', 'e', 'f']
}

/// A byte as two lowercase hexadecimal digits, high nibble first.
pub open spec fn hex_pair(b: u8) -> Seq<char> {
    seq![hex_digits()[b as int / 16], hex_digits()[b as int % 16]]
}

/// Six octets as text: two lowercase hexadecimal digits each, joined by colons.
pub open spec fn mac_text(o: Seq<u8>) -> Seq<char> {
    hex_pair(o[0]) + seq![':'] + hex_pair(o[1]) + seq![':'] + hex_pair(o[2]) + seq![':']
        + hex_pair(o[3]) + seq![':'] + hex_pair(o[4]) + seq![':'] + hex_pair(o[5])
}

/// Representation of a MAC address: six octets, first-transmitted first.
#[derive(Debug, Default, Clone, Copy, PartialEq, Eq, Structural)]
pub struct HwAddr {
    a: u8,
    b: u8,
    c: u8,
    d: u8,
    e: u8,
    f: u8,
}

/// Append the two hexadecimal digits of `b` to `s`.
fn push_hex_pair(s: &mut String, b: u8)
    ensures
        final(s)@ == old(s)@ + hex_pair(b),
{
    let digits = "0123456789abcdef";
    proof {
        reveal_strlit("0123456789abcdef");
        assert(digits@ =~= hex_digits());
    }
    let hi = (b / 16) as usize;
    let lo = (b % 16) as usize;
    let s0 = Ghost(s@);
    s.append(digits.substring_char(hi, hi + 1));
    s.append(digits.substring_char(lo, lo + 1));
    assert(s@ =~= s0@ + hex_pair(b));
}

impl HwAddr {
    /// The six octets, in order.
    pub closed spec fn spec_octets(&self) -> Seq<u8> {
        seq![self.a, self.b, self.c, self.d, self.e, self.f]
    }

    pub fn new(a: u8, b: u8, c: u8, d: u8, e: u8, f: u8) -> (r: HwAddr)
        ensures
            r.spec_octets() == seq![a, b, c, d, e, f],
    {
        HwAddr { a, b, c, d, e, f }
    }

    /// Returns the six eight-bit integers that make up this address.
    pub fn octets(&self) -> (r: [u8; 6])
        ensures
            r@ == self.spec_octets(),
    {
        let r = [self.a, self.b, self.c, self.d, self.e, self.f];
        assert(r@ =~= self.spec_octets());
        r
    }

    /// The canonical text form, such as `00:1a:2b:3c:4d:5e`.
    pub fn to_string(&self) -> (r: String)
        ensures
            r@ == mac_text(self.spec_octets()),
    {
        let colon = ":";
        proof {
            reveal_strlit(":");
        }
        let mut s = String::new();
        push_hex_pair(&mut s, self.a);
        s.append(colon);
        push_hex_pair(&mut s, self.b);
        s.append(colon);
        push_hex_pair(&mut s, self.c);
        s.append(colon);
        push_hex_pair(&mut s, self.d);
        s.append(colon);
        push_hex_pair(&mut s, self.e);
        s.append(colon);
        push_hex_pair(&mut s, self.f);
        assert(s@ =~= mac_text(self.spec_octets()));
        s
    }
}

} // verus!
