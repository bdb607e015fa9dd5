use vstd::prelude::*;
use vstd::string::StringExecFns;
use crate::text::{colon_str, digit_char, digit_str};

verus! {

/// Bits of the 32-bit configuration address that hold bus, slot and function.
pub const ADDRESS_MASK: u32 = 0x00ff_ff00;

/// Address of a PCI function, also called Bus/Device/Function (BDF).
#[derive(Copy, Clone, Debug, PartialEq, Eq, Structural)]
pub struct Address {
    pub bus: u8,
    pub slot: u8,
    pub function: u8,
}

impl Address {
    /// A slot lies in 0..32 and a function number in 0..8.
    pub open spec fn wf(&self) -> bool {
        self.slot < 32 && self.function < 8
    }

    /// The PCI encoding: `bus << 16 | slot << 11 | function << 8`.
    pub open spec fn encoding(&self) -> int {
        self.bus as int * 0x1_0000 + self.slot as int * 0x800 + self.function as int * 0x100
    }

    /// The address that an encoded word stands for.
    pub open spec fn spec_decode(code: u32) -> Address {
        Address {
            bus: ((code / 0x1_0000) % 0x100) as u8,
            slot: ((code / 0x800) % 32) as u8,
            function: ((code / 0x100) % 8) as u8,
        }
    }

    /// Encodes the address to PCI's 32-bit encoding.
    pub fn val(&self) -> (r: u32)
        requires
            self.wf(),
        ensures
            r as int == self.encoding(),
            r & !ADDRESS_MASK == 0,
    {
        let b = self.bus as u32;
        let s = self.slot as u32;
        let f = self.function as u32;
        assert((b << 16u32) | (s << 11u32) | (f << 8u32) == b * 0x1_0000 + s * 0x800 + f * 0x100
            && ((b << 16u32) | (s << 11u32) | (f << 8u32)) & !0x00ff_ff00u32 == 0) by (bit_vector)
            requires
                b < 256,
                s < 32,
                f < 8,
        ;
        (b << 16u32) | (s << 11u32) | (f << 8u32)
    }

    /// The text `BBB:SS:F`: bus, slot and function in decimal, zero-padded
    /// to three, two and one digits.
    pub open spec fn text(&self) -> Seq<char> {
        seq![
            digit_char(self.bus as int / 100),
            digit_char(self.bus as int / 10 % 10),
            digit_char(self.bus as int % 10),
            ':',
            digit_char(self.slot as int / 10),
            digit_char(self.slot as int % 10),
            ':',
            digit_char(self.function as int),
        ]
    }

    /// Renders the address as `BBB:SS:F`.
    pub fn to_string(&self) -> (r: String)
        requires
            self.wf(),
        ensures
            r@ == self.text(),
    {
        let mut r = String::new();
        r.append(digit_str(self.bus / 100));
        r.append(digit_str(self.bus / 10 % 10));
        r.append(digit_str(self.bus % 10));
        r.append(colon_str());
        r.append(digit_str(self.slot / 10));
        r.append(digit_str(self.slot % 10));
        r.append(colon_str());
        r.append(digit_str(self.function));
        assert(r@ =~= self.text());
        r
    }

    /// Decodes the bus, slot and function fields of an encoded address.
    pub fn decode(code: u32) -> (r: Address)
        ensures
            r == Self::spec_decode(code),
            r.wf(),
    {
        Address {
            bus: (code / 0x1_0000 % 0x100) as u8,
            slot: (code / 0x800 % 32) as u8,
            function: (code / 0x100 % 8) as u8,
        }
    }
}

/// Encoding then decoding gives back the address.
pub proof fn lemma_decode_encode(a: Address)
    requires
        a.wf(),
    ensures
        0 <= a.encoding() < 0x1_0000_0000,
        Address::spec_decode(a.encoding() as u32) == a,
{
    let e = a.encoding();
    assert(e / 0x1_0000 == a.bus as int && (e / 0x800) % 32 == a.slot as int && (e / 0x100) % 8
        == a.function as int) by (nonlinear_arith)
        requires
            e == a.bus as int * 0x1_0000 + a.slot as int * 0x800 + a.function as int * 0x100,
            0 <= a.bus < 256,
            0 <= a.slot < 32,
            0 <= a.function < 8,
    ;
}

/// Two valid addresses with the same encoding are the same address.
pub proof fn lemma_encoding_injective(a: Address, b: Address)
    requires
        a.wf(),
        b.wf(),
        a.encoding() == b.encoding(),
    ensures
        a == b,
{
    lemma_decode_encode(a);
    lemma_decode_encode(b);
}

} // verus!
