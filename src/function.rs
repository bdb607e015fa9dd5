use vstd::prelude::*;
use vstd::string::StringExecFns;
use crate::address::Address;
use crate::config_space::{
    device_name_of, header_type_from_raw, header_type_of, lookup_device_name, lookup_vendor_name,
    name_view, vendor_name_of, CommonConfigSpaceInfo,
};

verus! {

/// What the configuration space reads as where no function answers.
pub const ABSENT: u32 = 0xffff_ffff;

/// Number of 32-bit words in the common configuration header.
pub const HEADER_WORDS: usize = 10;

/// A single function belonging to a device, known to answer on the bus.
#[derive(Clone, Copy, Debug)]
pub struct Function {
    address: Address,
}

impl Function {
    /// The address of the function.
    pub closed spec fn spec_address(&self) -> Address {
        self.address
    }

    /// Returns the [`Function`] at `address` if `word0`, the word that its
    /// configuration space holds at offset 0, shows that it answers.
    pub fn discover(address: Address, word0: u32) -> (r: Option<Function>)
        ensures
            r is None <==> word0 == ABSENT,
            r matches Some(f) ==> f.spec_address() == address,
    {
        // PCI reads as all ones where nothing answers.
        if word0 == ABSENT {
            return None;
        }
        Some(Function { address })
    }

    /// The address of the function.
    pub fn address(&self) -> (r: Address)
        ensures
            r == self.spec_address(),
    {
        self.address
    }

    /// Decodes the common configuration header of this function from the first
    /// ten words of its configuration space (offsets 0, 4, ..., 36) and looks
    /// up the vendor and device names.
    pub fn io_info(&self, words: &[u32; 10]) -> (r: CommonConfigSpaceInfo)
        requires
            words@[0] != ABSENT,
        ensures
            r.vendor_id == words@[0] % 0x1_0000,
            r.device_id == words@[0] / 0x1_0000,
            name_view(r.vendor_name) == vendor_name_of(r.vendor_id),
            name_view(r.device_name) == device_name_of(r.vendor_id, r.device_id),
            r.command_register == words@[1] % 0x1_0000,
            r.status_register == words@[1] / 0x1_0000,
            r.revision_id == words@[2] % 0x100,
            r.class_code == words@[2] / 0x100,
            r.cache_line_size == words@[3] % 0x100,
            r.latency_timer == (words@[3] / 0x100) % 0x100,
            r.header_type == header_type_of(((words@[3] / 0x1_0000) % 0x100) as u8),
            r.bist == words@[3] / 0x100_0000,
            r.address_registers@ == words@.subrange(4, 10),
    {
        let w0 = words[0];
        let w1 = words[1];
        let w2 = words[2];
        let w3 = words[3];
        let vendor_id = (w0 % 0x1_0000) as u16;
        let device_id = (w0 / 0x1_0000) as u16;
        let vendor_name = lookup_vendor_name(vendor_id);
        let device_name = lookup_device_name(vendor_id, device_id);
        let header_type = header_type_from_raw(((w3 / 0x1_0000) % 0x100) as u8);
        let address_registers = [words[4], words[5], words[6], words[7], words[8], words[9]];
        assert(address_registers@ =~= words@.subrange(4, 10));
        CommonConfigSpaceInfo {
            vendor_id,
            vendor_name,
            device_id,
            device_name,
            command_register: (w1 % 0x1_0000) as u16,
            status_register: (w1 / 0x1_0000) as u16,
            revision_id: (w2 % 0x100) as u8,
            class_code: w2 / 0x100,
            cache_line_size: (w3 % 0x100) as u8,
            latency_timer: ((w3 / 0x100) % 0x100) as u8,
            header_type,
            bist: (w3 / 0x100_0000) as u8,
            address_registers,
        }
    }
}

/// The line for the function at `a` whose header renders as `info`:
/// `BBB:SS:F: ` followed by `info`.
pub open spec fn function_line(a: Address, info: Seq<char>) -> Seq<char> {
    a.text() + seq![':', ' '] + info
}

impl Function {
    /// Renders the function's address and `info`, its decoded header.
    pub fn to_string(&self, info: &CommonConfigSpaceInfo) -> (r: String)
        requires
            self.spec_address().wf(),
        ensures
            r@ == function_line(self.spec_address(), info.text()),
    {
        let mut r = self.address.to_string();
        proof {
            reveal_strlit(": ");
        }
        r.append(": ");
        let t = info.to_string();
        r.append(t.as_str());
        assert(r@ =~= function_line(self.spec_address(), info.text()));
        r
    }
}

/// The word written to the address port to read the configuration-space word
/// at `offset` of the function at `address`: the enable bit, the encoded
/// address and the offset.
pub fn config_address(address: Address, offset: u8) -> (r: u32)
    requires
        address.wf(),
        offset % 4 == 0,
    ensures
        r as int == 0x8000_0000 + address.encoding() + offset as int,
{
    let a = address.val();
    let o = offset as u32;
    assert(0x8000_0000u32 | a | o == 0x8000_0000u32 + a + o) by (bit_vector)
        requires
            a & !0x00ff_ff00u32 == 0,
            o < 256,
            o % 4 == 0,
    ;
    0x8000_0000u32 | a | o
}

} // verus!
