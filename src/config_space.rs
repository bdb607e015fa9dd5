use vstd::prelude::*;
use vstd::string::StringExecFns;
use crate::text::{append_hex, hex_text};

verus! {

#[verifier::external_type_specification]
pub struct ExHeaderType(pci_types::HeaderType);

/// The vendor's name as the PCI ID database lists it, if it lists the vendor.
pub uninterp spec fn vendor_name_of(vendor_id: u16) -> Option<Seq<char>>;

/// The device's name as the PCI ID database lists it, if it lists the device.
pub uninterp spec fn device_name_of(vendor_id: u16, device_id: u16) -> Option<Seq<char>>;

/// The characters of an optional name.
pub open spec fn name_view(n: Option<&'static str>) -> Option<Seq<char>> {
    match n {
        Some(s) => Some(s@),
        None => None,
    }
}

/// Relies on `pci_ids::Vendor::from_id` and `Vendor::name`: the name that the
/// database holds for a vendor id, and none for an unknown id.
#[verifier::external_body]
pub(crate) fn lookup_vendor_name(vendor_id: u16) -> (r: Option<&'static str>)
    ensures
        name_view(r) == vendor_name_of(vendor_id),
{
    <pci_ids::Vendor as pci_ids::FromId<u16>>::from_id(vendor_id).map(|v| v.name())
}

/// Relies on `pci_ids::Device::from_vid_pid` and `Device::name`: the name that
/// the database holds for a vendor and device id pair, and none for an unknown
/// pair.
#[verifier::external_body]
pub(crate) fn lookup_device_name(vendor_id: u16, device_id: u16) -> (r: Option<&'static str>)
    ensures
        name_view(r) == device_name_of(vendor_id, device_id),
{
    pci_ids::Device::from_vid_pid(vendor_id, device_id).map(|d| d.name())
}

/// The header layout that the header-type byte selects.
pub open spec fn header_type_of(raw: u8) -> pci_types::HeaderType {
    if raw == 0 {
        pci_types::HeaderType::Endpoint
    } else if raw == 1 {
        pci_types::HeaderType::PciPciBridge
    } else if raw == 2 {
        pci_types::HeaderType::CardBusBridge
    } else {
        pci_types::HeaderType::Unknown(raw)
    }
}

/// Maps the header-type byte of the configuration header to its layout.
pub fn header_type_from_raw(raw: u8) -> (r: pci_types::HeaderType)
    ensures
        r == header_type_of(raw),
{
    match raw {
        0 => pci_types::HeaderType::Endpoint,
        1 => pci_types::HeaderType::PciPciBridge,
        2 => pci_types::HeaderType::CardBusBridge,
        t => pci_types::HeaderType::Unknown(t),
    }
}

/// Common PCI function information obtained from the configuration space,
/// enriched with the names that the PCI ID database gives.
#[derive(Debug)]
pub struct CommonConfigSpaceInfo {
    pub vendor_id: u16,
    /// Vendor name, if the vendor is known.
    pub vendor_name: Option<&'static str>,
    pub device_id: u16,
    /// Device name, if the device is known.
    pub device_name: Option<&'static str>,
    pub command_register: u16,
    pub status_register: u16,
    pub revision_id: u8,
    /// 24 bits long.
    pub class_code: u32,
    pub cache_line_size: u8,
    pub latency_timer: u8,
    pub header_type: pci_types::HeaderType,
    pub bist: u8,
    pub address_registers: [u32; 6],
}

/// A name, or `<unknown>` where there is none.
pub open spec fn name_or_unknown(n: Option<Seq<char>>) -> Seq<char> {
    match n {
        Some(s) => s,
        None => seq!['<', 'u', 'n', 'k', 'n', 'o', 'w', 'n', '>'],
    }
}

fn append_name(s: &mut String, n: Option<&'static str>)
    ensures
        final(s)@ == old(s)@ + name_or_unknown(name_view(n)),
{
    match n {
        Some(name) => s.append(name),
        None => {
            proof {
                reveal_strlit("<unknown>");
            }
            s.append("<unknown>");
        },
    }
}

fn append_hex_id(s: &mut String, id: u16)
    ensures
        final(s)@ == old(s)@ + seq!['(', '0', 'x'] + hex_text(id as nat) + seq![')'],
{
    proof {
        reveal_strlit("(0x");
        reveal_strlit(")");
    }
    s.append("(0x");
    append_hex(s, id);
    s.append(")");
}

impl CommonConfigSpaceInfo {
    /// `vendor(0xVVVV)/device(0xDDDD)`: the names, or `<unknown>`, each
    /// followed by its id in hexadecimal.
    pub open spec fn text(&self) -> Seq<char> {
        name_or_unknown(name_view(self.vendor_name)) + seq!['(', '0', 'x'] + hex_text(
            self.vendor_id as nat,
        ) + seq![')', '/'] + name_or_unknown(name_view(self.device_name)) + seq!['(', '0', 'x']
            + hex_text(self.device_id as nat) + seq![')']
    }

    /// Renders the vendor and device of the header.
    pub fn to_string(&self) -> (r: String)
        ensures
            r@ == self.text(),
    {
        let mut r = String::new();
        append_name(&mut r, self.vendor_name);
        append_hex_id(&mut r, self.vendor_id);
        proof {
            reveal_strlit("/");
        }
        r.append("/");
        append_name(&mut r, self.device_name);
        append_hex_id(&mut r, self.device_id);
        assert(r@ =~= self.text());
        r
    }
}

} // verus!
