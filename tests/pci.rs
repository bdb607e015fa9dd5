use pci_boot::{
    config_address, Address, BusScanner, Device, Function, ScanError, ScanStep, ABSENT,
    MAX_DEVICES,
};
use pci_types::HeaderType;

fn addr(bus: u8, slot: u8, function: u8) -> Address {
    Address { bus, slot, function }
}

#[test]
fn address_encoding_layout() {
    assert_eq!(addr(0, 0, 0).val(), 0);
    assert_eq!(addr(1, 2, 3).val(), 0x0001_1300);
    assert_eq!(addr(255, 31, 7).val(), 0x00ff_ff00);
}

#[test]
fn address_round_trip_all() {
    let mut seen = std::collections::HashSet::new();
    for bus in 0..=255u8 {
        for slot in 0..32u8 {
            for function in 0..8u8 {
                let a = addr(bus, slot, function);
                let code = a.val();
                assert_eq!(Address::decode(code), a);
                assert!(seen.insert(code));
            }
        }
    }
}

#[test]
fn address_text() {
    assert_eq!(addr(0, 3, 1).to_string(), "000:03:1");
    assert_eq!(addr(255, 31, 7).to_string(), "255:31:7");
    assert_eq!(addr(42, 10, 0).to_string(), "042:10:0");
}

#[test]
fn config_address_word() {
    assert_eq!(config_address(addr(0, 0, 0), 0), 0x8000_0000);
    assert_eq!(config_address(addr(0, 3, 1), 0x24), 0x8000_1924);
    assert_eq!(config_address(addr(5, 17, 0), 12), 0x8005_880c);
}

#[test]
fn probe_absent_and_present() {
    assert!(Function::discover(addr(0, 1, 0), ABSENT).is_none());
    let f = Function::discover(addr(0, 1, 0), 0x1234_8086).unwrap();
    assert_eq!(f.address(), addr(0, 1, 0));
    let mut words = [0u32; 10];
    words[0] = 0x1234_8086;
    let info = f.io_info(&words);
    assert_eq!(info.vendor_id, 0x8086);
}

#[test]
fn header_decode_fields() {
    let f = Function::discover(addr(0, 0, 0), 0x1234_8086).unwrap();
    let words = [
        0x1234_8086,
        0x0290_0107,
        0x0601_0003,
        0x8001_4010,
        1,
        2,
        3,
        4,
        5,
        6,
    ];
    let info = f.io_info(&words);
    assert_eq!(info.vendor_id, 0x8086);
    assert_eq!(info.device_id, 0x1234);
    assert_eq!(info.command_register, 0x0107);
    assert_eq!(info.status_register, 0x0290);
    assert_eq!(info.revision_id, 0x03);
    assert_eq!(info.class_code, 0x06_0100);
    assert_eq!(info.cache_line_size, 0x10);
    assert_eq!(info.latency_timer, 0x40);
    assert_eq!(info.header_type, HeaderType::PciPciBridge);
    assert_eq!(info.bist, 0x80);
    assert_eq!(info.address_registers, [1, 2, 3, 4, 5, 6]);
}

#[test]
fn header_type_kinds() {
    let f = Function::discover(addr(0, 0, 0), 0x1237_8086).unwrap();
    let mut words = [0u32; 10];
    words[0] = 0x1237_8086;
    assert_eq!(f.io_info(&words).header_type, HeaderType::Endpoint);
    words[3] = 0x0002_0000;
    assert_eq!(f.io_info(&words).header_type, HeaderType::CardBusBridge);
    words[3] = 0x0080_0000;
    assert_eq!(f.io_info(&words).header_type, HeaderType::Unknown(0x80));
}

#[test]
fn names_from_database() {
    let f = Function::discover(addr(0, 0, 0), 0x1237_8086).unwrap();
    let mut words = [0u32; 10];
    words[0] = 0x1237_8086;
    let info = f.io_info(&words);
    assert_eq!(info.vendor_name, Some("Intel Corporation"));
    assert_eq!(info.device_name, Some("440FX - 82441FX PMC [Natoma]"));
    assert!(info.device_name.is_some());
    words[0] = 0x0000_0002;
    let unknown = f.io_info(&words);
    assert_eq!(unknown.vendor_name, None);
    assert_eq!(unknown.device_name, None);
}

#[test]
fn header_and_device_text() {
    let f = Function::discover(addr(0, 0, 0), 0x1237_8086).unwrap();
    let mut words = [0u32; 10];
    words[0] = 0x1237_8086;
    let known = f.io_info(&words);
    assert_eq!(
        known.to_string(),
        "Intel Corporation(0x8086)/440FX - 82441FX PMC [Natoma](0x1237)"
    );
    words[0] = 0x00ab_0002;
    let unknown = f.io_info(&words);
    assert_eq!(unknown.to_string(), "<unknown>(0x2)/<unknown>(0xab)");
    assert_eq!(
        f.to_string(&unknown),
        "000:00:0: <unknown>(0x2)/<unknown>(0xab)"
    );

    let mut fwords = [ABSENT; 8];
    fwords[0] = 0x00ab_0002;
    let single = Device::discover(addr(0, 2, 0), &fwords).unwrap();
    assert_eq!(
        single.to_string(&[f.io_info(&words)]),
        "000:02:0: <unknown>(0x2)/<unknown>(0xab)"
    );
    fwords[3] = 0x00ab_0002;
    let multi = Device::discover(addr(0, 2, 0), &fwords).unwrap();
    let infos = [f.io_info(&words), f.io_info(&words)];
    assert_eq!(
        multi.to_string(&infos),
        "000:02:0: <unknown>(0x2)/<unknown>(0xab)\n  000:02:3: <unknown>(0x2)/<unknown>(0xab)"
    );
}

fn function_numbers(d: &Device) -> Vec<u8> {
    let mut v = vec![d.main_function().address().function];
    for f in d.additional_functions() {
        v.push(f.address().function);
    }
    v
}

#[test]
fn device_with_main_function_only() {
    let mut words = [ABSENT; 8];
    words[0] = 0x1111_8086;
    let d = Device::discover(addr(0, 4, 0), &words).unwrap();
    assert_eq!(function_numbers(&d), vec![0]);
    assert!(d.additional_functions().is_empty());
}

#[test]
fn device_with_functions_zero_and_two() {
    let mut words = [ABSENT; 8];
    words[0] = 0x1111_8086;
    words[2] = 0x2222_8086;
    let d = Device::discover(addr(0, 4, 0), &words).unwrap();
    assert_eq!(function_numbers(&d), vec![0, 2]);
    assert_eq!(d.additional_functions()[0].address(), addr(0, 4, 2));
}

#[test]
fn device_absent_without_function_zero() {
    let mut words = [ABSENT; 8];
    words[1] = 0x1111_8086;
    assert!(Device::discover(addr(0, 4, 0), &words).is_none());
}

/// Runs a scan against a synthetic bus where `present(a)` tells whether the
/// function at `a` answers; returns the scan and the addresses it read.
fn run_scan(present: &dyn Fn(Address) -> bool) -> (Result<BusScanner, ScanError>, Vec<Address>) {
    let mut scanner = BusScanner::new();
    let mut reads = Vec::new();
    loop {
        match scanner.next_step() {
            ScanStep::Done => return (Ok(scanner), reads),
            ScanStep::Probe(a) => {
                reads.push(a);
                let word = if present(a) { 0x0001_8086 } else { ABSENT };
                if let Err(e) = scanner.record(word) {
                    return (Err(e), reads);
                }
            }
        }
    }
}

#[test]
fn scan_finds_devices_in_order() {
    let present = |a: Address| {
        matches!(
            (a.bus, a.slot, a.function),
            (5, 17, 0) | (0, 3, 0) | (0, 3, 5) | (1, 0, 0)
        )
    };
    let (scanner, reads) = run_scan(&present);
    let scanner = scanner.unwrap();
    let found: Vec<(u8, u8, Vec<u8>)> = scanner
        .devices()
        .iter()
        .map(|d| {
            let m = d.main_function().address();
            (m.bus, m.slot, function_numbers(d))
        })
        .collect();
    assert_eq!(
        found,
        vec![(0, 3, vec![0, 5]), (1, 0, vec![0]), (5, 17, vec![0])]
    );
    // Only function 0 is read at an empty slot; all eight at an occupied one.
    assert_eq!(reads.len(), 256 * 32 + 3 * 7);
    assert_eq!(scanner.into_devices().len(), 3);
}

#[test]
fn scan_on_empty_bus() {
    let (scanner, reads) = run_scan(&|_| false);
    assert!(scanner.unwrap().devices().is_empty());
    assert_eq!(reads.len(), 256 * 32);
}

#[test]
fn scan_overflow_is_an_error() {
    let (scanner, _) = run_scan(&|a: Address| a.bus < 2 && a.function == 0);
    assert_eq!(scanner.err(), Some(ScanError::TooManyDevices));
}

#[test]
fn scan_fills_to_capacity() {
    let (scanner, _) = run_scan(&|a: Address| a.bus == 0 && a.function == 0);
    assert_eq!(scanner.unwrap().devices().len(), MAX_DEVICES);
}
