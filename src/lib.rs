//! Bare-metal runtime support: enumeration of the PCI functions that answer on
//! the configuration-space bus, decoding of their common header, and the
//! once-only initialisation guard of the boot heap. Port I/O stays with the
//! caller: the library builds the address words, decides from the words read,
//! and states each decision in its contracts.

mod address;
mod config_space;
mod device;
mod function;
mod heap;
mod scan;
mod text;

pub use address::{lemma_decode_encode, lemma_encoding_injective, Address, ADDRESS_MASK};
pub use config_space::{
    device_name_of, header_type_from_raw, header_type_of, name_or_unknown, name_view,
    vendor_name_of,
    CommonConfigSpaceInfo,
};
pub use device::{device_text, functions_held, lemma_present_functions, present_functions, Device};
pub use function::{config_address, function_line, Function, ABSENT, HEADER_WORDS};
pub use heap::{claims_in, claims_on_init, lemma_init_claims_once, HeapError, HeapGuard, HEAP_SIZE};
pub use scan::{
    devices_before, devices_held, lemma_start_follows, lemma_step_follows_hardware,
    lemma_step_keeps_order, slot_device, slot_key, slot_words, BusScanner, ScanError, ScanModel,
    ScanStep, MAX_DEVICES,
};
pub use text::{digit_char, hex_digit_char, hex_text};
