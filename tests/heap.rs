use pci_boot::{HeapError, HeapGuard, HEAP_SIZE};

#[test]
fn init_claims_only_once() {
    let mut g = HeapGuard::new();
    assert!(!g.is_initialized());
    assert!(g.init());
    assert!(!g.init());
    assert!(g.is_initialized());
}

#[test]
fn access_refused_before_init() {
    let mut g = HeapGuard::new();
    assert_eq!(g.check_access(), Err(HeapError::NotInitialized));
    g.init();
    assert_eq!(g.check_access(), Ok(()));
}

#[test]
fn heap_region_size() {
    assert_eq!(HEAP_SIZE, 32 * 1024 * 1024);
}
