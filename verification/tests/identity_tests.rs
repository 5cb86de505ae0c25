use uni_sync::{BusDevice, HardwareFamily, device_id_string, resolve_devices};

#[test]
fn device_id_format() {
    // Vendor and product ids are rendered in decimal, as the persistence
    // key format requires: 0x0cf2 == 3314, 0xa100 == 41216.
    let id = device_id_string(0x0cf2, 0xa100, "ABC123");
    assert_eq!(id, "VID:3314/PID:41216/SN:ABC123");
}

#[test]
fn device_id_is_stable_across_calls() {
    let a = device_id_string(0x0cf2, 0xa103, "serial-1");
    let b = device_id_string(0x0cf2, 0xa103, "serial-1");
    assert_eq!(a, b);
}

#[test]
fn device_id_distinguishes_triples() {
    let base = device_id_string(0x0cf2, 0xa100, "S1");
    assert_ne!(base, device_id_string(0x0cf2, 0xa100, "S2"));
    assert_ne!(base, device_id_string(0x0cf2, 0xa101, "S1"));
    assert_ne!(base, device_id_string(0x0cf3, 0xa100, "S1"));
    // Serials that themselves look like id segments stay distinguishable.
    assert_ne!(
        device_id_string(0x0cf2, 0xa100, "X/SN:Y"),
        device_id_string(0x0cf2, 0xa100, "X"),
    );
}

#[test]
fn resolve_filters_unsupported_and_serialless_records() {
    let records = vec![
        // Wrong vendor: filtered out.
        BusDevice { vendor_id: 0x1234, product_id: 0xa100, serial: Some("A".to_string()) },
        // Supported, with serial: resolved.
        BusDevice { vendor_id: 0x0cf2, product_id: 0xa101, serial: Some("B".to_string()) },
        // Supported but missing serial: skipped (per-device, not fatal).
        BusDevice { vendor_id: 0x0cf2, product_id: 0xa102, serial: None },
        // Wrong product: filtered out.
        BusDevice { vendor_id: 0x0cf2, product_id: 0x9999, serial: Some("C".to_string()) },
        // Supported, with serial: resolved.
        BusDevice { vendor_id: 0x0cf2, product_id: 0x7750, serial: Some("D".to_string()) },
    ];
    let resolved = resolve_devices(&records);
    assert_eq!(resolved.len(), 2);
    assert_eq!(resolved[0].index, 1);
    assert_eq!(resolved[0].vendor_id, 0x0cf2);
    assert_eq!(resolved[0].product_id, 0xa101);
    assert_eq!(resolved[0].serial, "B");
    assert_eq!(resolved[0].family, HardwareFamily::V1);
    assert_eq!(resolved[0].device_id, "VID:3314/PID:41217/SN:B");
    assert_eq!(resolved[1].index, 4);
    assert_eq!(resolved[1].product_id, 0x7750);
    assert_eq!(resolved[1].family, HardwareFamily::Legacy);
    assert_eq!(resolved[1].device_id, "VID:3314/PID:30544/SN:D");
}

#[test]
fn resolve_of_empty_enumeration_is_empty() {
    let resolved = resolve_devices(&Vec::new());
    assert!(resolved.is_empty());
}
