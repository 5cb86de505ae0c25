use uni_sync::{
    ChannelMode, HardwareFamily, channel_select_frame, family_for_product, speed_frame,
    speed_to_byte, sync_frame,
};

#[test]
fn speed_to_byte_is_deterministic() {
    assert_eq!(
        speed_to_byte(HardwareFamily::V2, 0),
        speed_to_byte(HardwareFamily::V2, 0)
    );
    assert_eq!(
        speed_to_byte(HardwareFamily::Legacy, 33),
        speed_to_byte(HardwareFamily::Legacy, 33)
    );
}

#[test]
fn speed_to_byte_is_monotone_for_every_family() {
    let families = [
        HardwareFamily::Legacy,
        HardwareFamily::V1,
        HardwareFamily::V2Lite,
        HardwareFamily::V2,
    ];
    for family in families {
        let mut prev = speed_to_byte(family, 0);
        for speed in 1..=100usize {
            let cur = speed_to_byte(family, speed);
            assert!(prev <= cur, "{:?} decreased at speed {}", family, speed);
            prev = cur;
        }
    }
}

#[test]
fn speed_to_byte_legacy_75_is_85() {
    // floor(800 + 11*75) = 1625; 1625 div 19 = 85.
    assert_eq!(speed_to_byte(HardwareFamily::Legacy, 75), 85);
}

#[test]
fn speed_to_byte_known_values() {
    assert_eq!(speed_to_byte(HardwareFamily::Legacy, 0), 42); // 800/19
    assert_eq!(speed_to_byte(HardwareFamily::Legacy, 100), 100); // 1900/19
    assert_eq!(speed_to_byte(HardwareFamily::V1, 75), 85); // same formula as Legacy
    assert_eq!(speed_to_byte(HardwareFamily::V2Lite, 0), 9); // 200/21
    assert_eq!(speed_to_byte(HardwareFamily::V2Lite, 50), 54); // 1150/21
    assert_eq!(speed_to_byte(HardwareFamily::V2Lite, 100), 100); // 2100/21
    assert_eq!(speed_to_byte(HardwareFamily::V2, 0), 12); // (500/2)/20
    assert_eq!(speed_to_byte(HardwareFamily::V2, 1), 13); // (535/2 = 267)/20
    assert_eq!(speed_to_byte(HardwareFamily::V2, 100), 100); // (4000/2)/20
}

#[test]
fn channel_select_frame_pwm_bit_on_channel_2() {
    // 0x10 << 2 | 0x1 << 2 == 0x44, for every family.
    let f = channel_select_frame(HardwareFamily::Legacy, 2, &ChannelMode::Pwm);
    assert_eq!(f[3], 0x44);
    let f = channel_select_frame(HardwareFamily::V1, 2, &ChannelMode::Pwm);
    assert_eq!(f[3], 0x44);
    let f = channel_select_frame(HardwareFamily::V2, 2, &ChannelMode::Pwm);
    assert_eq!(f[3], 0x44);
}

#[test]
fn channel_select_frame_opcodes_and_control() {
    assert_eq!(
        channel_select_frame(HardwareFamily::Legacy, 0, &ChannelMode::Manual),
        vec![0xe0, 0x10, 0x31, 0x10]
    );
    assert_eq!(
        channel_select_frame(HardwareFamily::V1, 1, &ChannelMode::Pwm),
        vec![0xe0, 0x10, 0x42, 0x22]
    );
    assert_eq!(
        channel_select_frame(HardwareFamily::V2Lite, 3, &ChannelMode::FanCurve),
        vec![0xe0, 0x10, 0x62, 0x80]
    );
    assert_eq!(
        channel_select_frame(HardwareFamily::V2, 3, &ChannelMode::Manual),
        vec![0xe0, 0x10, 0x62, 0x80]
    );
}

#[test]
fn sync_frame_bytes() {
    assert_eq!(
        sync_frame(HardwareFamily::Legacy, true),
        vec![0xe0, 0x10, 0x30, 1, 0, 0, 0]
    );
    assert_eq!(
        sync_frame(HardwareFamily::V1, false),
        vec![0xe0, 0x10, 0x41, 0, 0, 0, 0]
    );
    assert_eq!(
        sync_frame(HardwareFamily::V2Lite, true),
        vec![0xe0, 0x10, 0x61, 1, 0, 0, 0]
    );
    assert_eq!(
        sync_frame(HardwareFamily::V2, false),
        vec![0xe0, 0x10, 0x61, 0, 0, 0, 0]
    );
}

#[test]
fn speed_frame_bytes() {
    assert_eq!(speed_frame(0, 85), vec![0xe0, 32, 0, 85]);
    assert_eq!(speed_frame(3, 100), vec![0xe0, 35, 0, 100]);
}

#[test]
fn family_for_product_mapping() {
    assert_eq!(family_for_product(0x7750), HardwareFamily::Legacy);
    assert_eq!(family_for_product(0xa100), HardwareFamily::Legacy);
    assert_eq!(family_for_product(0xa101), HardwareFamily::V1);
    assert_eq!(family_for_product(0xa102), HardwareFamily::V2Lite);
    assert_eq!(family_for_product(0xa103), HardwareFamily::V2);
    assert_eq!(family_for_product(0xa104), HardwareFamily::V2);
    assert_eq!(family_for_product(0xa105), HardwareFamily::V2);
    // Unrecognized product ids fall back to Legacy behaviour.
    assert_eq!(family_for_product(0x1234), HardwareFamily::Legacy);
}
