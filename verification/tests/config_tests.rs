use uni_sync::{ChannelMode, create_default_config, mode_string, parse_mode};

#[test]
fn default_config_is_hardware_safe() {
    let c = create_default_config("VID:3314/PID:41216/SN:X".to_string());
    assert_eq!(c.device_id, "VID:3314/PID:41216/SN:X");
    assert!(!c.sync_rgb);
    assert_eq!(c.channels.len(), 4);
    for ch in &c.channels {
        assert_eq!(ch.mode, "Manual");
        assert_eq!(ch.speed, 50);
        assert!(ch.fan_curve.is_none());
    }
}

#[test]
fn parse_mode_recognizes_exact_spellings() {
    assert!(matches!(parse_mode(&"Manual".to_string()), ChannelMode::Manual));
    assert!(matches!(parse_mode(&"PWM".to_string()), ChannelMode::Pwm));
    assert!(matches!(parse_mode(&"fan-curve".to_string()), ChannelMode::FanCurve));
    // Case matters: nothing but the exact spellings is recognized.
    assert!(matches!(parse_mode(&"manual".to_string()), ChannelMode::Unknown(_)));
    assert!(matches!(parse_mode(&"pwm".to_string()), ChannelMode::Unknown(_)));
}

#[test]
fn mode_strings_round_trip_verbatim() {
    // Recognized and unrecognized spellings both survive a parse/render
    // round trip unchanged, so saving never discards operator input.
    for s in ["Manual", "PWM", "fan-curve", "silent", "FAN-CURVE", "", "Man ual"] {
        let rendered = mode_string(&parse_mode(&s.to_string()));
        assert_eq!(rendered, s);
    }
}

#[test]
fn unknown_mode_keeps_original_string() {
    match parse_mode(&"turbo-boost".to_string()) {
        ChannelMode::Unknown(orig) => assert_eq!(orig, "turbo-boost"),
        _ => panic!("expected Unknown"),
    }
}
