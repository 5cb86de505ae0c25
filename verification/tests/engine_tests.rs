use uni_sync::{
    Channel, Config, Configs, DeviceEvent, HardwareFamily, evaluate_channel, merge_device,
    plan_device, reconcile_pass,
};

fn channel(mode: &str, speed: usize, fan_curve: Option<&str>) -> Channel {
    Channel { mode: mode.to_string(), speed, fan_curve: fan_curve.map(|s| s.to_string()) }
}

fn config(device_id: &str, sync_rgb: bool, channels: Vec<Channel>) -> Config {
    Config { device_id: device_id.to_string(), sync_rgb, channels }
}

#[test]
fn evaluate_channel_policies() {
    assert_eq!(evaluate_channel(&channel("Manual", 40, None), None), Some(40));
    assert_eq!(evaluate_channel(&channel("PWM", 40, None), Some(70)), None);
    assert_eq!(
        evaluate_channel(&channel("fan-curve", 40, Some("/tmp/c.json")), Some(70)),
        Some(70)
    );
    // Curve failure: no write this cycle.
    assert_eq!(evaluate_channel(&channel("fan-curve", 40, Some("/tmp/c.json")), None), None);
    // Curve mode without a curve reference: no write.
    assert_eq!(evaluate_channel(&channel("fan-curve", 40, None), Some(70)), None);
    // Unrecognized mode: inert.
    assert_eq!(evaluate_channel(&channel("silent", 40, None), Some(70)), None);
}

#[test]
fn plan_for_manual_channel() {
    let mut cfg = config("id", false, vec![channel("Manual", 50, None)]);
    let plan = plan_device(HardwareFamily::Legacy, &mut cfg, &vec![None]);
    assert_eq!(plan.len(), 3);
    assert_eq!(plan[0].bytes, vec![0xe0, 0x10, 0x30, 0, 0, 0, 0]);
    assert_eq!(plan[0].settle_ms, 200);
    assert_eq!(plan[1].bytes, vec![0xe0, 0x10, 0x31, 0x10]);
    assert_eq!(plan[1].settle_ms, 200);
    // floor(800 + 11*50) = 1350; 1350 div 19 = 71.
    assert_eq!(plan[2].bytes, vec![0xe0, 32, 0, 71]);
    assert_eq!(plan[2].settle_ms, 100);
    // Manual mode never mutates the configuration.
    assert_eq!(cfg.channels[0].speed, 50);
}

#[test]
fn plan_for_pwm_channel_writes_no_speed() {
    let mut cfg = config("id", true, vec![channel("PWM", 30, None)]);
    let plan = plan_device(HardwareFamily::V1, &mut cfg, &vec![None]);
    assert_eq!(plan.len(), 2);
    assert_eq!(plan[0].bytes, vec![0xe0, 0x10, 0x41, 1, 0, 0, 0]);
    assert_eq!(plan[1].bytes, vec![0xe0, 0x10, 0x42, 0x11]); // select + PWM bit on channel 0
    assert_eq!(cfg.channels[0].speed, 30);
}

#[test]
fn plan_for_curve_channel_records_computed_speed() {
    let mut cfg = config("id", false, vec![channel("fan-curve", 50, Some("/tmp/c.json"))]);
    let plan = plan_device(HardwareFamily::V2, &mut cfg, &vec![Some(80)]);
    assert_eq!(plan.len(), 3);
    // floor(500 + 35*80)/2 = 1650; 1650 div 20 = 82.
    assert_eq!(plan[2].bytes, vec![0xe0, 32, 0, 82]);
    // The computed value is persisted back so it stays inspectable.
    assert_eq!(cfg.channels[0].speed, 80);
}

#[test]
fn curve_failure_keeps_prior_speed_and_completes_pass() {
    let mut cfg = config(
        "id",
        false,
        vec![
            channel("fan-curve", 55, Some("/tmp/missing.json")),
            channel("Manual", 20, None),
        ],
    );
    let plan = plan_device(HardwareFamily::Legacy, &mut cfg, &vec![None, None]);
    // The failed curve channel keeps its prior speed and gets no speed
    // frame; the second channel is still fully programmed.
    assert_eq!(cfg.channels[0].speed, 55);
    assert_eq!(plan.len(), 4); // sync, select 0, select 1, speed 1
    assert_eq!(plan[1].bytes, vec![0xe0, 0x10, 0x31, 0x10]);
    assert_eq!(plan[2].bytes, vec![0xe0, 0x10, 0x31, 0x20]);
    // floor(800 + 11*20) = 1020; 1020 div 19 = 53; channel register 1 + 32.
    assert_eq!(plan[3].bytes, vec![0xe0, 33, 0, 53]);
}

#[test]
fn unknown_mode_channel_is_inert() {
    let mut cfg = config("id", false, vec![channel("turbo", 66, None)]);
    let plan = plan_device(HardwareFamily::Legacy, &mut cfg, &vec![None]);
    assert_eq!(plan.len(), 2); // sync + select only, no speed frame
    assert_eq!(cfg.channels[0].speed, 66);
    assert_eq!(cfg.channels[0].mode, "turbo");
}

#[test]
fn plan_iterates_configured_channels_only() {
    // Two channels instead of the default four: both are programmed,
    // nothing assumes a channel count.
    let mut cfg = config("id", false, vec![
        channel("Manual", 0, None),
        channel("Manual", 100, None),
    ]);
    let plan = plan_device(HardwareFamily::Legacy, &mut cfg, &vec![None, None]);
    assert_eq!(plan.len(), 5); // sync + 2 * (select + speed)
    assert_eq!(plan[2].bytes, vec![0xe0, 32, 0, 42]); // 800/19
    assert_eq!(plan[4].bytes, vec![0xe0, 33, 0, 100]); // 1900/19
}

#[test]
fn channels_beyond_shift_range_are_not_programmed() {
    let mut channels = Vec::new();
    for _ in 0..10 {
        channels.push(channel("Manual", 50, None));
    }
    let mut cfg = config("id", false, channels);
    let plan = plan_device(HardwareFamily::V2, &mut cfg, &vec![]);
    // Only the first eight channels fit the select command's shift range.
    assert_eq!(plan.len(), 1 + 8 * 2);
    assert_eq!(cfg.channels.len(), 10);
}

#[test]
fn merge_appends_default_then_finds_in_place() {
    let mut configs = Configs { configs: vec![] };
    let id = "VID:3314/PID:41216/SN:A".to_string();
    let idx = merge_device(&mut configs, &id);
    assert_eq!(idx, 0);
    assert_eq!(configs.configs.len(), 1);
    assert_eq!(configs.configs[0].device_id, id);
    assert_eq!(configs.configs[0].channels.len(), 4);
    // A second merge matches the existing entry instead of appending.
    let idx2 = merge_device(&mut configs, &id);
    assert_eq!(idx2, 0);
    assert_eq!(configs.configs.len(), 1);
}

#[test]
fn first_discovery_defaults_one_entry() {
    let mut configs = Configs { configs: vec![] };
    let devices = vec![DeviceEvent {
        device_id: "VID:3314/PID:41216/SN:A".to_string(),
        family: HardwareFamily::Legacy,
        opened: true,
        curve_speeds: vec![],
    }];
    let plans = reconcile_pass(&mut configs, &devices);
    assert_eq!(configs.configs.len(), 1);
    let c = &configs.configs[0];
    assert_eq!(c.device_id, "VID:3314/PID:41216/SN:A");
    assert!(!c.sync_rgb);
    assert_eq!(c.channels.len(), 4);
    for ch in &c.channels {
        assert_eq!(ch.mode, "Manual");
        assert_eq!(ch.speed, 50);
        assert!(ch.fan_curve.is_none());
    }
    assert_eq!(plans.len(), 1);
    // Default config: sync frame plus select + speed for each of 4 channels.
    assert_eq!(plans[0].as_ref().unwrap().len(), 9);
}

#[test]
fn undiscovered_entry_is_unchanged() {
    let kept = config("VID:3314/PID:41217/SN:KEEP", true, vec![
        channel("PWM", 13, None),
        channel("weird-mode", 77, Some("/tmp/x.json")),
    ]);
    let mut configs = Configs { configs: vec![kept.clone()] };
    let devices = vec![DeviceEvent {
        device_id: "VID:3314/PID:41216/SN:OTHER".to_string(),
        family: HardwareFamily::V2,
        opened: true,
        curve_speeds: vec![],
    }];
    reconcile_pass(&mut configs, &devices);
    assert_eq!(configs.configs.len(), 2);
    // The undiscovered device's entry is untouched, at its position.
    assert_eq!(configs.configs[0], kept);
}

#[test]
fn permission_failure_on_one_device_leaves_others_programmed() {
    let mut configs = Configs { configs: vec![] };
    let devices = vec![
        DeviceEvent {
            device_id: "VID:3314/PID:41216/SN:A".to_string(),
            family: HardwareFamily::Legacy,
            opened: false, // permission denied: skipped this cycle
            curve_speeds: vec![],
        },
        DeviceEvent {
            device_id: "VID:3314/PID:41219/SN:B".to_string(),
            family: HardwareFamily::V2,
            opened: true,
            curve_speeds: vec![],
        },
    ];
    let plans = reconcile_pass(&mut configs, &devices);
    assert_eq!(plans.len(), 2);
    assert!(plans[0].is_none());
    // Device B is fully programmed despite A's failure.
    let plan_b = plans[1].as_ref().unwrap();
    assert_eq!(plan_b.len(), 9);
    assert_eq!(plan_b[0].bytes, vec![0xe0, 0x10, 0x61, 0, 0, 0, 0]);
    // The skipped device gets no configuration entry this cycle.
    assert_eq!(configs.configs.len(), 1);
    assert_eq!(configs.configs[0].device_id, "VID:3314/PID:41219/SN:B");
}

#[test]
fn rediscovered_device_updates_in_place() {
    let mut configs = Configs {
        configs: vec![config("VID:3314/PID:41216/SN:A", true, vec![
            channel("Manual", 90, None),
        ])],
    };
    let devices = vec![DeviceEvent {
        device_id: "VID:3314/PID:41216/SN:A".to_string(),
        family: HardwareFamily::Legacy,
        opened: true,
        curve_speeds: vec![None],
    }];
    let plans = reconcile_pass(&mut configs, &devices);
    // No duplicate entry is appended; operator settings are preserved.
    assert_eq!(configs.configs.len(), 1);
    assert_eq!(configs.configs[0].sync_rgb, true);
    assert_eq!(configs.configs[0].channels[0].speed, 90);
    let plan = plans[0].as_ref().unwrap();
    assert_eq!(plan.len(), 3);
    assert_eq!(plan[0].bytes, vec![0xe0, 0x10, 0x30, 1, 0, 0, 0]);
}
