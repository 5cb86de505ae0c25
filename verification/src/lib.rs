use vstd::prelude::*;

mod codec;
mod config;
mod engine;
mod identity;
mod mode;

pub use codec::{
    HardwareFamily, channel_select_frame, family_for_product, lemma_speed_to_byte_monotone,
    lemma_speed_to_byte_range, spec_control_byte, spec_family_for_product, spec_select_frame,
    spec_select_opcode, spec_speed_frame, spec_speed_to_byte, spec_sync_frame, spec_sync_opcode,
    speed_frame, speed_to_byte, sync_frame,
};
pub use config::{
    Channel, ChannelView, Config, ConfigView, Configs, channel_wf, config_wf, configs_wf,
    create_default_config, lemma_default_config_wf, spec_default_channel, spec_default_config,
};
pub use engine::{
    DeviceEvent, DeviceEventView, PlanView, TimedFrame, curve_speeds_wf, evaluate_channel,
    event_views, events_wf, lemma_curve_failure_keeps_speed, lemma_find_properties,
    lemma_first_discovery_defaults, lemma_skipped_device_no_effect,
    lemma_undiscovered_entry_unchanged, merge_device, plan_device, plan_views, plans_views,
    reconcile_pass, spec_channel_cmds, spec_channels_cmds, spec_curve_for, spec_cycle,
    spec_cycle_step, spec_device_plan, spec_effective_speed, spec_find, spec_merge,
    spec_program_channels, spec_program_config, spec_programmed_count, spec_updated_channel,
};
pub use identity::{
    BusDevice, BusDeviceView, ResolvedDevice, ResolvedDeviceView, bus_views, dec_seq,
    device_id_string, digit_char, is_digit_char, lemma_dec_seq_digits, lemma_dec_seq_injective,
    lemma_device_id_injective, lemma_digit_char_code, resolve_devices, resolved_views,
    spec_accepted, spec_device_id, spec_resolve, spec_resolved_of, spec_supported_product,
    spec_supported_vendor, supported_product, supported_vendor,
};
pub use mode::{
    ChannelMode, ModeView, fan_curve_str, lemma_mode_parse_render, lemma_mode_string_round_trip,
    manual_str, mode_string, mode_view_wf, parse_mode, pwm_str, spec_mode_string, spec_parse_mode,
};

verus! {

} // verus!
