use vstd::prelude::*;
use crate::mode::manual_str;

verus! {

/// One fan/RGB channel of a device configuration. `speed` is a logical
/// percentage (0..=100), not a device byte; `fan_curve` optionally names a
/// curve-definition file used when the mode is "fan-curve".
#[derive(Clone, PartialEq, Debug)]
pub struct Channel {
    pub mode: String,
    pub speed: usize,
    pub fan_curve: Option<String>,
}

/// Mathematical model of a `Channel`.
#[verifier::ext_equal]
pub struct ChannelView {
    pub mode: Seq<char>,
    pub speed: usize,
    pub fan_curve: Option<Seq<char>>,
}

impl View for Channel {
    type V = ChannelView;

    open spec fn view(&self) -> ChannelView {
        ChannelView {
            mode: self.mode@,
            speed: self.speed,
            fan_curve: match self.fan_curve {
                Option::Some(s) => Option::Some(s@),
                Option::None => Option::None,
            },
        }
    }
}

/// The persisted per-device configuration. `device_id` is immutable once
/// created; `channels` defaults to four entries but any length is tolerated.
#[derive(Clone, PartialEq, Debug)]
pub struct Config {
    pub device_id: String,
    pub sync_rgb: bool,
    pub channels: Vec<Channel>,
}

/// Mathematical model of a `Config`.
#[verifier::ext_equal]
pub struct ConfigView {
    pub device_id: Seq<char>,
    pub sync_rgb: bool,
    pub channels: Seq<ChannelView>,
}

impl View for Config {
    type V = ConfigView;

    open spec fn view(&self) -> ConfigView {
        ConfigView {
            device_id: self.device_id@,
            sync_rgb: self.sync_rgb,
            channels: self.channels@.map_values(|c: Channel| c@),
        }
    }
}

/// The full persisted configuration set, logically keyed by `device_id`.
#[derive(Clone, PartialEq, Debug)]
pub struct Configs {
    pub configs: Vec<Config>,
}

impl View for Configs {
    type V = Seq<ConfigView>;

    open spec fn view(&self) -> Seq<ConfigView> {
        self.configs@.map_values(|c: Config| c@)
    }
}

/// A channel is well formed when its logical speed is a percentage.
pub open spec fn channel_wf(c: ChannelView) -> bool {
    c.speed <= 100
}

pub open spec fn config_wf(c: ConfigView) -> bool {
    forall|i: int| 0 <= i < c.channels.len() ==> channel_wf(#[trigger] c.channels[i])
}

pub open spec fn configs_wf(cs: Seq<ConfigView>) -> bool {
    forall|i: int| 0 <= i < cs.len() ==> config_wf(#[trigger] cs[i])
}

/// The hardware-safe default channel: manual control at half speed.
pub open spec fn spec_default_channel() -> ChannelView {
    ChannelView { mode: manual_str(), speed: 50, fan_curve: Option::None }
}

/// The configuration a device receives the first time its identity is seen:
/// RGB sync off and four manual channels at speed 50.
pub open spec fn spec_default_config(device_id: Seq<char>) -> ConfigView {
    ConfigView {
        device_id: device_id,
        sync_rgb: false,
        channels: Seq::new(4, |i: int| spec_default_channel()),
    }
}

/// A freshly defaulted configuration is well formed.
pub proof fn lemma_default_config_wf(device_id: Seq<char>)
    ensures
        config_wf(spec_default_config(device_id)),
{
}

fn default_channel() -> (c: Channel)
    ensures
        c@ == spec_default_channel(),
{
    Channel { mode: String::from_str("Manual"), speed: 50, fan_curve: Option::None }
}

/// Build the default configuration for a newly observed device.
pub fn create_default_config(device_id: String) -> (c: Config)
    ensures
        c@ == spec_default_config(device_id@),
{
    let mut channels: Vec<Channel> = Vec::new();
    channels.push(default_channel());
    channels.push(default_channel());
    channels.push(default_channel());
    channels.push(default_channel());
    let c = Config { device_id, sync_rgb: false, channels };
    proof {
        assert(c@.channels =~= spec_default_config(c.device_id@).channels);
        assert(c@ =~= spec_default_config(c.device_id@));
    }
    c
}

} // verus!
