use vstd::prelude::*;
use crate::codec::{
    HardwareFamily, channel_select_frame, lemma_speed_to_byte_range, spec_select_frame,
    spec_speed_frame, spec_speed_to_byte, spec_sync_frame, speed_frame, speed_to_byte, sync_frame,
};
use crate::config::{
    Channel, ChannelView, Config, ConfigView, Configs, config_wf, configs_wf,
    create_default_config, lemma_default_config_wf, spec_default_config,
};
use crate::mode::{ChannelMode, fan_curve_str, lemma_mode_strings_distinct, manual_str, parse_mode, pwm_str};

verus! {

/// One raw command frame paired with the settle delay (in milliseconds)
/// that the hardware firmware requires after the frame is written, before
/// it accepts the next command.
pub struct TimedFrame {
    pub bytes: Vec<u8>,
    pub settle_ms: u64,
}

impl View for TimedFrame {
    type V = (Seq<u8>, u64);

    open spec fn view(&self) -> (Seq<u8>, u64) {
        (self.bytes@, self.settle_ms)
    }
}

pub open spec fn plan_views(p: Seq<TimedFrame>) -> Seq<(Seq<u8>, u64)> {
    p.map_values(|t: TimedFrame| t@)
}

/// The curve-computed speed offered for channel `k`, if any: a curve list
/// shorter than the channel list simply offers nothing for the channels
/// beyond its end.
pub open spec fn spec_curve_for(curve: Seq<Option<usize>>, k: int) -> Option<usize> {
    if 0 <= k < curve.len() {
        curve[k]
    } else {
        Option::None
    }
}

/// The speed written for a channel this cycle, if any: a manual channel
/// always writes its configured speed; a fan-curve channel with a curve
/// reference writes the curve-computed speed when the curve subsystem
/// produced one; PWM and unrecognized modes never write a speed.
pub open spec fn spec_effective_speed(ch: ChannelView, curve: Option<usize>) -> Option<usize> {
    if ch.mode == manual_str() {
        Option::Some(ch.speed)
    } else if ch.mode == fan_curve_str() {
        if ch.fan_curve is Some {
            curve
        } else {
            Option::None
        }
    } else {
        Option::None
    }
}

/// The channel after one cycle: a fan-curve channel adopts the computed
/// speed so the value stays inspectable between cycles; every other
/// channel — and every channel whose curve produced nothing — is unchanged.
pub open spec fn spec_updated_channel(ch: ChannelView, curve: Option<usize>) -> ChannelView {
    if ch.mode == fan_curve_str() && ch.fan_curve is Some && curve is Some {
        ChannelView { mode: ch.mode, speed: curve->Some_0, fan_curve: ch.fan_curve }
    } else {
        ch
    }
}

/// A fan-curve channel for which the curve subsystem produced no speed
/// keeps its prior speed: a failed curve read never mutates configuration.
pub proof fn lemma_curve_failure_keeps_speed(ch: ChannelView)
    ensures
        spec_updated_channel(ch, Option::None) == ch,
{
}

/// The frames written for one channel: the channel-select command (with a
/// 200 ms settle), then, when a speed is due, the speed command (with a
/// 100 ms settle).
pub open spec fn spec_channel_cmds(
    family: HardwareFamily,
    ch: ChannelView,
    k: int,
    curve: Option<usize>,
) -> Seq<(Seq<u8>, u64)> {
    let select = (spec_select_frame(family, k as u16, ch.mode == pwm_str()), 200u64);
    match spec_effective_speed(ch, curve) {
        Option::Some(s) => seq![
            select,
            (spec_speed_frame(k, spec_speed_to_byte(family, s as int) as u8), 100u64),
        ],
        Option::None => seq![select],
    }
}

/// Channels are programmed in order; only indexes below eight fit the
/// select command's shift range, so channels beyond that are not written.
pub open spec fn spec_programmed_count(n: int) -> int {
    if n <= 8 {
        n
    } else {
        8
    }
}

pub open spec fn spec_channels_cmds(
    family: HardwareFamily,
    chans: Seq<ChannelView>,
    curve: Seq<Option<usize>>,
    upto: int,
) -> Seq<(Seq<u8>, u64)>
    decreases upto,
{
    if upto <= 0 {
        Seq::empty()
    } else {
        spec_channels_cmds(family, chans, curve, upto - 1) + spec_channel_cmds(
            family,
            chans[upto - 1],
            upto - 1,
            spec_curve_for(curve, upto - 1),
        )
    }
}

/// The full programming plan for one device: the RGB-sync command (200 ms
/// settle) followed by each programmed channel's commands in channel order.
pub open spec fn spec_device_plan(
    family: HardwareFamily,
    cfg: crate::config::ConfigView,
    curve: Seq<Option<usize>>,
) -> Seq<(Seq<u8>, u64)> {
    seq![(spec_sync_frame(family, cfg.sync_rgb), 200u64)] + spec_channels_cmds(
        family,
        cfg.channels,
        curve,
        spec_programmed_count(cfg.channels.len() as int),
    )
}

/// The channel list after one cycle: programmed channels adopt their
/// curve-computed speeds, the rest are unchanged.
pub open spec fn spec_program_channels(
    chans: Seq<ChannelView>,
    curve: Seq<Option<usize>>,
) -> Seq<ChannelView> {
    Seq::new(
        chans.len(),
        |k: int|
            if k < 8 {
                spec_updated_channel(chans[k], spec_curve_for(curve, k))
            } else {
                chans[k]
            },
    )
}

/// The configuration after one cycle: only channel speeds may change, and
/// only for fan-curve channels whose curve produced a value.
pub open spec fn spec_program_config(
    cfg: crate::config::ConfigView,
    curve: Seq<Option<usize>>,
) -> crate::config::ConfigView {
    crate::config::ConfigView {
        device_id: cfg.device_id,
        sync_rgb: cfg.sync_rgb,
        channels: spec_program_channels(cfg.channels, curve),
    }
}

/// Decide the speed to write for one channel this cycle, if any.
pub fn evaluate_channel(channel: &Channel, curve_speed: Option<usize>) -> (r: Option<usize>)
    ensures
        r == spec_effective_speed(channel@, curve_speed),
{
    proof {
        lemma_mode_strings_distinct();
    }
    let mode = parse_mode(&channel.mode);
    match mode {
        ChannelMode::Manual => Option::Some(channel.speed),
        ChannelMode::Pwm => Option::None,
        ChannelMode::FanCurve => {
            if channel.fan_curve.is_some() {
                curve_speed
            } else {
                Option::None
            }
        },
        ChannelMode::Unknown(_) => Option::None,
    }
}

/// All curve-computed speeds are logical percentages.
pub open spec fn curve_speeds_wf(curve: Seq<Option<usize>>) -> bool {
    forall|k: int|
        0 <= k < curve.len() ==> match #[trigger] curve[k] {
            Option::Some(s) => s <= 100,
            Option::None => true,
        }
}

/// Build the programming plan for one device and record the curve-computed
/// speeds in its configuration.
pub fn plan_device(
    family: HardwareFamily,
    config: &mut Config,
    curve_speeds: &Vec<Option<usize>>,
) -> (plan: Vec<TimedFrame>)
    requires
        config_wf(old(config)@),
        curve_speeds_wf(curve_speeds@),
    ensures
        final(config)@ == spec_program_config(old(config)@, curve_speeds@),
        config_wf(final(config)@),
        plan_views(plan@) == spec_device_plan(family, old(config)@, curve_speeds@),
{
    proof {
        lemma_mode_strings_distinct();
    }
    let ghost cfg0 = old(config)@;
    let ghost curve = curve_speeds@;
    let mut plan: Vec<TimedFrame> = Vec::new();
    let sync = sync_frame(family, config.sync_rgb);
    plan.push(TimedFrame { bytes: sync, settle_ms: 200 });
    let n: usize = config.channels.len();
    let limit: usize = if n < 8 {
        n
    } else {
        8
    };
    proof {
        assert(plan_views(plan@) =~= seq![(spec_sync_frame(family, cfg0.sync_rgb), 200u64)]
            + spec_channels_cmds(family, cfg0.channels, curve, 0));
    }
    let mut k: usize = 0;
    while k < limit
        invariant
            limit as int == spec_programmed_count(cfg0.channels.len() as int),
            limit <= config.channels.len(),
            k <= limit,
            config_wf(cfg0),
            curve_speeds_wf(curve),
            curve == curve_speeds@,
            config.channels@.len() == cfg0.channels.len(),
            config.device_id@ == cfg0.device_id,
            config.sync_rgb == cfg0.sync_rgb,
            forall|j: int| k <= j < cfg0.channels.len() ==> config@.channels[j] == cfg0.channels[j],
            forall|j: int|
                0 <= j < k ==> config@.channels[j] == spec_updated_channel(
                    cfg0.channels[j],
                    spec_curve_for(curve, j),
                ),
            plan_views(plan@) == seq![(spec_sync_frame(family, cfg0.sync_rgb), 200u64)]
                + spec_channels_cmds(family, cfg0.channels, curve, k as int),
        decreases limit - k,
    {
        let ghost pv_entry = plan_views(plan@);
        let ghost plan_entry = plan@;
        let ghost chview_entry = config@.channels;
        let ghost chv = cfg0.channels[k as int];
        let ghost ck = spec_curve_for(curve, k as int);
        let ghost base = seq![(spec_sync_frame(family, cfg0.sync_rgb), 200u64)];
        proof {
            lemma_mode_strings_distinct();
            assert(config@.channels[k as int] == chv);
        }
        let mode = parse_mode(&config.channels[k].mode);
        let select = channel_select_frame(family, k, &mode);
        let ghost sel_cmd = (spec_select_frame(family, k as u16, chv.mode == pwm_str()), 200u64);
        proof {
            assert(select@ == sel_cmd.0);
        }
        plan.push(TimedFrame { bytes: select, settle_ms: 200 });
        let curve_k: Option<usize> = if k < curve_speeds.len() {
            curve_speeds[k]
        } else {
            Option::None
        };
        proof {
            assert(curve_k == ck);
        }
        let eff = evaluate_channel(&config.channels[k], curve_k);
        match eff {
            Option::Some(s) => {
                proof {
                    assert(s <= 100);
                    lemma_speed_to_byte_range(family, s as int);
                }
                let byte = speed_to_byte(family, s);
                let speed = speed_frame(k, byte);
                let ghost speed_cmd = (
                    spec_speed_frame(k as int, spec_speed_to_byte(family, s as int) as u8),
                    100u64,
                );
                proof {
                    assert(byte as int == spec_speed_to_byte(family, s as int));
                    assert(byte == spec_speed_to_byte(family, s as int) as u8);
                    assert(speed@ == speed_cmd.0);
                }
                plan.push(TimedFrame { bytes: speed, settle_ms: 100 });
                proof {
                    assert(spec_channel_cmds(family, chv, k as int, ck) =~= seq![
                        sel_cmd,
                        speed_cmd,
                    ]);
                    assert(plan_views(plan@) =~= pv_entry.push(sel_cmd).push(speed_cmd));
                    assert(pv_entry.push(sel_cmd).push(speed_cmd) =~= pv_entry + seq![
                        sel_cmd,
                        speed_cmd,
                    ]);
                }
                let is_curve = match mode {
                    ChannelMode::FanCurve => true,
                    _ => false,
                };
                if is_curve && config.channels[k].fan_curve.is_some() {
                    let updated = Channel {
                        mode: config.channels[k].mode.clone(),
                        speed: s,
                        fan_curve: match &config.channels[k].fan_curve {
                            Option::Some(f) => Option::Some(f.clone()),
                            Option::None => Option::None,
                        },
                    };
                    proof {
                        assert(updated@ =~= spec_updated_channel(chv, ck));
                    }
                    config.channels[k] = updated;
                    proof {
                        assert(config@.channels =~= chview_entry.update(k as int, updated@));
                    }
                } else {
                    proof {
                        assert(spec_updated_channel(chv, ck) == chv);
                        assert(config@.channels =~= chview_entry);
                    }
                }
            },
            Option::None => {
                proof {
                    assert(spec_channel_cmds(family, chv, k as int, ck) =~= seq![sel_cmd]);
                    assert(plan_views(plan@) =~= pv_entry.push(sel_cmd));
                    assert(pv_entry.push(sel_cmd) =~= pv_entry + seq![sel_cmd]);
                    assert(spec_updated_channel(chv, ck) == chv);
                    assert(config@.channels =~= chview_entry);
                }
            },
        }
        proof {
            assert(spec_channels_cmds(family, cfg0.channels, curve, k + 1)
                == spec_channels_cmds(family, cfg0.channels, curve, k as int)
                + spec_channel_cmds(family, chv, k as int, ck));
            assert(pv_entry == base + spec_channels_cmds(family, cfg0.channels, curve, k as int));
            assert(plan_views(plan@) =~= pv_entry + spec_channel_cmds(family, chv, k as int, ck));
            assert(plan_views(plan@) =~= base + spec_channels_cmds(
                family,
                cfg0.channels,
                curve,
                k + 1,
            ));
            assert forall|j: int|
                0 <= j < k + 1 implies config@.channels[j] == spec_updated_channel(
                cfg0.channels[j],
                spec_curve_for(curve, j),
            ) by {
                if j < k {
                    assert(config@.channels[j] == chview_entry[j]);
                } else {
                    assert(config@.channels[j] == spec_updated_channel(chv, ck));
                }
            }
            assert forall|j: int|
                k + 1 <= j < cfg0.channels.len() implies config@.channels[j] == cfg0.channels[j] by {
                assert(config@.channels[j] == chview_entry[j]);
            }
        }
        k = k + 1;
    }
    proof {
        assert(config@.channels =~= spec_program_channels(cfg0.channels, curve));
        assert(config@ =~= spec_program_config(cfg0, curve));
        assert(config_wf(config@));
        assert(plan_views(plan@) == spec_device_plan(family, cfg0, curve));
    }
    plan
}

/// The model of one device's programming plan: the frame bytes paired with
/// the settle delay after each frame.
pub type PlanView = Seq<(Seq<u8>, u64)>;

/// The index of the first configuration entry for a device id, if any.
pub open spec fn spec_find(cs: Seq<ConfigView>, id: Seq<char>) -> Option<int>
    decreases cs.len(),
{
    if cs.len() == 0 {
        Option::None
    } else if cs[0].device_id == id {
        Option::Some(0)
    } else {
        match spec_find(cs.drop_first(), id) {
            Option::Some(i) => Option::Some(i + 1),
            Option::None => Option::None,
        }
    }
}

/// `spec_find` returns the first match, and `None` exactly when no entry
/// carries the id.
pub proof fn lemma_find_properties(cs: Seq<ConfigView>, id: Seq<char>)
    ensures
        spec_find(cs, id) matches Option::Some(i) ==> 0 <= i < cs.len() && cs[i].device_id == id
            && forall|j: int| 0 <= j < i ==> (#[trigger] cs[j]).device_id != id,
        spec_find(cs, id) is None ==> forall|j: int|
            0 <= j < cs.len() ==> (#[trigger] cs[j]).device_id != id,
    decreases cs.len(),
{
    if cs.len() > 0 && cs[0].device_id != id {
        let rest = cs.drop_first();
        lemma_find_properties(rest, id);
        assert forall|j: int| 0 <= j < cs.len() - 1 implies #[trigger] rest[j] == cs[j + 1] by {}
        match spec_find(rest, id) {
            Option::Some(i) => {
                assert(spec_find(cs, id) == Option::Some(i + 1));
                assert(cs[i + 1] == rest[i]);
                assert forall|j: int| 0 <= j < i + 1 implies (#[trigger] cs[j]).device_id != id by {
                    if j > 0 {
                        assert(rest[j - 1] == cs[j]);
                        assert(rest[j - 1].device_id != id);
                    }
                }
            },
            Option::None => {
                assert(spec_find(cs, id) is None);
                assert forall|j: int| 0 <= j < cs.len() implies (#[trigger] cs[j]).device_id
                    != id by {
                    if j > 0 {
                        assert(rest[j - 1] == cs[j]);
                        assert(rest[j - 1].device_id != id);
                    }
                }
            },
        }
    }
}

/// The configuration set and entry index a device reconciles against: the
/// first entry with its id, or a freshly appended default entry.
pub open spec fn spec_merge(cs: Seq<ConfigView>, id: Seq<char>) -> (Seq<ConfigView>, int) {
    match spec_find(cs, id) {
        Option::Some(i) => (cs, i),
        Option::None => (cs.push(spec_default_config(id)), cs.len() as int),
    }
}

fn find_config_index(configs: &Configs, device_id: &String) -> (r: Option<usize>)
    ensures
        r matches Option::Some(u) ==> spec_find(configs@, device_id@) == Option::Some(u as int),
        r is None ==> spec_find(configs@, device_id@) is None,
{
    proof {
        lemma_find_properties(configs@, device_id@);
    }
    let mut i: usize = 0;
    while i < configs.configs.len()
        invariant
            i <= configs@.len(),
            forall|j: int| 0 <= j < i ==> (#[trigger] configs@[j]).device_id != device_id@,
        decreases configs@.len() - i,
    {
        if configs.configs[i].device_id.eq(device_id) {
            proof {
                lemma_find_properties(configs@, device_id@);
                assert(configs@[i as int].device_id == device_id@);
            }
            return Option::Some(i);
        }
        i = i + 1;
    }
    proof {
        lemma_find_properties(configs@, device_id@);
        match spec_find(configs@, device_id@) {
            Option::Some(m) => {
                assert(configs@[m].device_id == device_id@);
                assert(false);
            },
            Option::None => {},
        }
    }
    Option::None
}

/// Look up the configuration entry for a device id, appending the default
/// configuration the first time the device's identity is observed. Returns
/// the index of the device's entry; entries of other devices are never
/// touched.
pub fn merge_device(configs: &mut Configs, device_id: &String) -> (idx: usize)
    ensures
        final(configs)@ == spec_merge(old(configs)@, device_id@).0,
        idx as int == spec_merge(old(configs)@, device_id@).1,
        idx < final(configs)@.len(),
        final(configs)@[idx as int].device_id == device_id@,
        configs_wf(old(configs)@) ==> configs_wf(final(configs)@),
{
    proof {
        lemma_find_properties(old(configs)@, device_id@);
        lemma_default_config_wf(device_id@);
    }
    match find_config_index(configs, device_id) {
        Option::Some(i) => i,
        Option::None => {
            let c = create_default_config(device_id.clone());
            configs.configs.push(c);
            proof {
                assert(configs@ =~= old(configs)@.push(spec_default_config(device_id@)));
            }
            configs.configs.len() - 1
        },
    }
}

/// Everything the engine needs to know about one discovered device in one
/// cycle: its persistence id and hardware family, whether its handle could
/// be opened, and the curve-computed speed offered for each channel (`None`
/// for channels without a curve, and for curve channels whose curve read,
/// sensor read or interpolation failed this cycle).
pub struct DeviceEvent {
    pub device_id: String,
    pub family: HardwareFamily,
    pub opened: bool,
    pub curve_speeds: Vec<Option<usize>>,
}

/// Mathematical model of a `DeviceEvent`.
#[verifier::ext_equal]
pub struct DeviceEventView {
    pub device_id: Seq<char>,
    pub family: HardwareFamily,
    pub opened: bool,
    pub curve_speeds: Seq<Option<usize>>,
}

impl View for DeviceEvent {
    type V = DeviceEventView;

    open spec fn view(&self) -> DeviceEventView {
        DeviceEventView {
            device_id: self.device_id@,
            family: self.family,
            opened: self.opened,
            curve_speeds: self.curve_speeds@,
        }
    }
}

pub open spec fn event_views(evs: Seq<DeviceEvent>) -> Seq<DeviceEventView> {
    evs.map_values(|e: DeviceEvent| e@)
}

pub open spec fn events_wf(evs: Seq<DeviceEventView>) -> bool {
    forall|i: int| 0 <= i < evs.len() ==> curve_speeds_wf((#[trigger] evs[i]).curve_speeds)
}

/// One device's effect on a cycle: a device whose handle did not open is
/// skipped outright; otherwise its entry is looked up or defaulted, its
/// curve speeds are recorded, and its programming plan is emitted.
pub open spec fn spec_cycle_step(cs: Seq<ConfigView>, ev: DeviceEventView) -> (
    Seq<ConfigView>,
    Option<PlanView>,
) {
    if !ev.opened {
        (cs, Option::None)
    } else {
        let m = spec_merge(cs, ev.device_id);
        let cfg = m.0[m.1];
        (
            m.0.update(m.1, spec_program_config(cfg, ev.curve_speeds)),
            Option::Some(spec_device_plan(ev.family, cfg, ev.curve_speeds)),
        )
    }
}

/// The configuration set and per-device plans after the first `n` devices
/// of a cycle, in discovery order.
pub open spec fn spec_cycle(cs: Seq<ConfigView>, evs: Seq<DeviceEventView>, n: int) -> (
    Seq<ConfigView>,
    Seq<Option<PlanView>>,
)
    decreases n,
{
    if n <= 0 {
        (cs, Seq::empty())
    } else {
        let prev = spec_cycle(cs, evs, n - 1);
        let st = spec_cycle_step(prev.0, evs[n - 1]);
        (st.0, prev.1.push(st.1))
    }
}

pub open spec fn plans_views(ps: Seq<Option<Vec<TimedFrame>>>) -> Seq<Option<PlanView>> {
    ps.map_values(
        |p: Option<Vec<TimedFrame>>|
            match p {
                Option::Some(v) => Option::Some(plan_views(v@)),
                Option::None => Option::None,
            },
    )
}

/// Run one reconciliation cycle: for each discovered device, in order,
/// merge its configuration (defaulting it on first sight), record the
/// curve-computed speeds, and build its programming plan. A device whose
/// handle did not open is skipped without touching any entry, and entries
/// of devices not discovered this cycle pass through unchanged.
pub fn reconcile_pass(configs: &mut Configs, devices: &Vec<DeviceEvent>) -> (plans: Vec<
    Option<Vec<TimedFrame>>,
>)
    requires
        configs_wf(old(configs)@),
        events_wf(event_views(devices@)),
    ensures
        final(configs)@ == spec_cycle(old(configs)@, event_views(devices@), devices@.len() as int).0,
        plans_views(plans@) == spec_cycle(
            old(configs)@,
            event_views(devices@),
            devices@.len() as int,
        ).1,
        configs_wf(final(configs)@),
{
    let ghost cs0 = old(configs)@;
    let ghost evs = event_views(devices@);
    let mut plans: Vec<Option<Vec<TimedFrame>>> = Vec::new();
    let mut i: usize = 0;
    while i < devices.len()
        invariant
            i <= devices@.len(),
            evs == event_views(devices@),
            evs.len() == devices@.len(),
            events_wf(evs),
            configs_wf(configs@),
            configs@ == spec_cycle(cs0, evs, i as int).0,
            plans_views(plans@) == spec_cycle(cs0, evs, i as int).1,
        decreases devices@.len() - i,
    {
        let ghost pv_entry = plans_views(plans@);
        let ghost cs_entry = configs@;
        let ev = &devices[i];
        proof {
            assert(ev@ == evs[i as int]);
            assert(curve_speeds_wf(evs[i as int].curve_speeds));
        }
        if ev.opened {
            let idx = merge_device(configs, &ev.device_id);
            let ghost cs_merged = configs@;
            proof {
                assert(config_wf(cs_merged[idx as int]));
            }
            let plan = plan_device(ev.family, &mut configs.configs[idx], &ev.curve_speeds);
            proof {
                let st = spec_cycle_step(cs_entry, evs[i as int]);
                assert(configs@ =~= cs_merged.update(
                    idx as int,
                    spec_program_config(cs_merged[idx as int], evs[i as int].curve_speeds),
                ));
                assert(configs@ == st.0);
                assert(plan_views(plan@) == spec_device_plan(
                    evs[i as int].family,
                    cs_merged[idx as int],
                    evs[i as int].curve_speeds,
                ));
                assert(configs_wf(configs@));
            }
            plans.push(Option::Some(plan));
            proof {
                assert(plans_views(plans@) =~= pv_entry.push(
                    spec_cycle_step(cs_entry, evs[i as int]).1,
                ));
            }
        } else {
            plans.push(Option::None);
            proof {
                assert(spec_cycle_step(cs_entry, evs[i as int]).1 is None);
                assert(plans_views(plans@) =~= pv_entry.push(
                    spec_cycle_step(cs_entry, evs[i as int]).1,
                ));
            }
        }
        proof {
            assert(spec_cycle(cs0, evs, i + 1).0 == spec_cycle_step(
                spec_cycle(cs0, evs, i as int).0,
                evs[i as int],
            ).0);
            assert(spec_cycle(cs0, evs, i + 1).1 == spec_cycle(cs0, evs, i as int).1.push(
                spec_cycle_step(spec_cycle(cs0, evs, i as int).0, evs[i as int]).1,
            ));
        }
        i = i + 1;
    }
    proof {
        assert(configs_wf(configs@));
    }
    plans
}

/// Reconciling an empty persisted set against one newly discovered, opened
/// device yields exactly one configuration entry: the hardware-safe default
/// for that device id (RGB sync off, four manual channels at speed 50).
pub proof fn lemma_first_discovery_defaults(ev: DeviceEventView)
    requires
        ev.opened,
    ensures
        spec_cycle(Seq::empty(), seq![ev], 1).0 == seq![spec_default_config(ev.device_id)],
{
    crate::mode::lemma_mode_strings_distinct();
    let empty: Seq<ConfigView> = Seq::empty();
    let dflt = spec_default_config(ev.device_id);
    assert(spec_cycle(empty, seq![ev], 0).0 == empty);
    assert(spec_find(empty, ev.device_id) is None);
    assert(spec_merge(empty, ev.device_id).0 == empty.push(dflt));
    assert(spec_merge(empty, ev.device_id).1 == 0);
    assert(empty.push(dflt)[0] == dflt);
    assert(spec_program_channels(dflt.channels, ev.curve_speeds) =~= dflt.channels);
    assert(spec_program_config(dflt, ev.curve_speeds) =~= dflt);
    assert(spec_cycle(empty, seq![ev], 1).0 =~= seq![dflt]);
}

/// An entry whose device is not discovered in a cycle is left unchanged,
/// at its original position, after the cycle.
pub proof fn lemma_undiscovered_entry_unchanged(
    cs: Seq<ConfigView>,
    evs: Seq<DeviceEventView>,
    n: int,
    j: int,
)
    requires
        0 <= j < cs.len(),
        0 <= n <= evs.len(),
        forall|k: int| 0 <= k < evs.len() ==> (#[trigger] evs[k]).device_id != cs[j].device_id,
    ensures
        spec_cycle(cs, evs, n).0.len() >= cs.len(),
        spec_cycle(cs, evs, n).0[j] == cs[j],
    decreases n,
{
    if n > 0 {
        lemma_undiscovered_entry_unchanged(cs, evs, n - 1, j);
        let prev = spec_cycle(cs, evs, n - 1).0;
        let ev = evs[n - 1];
        if ev.opened {
            lemma_find_properties(prev, ev.device_id);
            let m = spec_merge(prev, ev.device_id);
            match spec_find(prev, ev.device_id) {
                Option::Some(i) => {
                    assert(prev[i].device_id == ev.device_id);
                    assert(prev[j].device_id == cs[j].device_id);
                    assert(i != j);
                    assert(m.0.update(m.1, spec_program_config(m.0[m.1], ev.curve_speeds))[j]
                        == prev[j]);
                },
                Option::None => {
                    assert(m.1 == prev.len());
                    assert(m.0[j] == prev[j]);
                    assert(m.0.update(m.1, spec_program_config(m.0[m.1], ev.curve_speeds))[j]
                        == prev[j]);
                },
            }
        }
    }
}

/// A device whose handle cannot be opened (for instance for missing
/// permissions) contributes nothing to a cycle: the configurations and the
/// plans of the remaining devices are exactly those of a cycle run without
/// it.
pub proof fn lemma_skipped_device_no_effect(
    cs: Seq<ConfigView>,
    ev: DeviceEventView,
    evs: Seq<DeviceEventView>,
    n: int,
)
    requires
        !ev.opened,
        0 <= n <= evs.len(),
    ensures
        spec_cycle(cs, seq![ev] + evs, n + 1).0 == spec_cycle(cs, evs, n).0,
        spec_cycle(cs, seq![ev] + evs, n + 1).1 == seq![Option::<PlanView>::None] + spec_cycle(
            cs,
            evs,
            n,
        ).1,
    decreases n,
{
    let evs2 = seq![ev] + evs;
    assert(evs2[0] == ev);
    if n == 0 {
        assert(spec_cycle(cs, evs2, 0).0 == cs);
        assert(spec_cycle_step(cs, ev).0 == cs);
        assert(spec_cycle(cs, evs2, 1).1 =~= seq![Option::<PlanView>::None] + Seq::empty());
    } else {
        lemma_skipped_device_no_effect(cs, ev, evs, n - 1);
        assert(evs2[n] == evs[n - 1]);
        assert(spec_cycle(cs, evs2, n + 1).1 =~= seq![Option::<PlanView>::None] + spec_cycle(
            cs,
            evs,
            n,
        ).1);
    }
}

} // verus!
