use vstd::prelude::*;
use vstd::arithmetic::div_mod::lemma_div_is_ordered;
use crate::mode::ChannelMode;

verus! {

/// The hardware revision of a controller, derived once from its product id.
///
/// A family fixes the opcode set and the speed-scaling formula. `V2Lite`
/// covers a single product code that shares the `V2` opcode set but scales
/// speeds with a formula of its own. Product codes that pass the supported
/// filter without a known family fall back to `Legacy` behaviour.
#[derive(Clone, Copy, PartialEq, Eq, Structural, Debug)]
pub enum HardwareFamily {
    Legacy,
    V1,
    V2Lite,
    V2,
}

pub open spec fn spec_family_for_product(product_id: u16) -> HardwareFamily {
    if product_id == 0x7750 || product_id == 0xa100 {
        HardwareFamily::Legacy
    } else if product_id == 0xa101 {
        HardwareFamily::V1
    } else if product_id == 0xa102 {
        HardwareFamily::V2Lite
    } else if product_id == 0xa103 || product_id == 0xa104 || product_id == 0xa105 {
        HardwareFamily::V2
    } else {
        HardwareFamily::Legacy
    }
}

/// Derive the hardware family from a product id.
pub fn family_for_product(product_id: u16) -> (f: HardwareFamily)
    ensures
        f == spec_family_for_product(product_id),
{
    if product_id == 0x7750 || product_id == 0xa100 {
        HardwareFamily::Legacy
    } else if product_id == 0xa101 {
        HardwareFamily::V1
    } else if product_id == 0xa102 {
        HardwareFamily::V2Lite
    } else if product_id == 0xa103 || product_id == 0xa104 || product_id == 0xa105 {
        HardwareFamily::V2
    } else {
        HardwareFamily::Legacy
    }
}

/// The opcode of the RGB-sync command for a family.
pub open spec fn spec_sync_opcode(family: HardwareFamily) -> u8 {
    match family {
        HardwareFamily::Legacy => 0x30,
        HardwareFamily::V1 => 0x41,
        HardwareFamily::V2Lite => 0x61,
        HardwareFamily::V2 => 0x61,
    }
}

/// The opcode of the channel-select command for a family.
pub open spec fn spec_select_opcode(family: HardwareFamily) -> u8 {
    match family {
        HardwareFamily::Legacy => 0x31,
        HardwareFamily::V1 => 0x42,
        HardwareFamily::V2Lite => 0x62,
        HardwareFamily::V2 => 0x62,
    }
}

/// The native speed byte for a logical speed percentage.
///
/// Each formula truncates twice: the numerator is an exact integer (the
/// half-step `V2` numerator 250 + 17.5·speed is computed exactly as
/// (500 + 35·speed)/2), and the division by the family's denominator
/// truncates again. The two-stage truncation is a hardware calibration
/// constant and must not be collapsed into a single division.
pub open spec fn spec_speed_to_byte(family: HardwareFamily, speed: int) -> int {
    match family {
        HardwareFamily::Legacy => (800 + 11 * speed) / 19,
        HardwareFamily::V1 => (800 + 11 * speed) / 19,
        HardwareFamily::V2Lite => (200 + 19 * speed) / 21,
        HardwareFamily::V2 => ((500 + 35 * speed) / 2) / 20,
    }
}

/// The speed scaling stays within a byte: it maps 0..=100 into 0..=100.
pub proof fn lemma_speed_to_byte_range(family: HardwareFamily, speed: int)
    requires
        0 <= speed <= 100,
    ensures
        0 <= spec_speed_to_byte(family, speed) <= 100,
{
    match family {
        HardwareFamily::Legacy | HardwareFamily::V1 => {
            lemma_div_is_ordered(0, 800 + 11 * speed, 19);
            lemma_div_is_ordered(800 + 11 * speed, 1900, 19);
        }
        HardwareFamily::V2Lite => {
            lemma_div_is_ordered(0, 200 + 19 * speed, 21);
            lemma_div_is_ordered(200 + 19 * speed, 2100, 21);
        }
        HardwareFamily::V2 => {
            lemma_div_is_ordered(0, 500 + 35 * speed, 2);
            lemma_div_is_ordered(500 + 35 * speed, 4000, 2);
            lemma_div_is_ordered(0, (500 + 35 * speed) / 2, 20);
            lemma_div_is_ordered((500 + 35 * speed) / 2, 2000, 20);
        }
    }
}

/// For every hardware family the speed scaling is monotonically
/// non-decreasing over the logical speed range.
pub proof fn lemma_speed_to_byte_monotone(family: HardwareFamily, s1: int, s2: int)
    requires
        0 <= s1 <= s2 <= 100,
    ensures
        spec_speed_to_byte(family, s1) <= spec_speed_to_byte(family, s2),
{
    match family {
        HardwareFamily::Legacy | HardwareFamily::V1 => {
            lemma_div_is_ordered(800 + 11 * s1, 800 + 11 * s2, 19);
        }
        HardwareFamily::V2Lite => {
            lemma_div_is_ordered(200 + 19 * s1, 200 + 19 * s2, 21);
        }
        HardwareFamily::V2 => {
            lemma_div_is_ordered(500 + 35 * s1, 500 + 35 * s2, 2);
            lemma_div_is_ordered((500 + 35 * s1) / 2, (500 + 35 * s2) / 2, 20);
        }
    }
}

/// Translate a logical speed percentage to the device-native speed byte.
pub fn speed_to_byte(family: HardwareFamily, speed: usize) -> (b: u8)
    requires
        speed <= 100,
    ensures
        b as int == spec_speed_to_byte(family, speed as int),
        b <= 100,
{
    proof {
        lemma_speed_to_byte_range(family, speed as int);
    }
    match family {
        HardwareFamily::Legacy | HardwareFamily::V1 => ((800 + 11 * speed) / 19) as u8,
        HardwareFamily::V2Lite => ((200 + 19 * speed) / 21) as u8,
        HardwareFamily::V2 => (((500 + 35 * speed) / 2) / 20) as u8,
    }
}

/// The control byte of a channel-select command: bit `0x10 << channel`
/// selects the channel, and bit `0x1 << channel` additionally marks PWM
/// control. Only the low eight bits reach the wire.
pub open spec fn spec_control_byte(channel: u16, pwm: bool) -> u8 {
    (((0x10u16 << channel) | (if pwm {
        0x01u16 << channel
    } else {
        0u16
    })) & 0xff) as u8
}

/// The 7-byte RGB-sync frame: report id, sub-header, family opcode, the
/// enable flag, and three reserved bytes.
pub open spec fn spec_sync_frame(family: HardwareFamily, enabled: bool) -> Seq<u8> {
    seq![
        0xe0u8,
        0x10u8,
        spec_sync_opcode(family),
        (if enabled {
            1u8
        } else {
            0u8
        }),
        0u8,
        0u8,
        0u8,
    ]
}

/// The 4-byte channel-select frame: report id, sub-header, family opcode,
/// and the control byte.
pub open spec fn spec_select_frame(family: HardwareFamily, channel: u16, pwm: bool) -> Seq<u8> {
    seq![0xe0u8, 0x10u8, spec_select_opcode(family), spec_control_byte(channel, pwm)]
}

/// The 4-byte speed frame: report id, channel register (channel + 32), a
/// zero byte, and the native speed byte.
pub open spec fn spec_speed_frame(channel: int, speed_byte: u8) -> Seq<u8> {
    seq![0xe0u8, (channel + 32) as u8, 0u8, speed_byte]
}

/// Encode the RGB-sync command for a family.
pub fn sync_frame(family: HardwareFamily, enabled: bool) -> (f: Vec<u8>)
    ensures
        f@ == spec_sync_frame(family, enabled),
{
    let opcode: u8 = match family {
        HardwareFamily::Legacy => 0x30,
        HardwareFamily::V1 => 0x41,
        HardwareFamily::V2Lite => 0x61,
        HardwareFamily::V2 => 0x61,
    };
    let mut f: Vec<u8> = Vec::new();
    f.push(0xe0);
    f.push(0x10);
    f.push(opcode);
    f.push(if enabled {
        1
    } else {
        0
    });
    f.push(0);
    f.push(0);
    f.push(0);
    proof {
        assert(f@ =~= spec_sync_frame(family, enabled));
    }
    f
}

/// Encode the channel-select command: the mode argument only decides
/// whether the PWM bit of the control byte is set.
pub fn channel_select_frame(family: HardwareFamily, channel: usize, mode: &ChannelMode) -> (f: Vec<
    u8,
>)
    requires
        channel < 8,
    ensures
        f@ == spec_select_frame(family, channel as u16, mode@ is Pwm),
{
    let opcode: u8 = match family {
        HardwareFamily::Legacy => 0x31,
        HardwareFamily::V1 => 0x42,
        HardwareFamily::V2Lite => 0x62,
        HardwareFamily::V2 => 0x62,
    };
    let pwm = match mode {
        ChannelMode::Pwm => true,
        _ => false,
    };
    let ch = channel as u16;
    let pwm_bits: u16 = if pwm {
        0x01u16 << ch
    } else {
        0u16
    };
    let control: u16 = (0x10u16 << ch) | pwm_bits;
    proof {
        assert((control & 0xff) < 256) by (bit_vector);
    }
    let control_byte = (control & 0xff) as u8;
    let mut f: Vec<u8> = Vec::new();
    f.push(0xe0);
    f.push(0x10);
    f.push(opcode);
    f.push(control_byte);
    proof {
        assert(f@ =~= spec_select_frame(family, channel as u16, mode@ is Pwm));
    }
    f
}

/// Encode the speed command for a channel from an already scaled speed byte.
pub fn speed_frame(channel: usize, speed_byte: u8) -> (f: Vec<u8>)
    requires
        channel < 8,
    ensures
        f@ == spec_speed_frame(channel as int, speed_byte),
{
    let mut f: Vec<u8> = Vec::new();
    f.push(0xe0);
    f.push((channel + 32) as u8);
    f.push(0);
    f.push(speed_byte);
    proof {
        assert(f@ =~= spec_speed_frame(channel as int, speed_byte));
    }
    f
}

} // verus!
