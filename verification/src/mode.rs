use vstd::prelude::*;

verus! {

/// A channel's operating mode, as recorded in the configuration file.
///
/// The configuration file stores the mode as an open string; the recognized
/// values are exactly "Manual", "PWM" and "fan-curve". `Unknown` preserves an
/// unrecognized mode string verbatim so that saving the configuration never
/// discards operator input; such a channel is inert (no speed write).
pub enum ChannelMode {
    Manual,
    Pwm,
    FanCurve,
    Unknown(String),
}

/// Mathematical model of a `ChannelMode`: the `Unknown` payload is a
/// character sequence instead of a `String`.
pub enum ModeView {
    Manual,
    Pwm,
    FanCurve,
    Unknown(Seq<char>),
}

impl View for ChannelMode {
    type V = ModeView;

    open spec fn view(&self) -> ModeView {
        match self {
            ChannelMode::Manual => ModeView::Manual,
            ChannelMode::Pwm => ModeView::Pwm,
            ChannelMode::FanCurve => ModeView::FanCurve,
            ChannelMode::Unknown(s) => ModeView::Unknown(s@),
        }
    }
}

pub open spec fn manual_str() -> Seq<char> {
    "Manual"@
}

pub open spec fn pwm_str() -> Seq<char> {
    "PWM"@
}

pub open spec fn fan_curve_str() -> Seq<char> {
    "fan-curve"@
}

/// How a mode string is classified when the configuration is read.
pub open spec fn spec_parse_mode(s: Seq<char>) -> ModeView {
    if s == manual_str() {
        ModeView::Manual
    } else if s == pwm_str() {
        ModeView::Pwm
    } else if s == fan_curve_str() {
        ModeView::FanCurve
    } else {
        ModeView::Unknown(s)
    }
}

/// The string form of a mode: the canonical spelling for the three
/// recognized modes, the preserved original string otherwise.
pub open spec fn spec_mode_string(m: ModeView) -> Seq<char> {
    match m {
        ModeView::Manual => manual_str(),
        ModeView::Pwm => pwm_str(),
        ModeView::FanCurve => fan_curve_str(),
        ModeView::Unknown(s) => s,
    }
}

/// An `Unknown` payload never shadows a recognized spelling.
pub open spec fn mode_view_wf(m: ModeView) -> bool {
    match m {
        ModeView::Unknown(s) => s != manual_str() && s != pwm_str() && s != fan_curve_str(),
        _ => true,
    }
}

/// Rendering a parsed mode string yields the original string back,
/// unrecognized spellings included: the mode string round-trips verbatim.
pub proof fn lemma_mode_string_round_trip(s: Seq<char>)
    ensures
        spec_mode_string(spec_parse_mode(s)) == s,
        mode_view_wf(spec_parse_mode(s)),
{
}

/// Parsing a rendered mode yields the same mode back, for every mode whose
/// `Unknown` payload is not one of the recognized spellings.
pub proof fn lemma_mode_parse_render(m: ModeView)
    requires
        mode_view_wf(m),
    ensures
        spec_parse_mode(spec_mode_string(m)) == m,
{
    lemma_mode_strings_distinct();
}

/// The three recognized mode spellings are pairwise distinct.
pub proof fn lemma_mode_strings_distinct()
    ensures
        manual_str() != pwm_str(),
        manual_str() != fan_curve_str(),
        pwm_str() != fan_curve_str(),
{
    reveal_strlit("Manual");
    reveal_strlit("PWM");
    reveal_strlit("fan-curve");
    assert(manual_str().len() == 6);
    assert(pwm_str().len() == 3);
    assert(fan_curve_str().len() == 9);
}

fn string_eq_literal(s: &String, lit: &str) -> (r: bool)
    ensures
        r == (s@ == lit@),
{
    let t = String::from_str(lit);
    *s == t
}

/// Classify a mode string from the configuration file.
pub fn parse_mode(s: &String) -> (m: ChannelMode)
    ensures
        m@ == spec_parse_mode(s@),
{
    if string_eq_literal(s, "Manual") {
        ChannelMode::Manual
    } else if string_eq_literal(s, "PWM") {
        ChannelMode::Pwm
    } else if string_eq_literal(s, "fan-curve") {
        ChannelMode::FanCurve
    } else {
        ChannelMode::Unknown(s.clone())
    }
}

/// Render a mode back to its configuration-file string.
pub fn mode_string(m: &ChannelMode) -> (r: String)
    ensures
        r@ == spec_mode_string(m@),
{
    match m {
        ChannelMode::Manual => String::from_str("Manual"),
        ChannelMode::Pwm => String::from_str("PWM"),
        ChannelMode::FanCurve => String::from_str("fan-curve"),
        ChannelMode::Unknown(s) => s.clone(),
    }
}

} // verus!
