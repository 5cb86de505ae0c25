use vstd::prelude::*;
use vstd::arithmetic::div_mod::lemma_fundamental_div_mod;
use crate::codec::{HardwareFamily, family_for_product, spec_family_for_product};

verus! {

/// The decimal digit character for a value below ten.
pub open spec fn digit_char(d: nat) -> char {
    if d == 0 {
        '0'
    } else if d == 1 {
        '1'
    } else if d == 2 {
        '2'
    } else if d == 3 {
        '3'
    } else if d == 4 {
        '4'
    } else if d == 5 {
        '5'
    } else if d == 6 {
        '6'
    } else if d == 7 {
        '7'
    } else if d == 8 {
        '8'
    } else {
        '9'
    }
}

pub open spec fn is_digit_char(c: char) -> bool {
    48 <= c as u32 <= 57
}

/// The decimal rendering of a number, most significant digit first.
pub open spec fn dec_seq(n: nat) -> Seq<char>
    decreases n,
{
    if n < 10 {
        seq![digit_char(n)]
    } else {
        dec_seq(n / 10).push(digit_char(n % 10))
    }
}

/// The code point of a digit character determines the digit.
pub proof fn lemma_digit_char_code(d: nat)
    requires
        d < 10,
    ensures
        digit_char(d) as u32 == 48 + d,
{
}

/// A decimal rendering is never empty and holds digit characters only.
pub proof fn lemma_dec_seq_digits(n: nat)
    ensures
        dec_seq(n).len() >= 1,
        forall|i: int| 0 <= i < dec_seq(n).len() ==> is_digit_char(#[trigger] dec_seq(n)[i]),
    decreases n,
{
    if n >= 10 {
        lemma_dec_seq_digits(n / 10);
    }
}

/// Distinct numbers have distinct decimal renderings.
pub proof fn lemma_dec_seq_injective(a: nat, b: nat)
    requires
        dec_seq(a) == dec_seq(b),
    ensures
        a == b,
    decreases a,
{
    lemma_dec_seq_digits(a);
    lemma_dec_seq_digits(b);
    if a < 10 && b < 10 {
        assert(dec_seq(a) == seq![digit_char(a)]);
        assert(dec_seq(b) == seq![digit_char(b)]);
        assert(seq![digit_char(a)][0] == digit_char(a));
        assert(seq![digit_char(b)][0] == digit_char(b));
        assert(digit_char(a) == digit_char(b));
        lemma_digit_char_code(a);
        lemma_digit_char_code(b);
        assert(a == b);
    } else if a < 10 && b >= 10 {
        lemma_dec_seq_digits(b / 10);
        assert(dec_seq(b).len() >= 2);
    } else if a >= 10 && b < 10 {
        lemma_dec_seq_digits(a / 10);
        assert(dec_seq(a).len() >= 2);
    } else {
        let da = digit_char((a % 10) as nat);
        let db = digit_char((b % 10) as nat);
        assert(dec_seq(a) == dec_seq(a / 10).push(da));
        assert(dec_seq(b) == dec_seq(b / 10).push(db));
        assert(dec_seq(a / 10).push(da).last() == da);
        assert(dec_seq(b / 10).push(db).last() == db);
        assert(da == db);
        lemma_digit_char_code((a % 10) as nat);
        lemma_digit_char_code((b % 10) as nat);
        assert(a % 10 == b % 10);
        assert(dec_seq(a / 10).push(da).drop_last() =~= dec_seq(a / 10));
        assert(dec_seq(b / 10).push(db).drop_last() =~= dec_seq(b / 10));
        assert(dec_seq(a / 10) == dec_seq(b / 10));
        lemma_dec_seq_injective(a / 10, b / 10);
        lemma_fundamental_div_mod(a as int, 10);
        lemma_fundamental_div_mod(b as int, 10);
        assert(a == b);
    }
}

/// The canonical persistence key for a device: its vendor id and product id
/// in decimal and its serial number, in the form "VID:v/PID:p/SN:serial".
pub open spec fn spec_device_id(vendor_id: u16, product_id: u16, serial: Seq<char>) -> Seq<char> {
    "VID:"@ + dec_seq(vendor_id as nat) + "/PID:"@ + dec_seq(product_id as nat) + "/SN:"@ + serial
}

proof fn lemma_seq_prefix_cancel(p: Seq<char>, x: Seq<char>, y: Seq<char>)
    requires
        p + x == p + y,
    ensures
        x == y,
{
    assert((p + x).len() == p.len() + x.len());
    assert((p + y).len() == p.len() + y.len());
    assert(x.len() == y.len());
    assert forall|i: int| 0 <= i < x.len() implies x[i] == y[i] by {
        assert(0 <= i < y.len());
        assert((p + x)[p.len() + i] == x[i]);
        assert((p + y)[p.len() + i] == y[i]);
    }
    assert(x =~= y);
}

/// Two strings of digits followed by a slash separator and a tail can only
/// be equal segment by segment: the slash cannot occur among the digits.
proof fn lemma_digits_separator(d1: Seq<char>, t1: Seq<char>, d2: Seq<char>, t2: Seq<char>)
    requires
        forall|i: int| 0 <= i < d1.len() ==> is_digit_char(#[trigger] d1[i]),
        forall|i: int| 0 <= i < d2.len() ==> is_digit_char(#[trigger] d2[i]),
        d1 + (seq!['/'] + t1) == d2 + (seq!['/'] + t2),
    ensures
        d1 == d2,
        t1 == t2,
{
    let l = d1 + (seq!['/'] + t1);
    let r = d2 + (seq!['/'] + t2);
    assert(l.len() == r.len());
    if d1.len() < d2.len() {
        let i = d1.len() as int;
        assert(l[i] == (seq!['/'] + t1)[0]);
        assert(l[i] == '/');
        assert(r[i] == d2[i]);
        assert(is_digit_char(l[i]));
        assert(('/' as u32) == 47);
        assert(false);
    } else if d2.len() < d1.len() {
        let i = d2.len() as int;
        assert(r[i] == (seq!['/'] + t2)[0]);
        assert(r[i] == '/');
        assert(l[i] == d1[i]);
        assert(is_digit_char(r[i]));
        assert(('/' as u32) == 47);
        assert(false);
    } else {
        assert forall|i: int| 0 <= i < d1.len() implies d1[i] == d2[i] by {
            assert(l[i] == d1[i]);
            assert(r[i] == d2[i]);
        }
        assert(d1 =~= d2);
        assert forall|j: int| 0 <= j < t1.len() implies t1[j] == t2[j] by {
            assert(l[d1.len() + 1 + j] == t1[j]);
            assert(r[d2.len() + 1 + j] == t2[j]);
        }
        assert(t1 =~= t2);
    }
}

/// Identity derivation is injective: two devices receive the same id only
/// when vendor id, product id and serial number all agree.
pub proof fn lemma_device_id_injective(
    v1: u16,
    p1: u16,
    s1: Seq<char>,
    v2: u16,
    p2: u16,
    s2: Seq<char>,
)
    requires
        spec_device_id(v1, p1, s1) == spec_device_id(v2, p2, s2),
    ensures
        v1 == v2,
        p1 == p2,
        s1 == s2,
{
    reveal_strlit("VID:");
    reveal_strlit("/PID:");
    reveal_strlit("/SN:");
    reveal_strlit("PID:");
    reveal_strlit("SN:");
    lemma_dec_seq_digits(v1 as nat);
    lemma_dec_seq_digits(v2 as nat);
    lemma_dec_seq_digits(p1 as nat);
    lemma_dec_seq_digits(p2 as nat);
    let tail1 = "PID:"@ + (dec_seq(p1 as nat) + (seq!['/'] + ("SN:"@ + s1)));
    let tail2 = "PID:"@ + (dec_seq(p2 as nat) + (seq!['/'] + ("SN:"@ + s2)));
    assert(spec_device_id(v1, p1, s1) =~= "VID:"@ + (dec_seq(v1 as nat) + (seq!['/'] + tail1)));
    assert(spec_device_id(v2, p2, s2) =~= "VID:"@ + (dec_seq(v2 as nat) + (seq!['/'] + tail2)));
    lemma_seq_prefix_cancel(
        "VID:"@,
        dec_seq(v1 as nat) + (seq!['/'] + tail1),
        dec_seq(v2 as nat) + (seq!['/'] + tail2),
    );
    lemma_digits_separator(dec_seq(v1 as nat), tail1, dec_seq(v2 as nat), tail2);
    lemma_dec_seq_injective(v1 as nat, v2 as nat);
    lemma_seq_prefix_cancel(
        "PID:"@,
        dec_seq(p1 as nat) + (seq!['/'] + ("SN:"@ + s1)),
        dec_seq(p2 as nat) + (seq!['/'] + ("SN:"@ + s2)),
    );
    lemma_digits_separator(
        dec_seq(p1 as nat),
        "SN:"@ + s1,
        dec_seq(p2 as nat),
        "SN:"@ + s2,
    );
    lemma_dec_seq_injective(p1 as nat, p2 as nat);
    lemma_seq_prefix_cancel("SN:"@, s1, s2);
}

/// Append the decimal rendering of a number to a string.
fn push_decimal(s: &mut String, n: u16)
    ensures
        final(s)@ == old(s)@ + dec_seq(n as nat),
    decreases n,
{
    if n >= 10 {
        push_decimal(s, n / 10);
    }
    let d: u16 = n % 10;
    match d {
        0 => s.append("0"),
        1 => s.append("1"),
        2 => s.append("2"),
        3 => s.append("3"),
        4 => s.append("4"),
        5 => s.append("5"),
        6 => s.append("6"),
        7 => s.append("7"),
        8 => s.append("8"),
        _ => s.append("9"),
    }
    proof {
        reveal_strlit("0");
        reveal_strlit("1");
        reveal_strlit("2");
        reveal_strlit("3");
        reveal_strlit("4");
        reveal_strlit("5");
        reveal_strlit("6");
        reveal_strlit("7");
        reveal_strlit("8");
        reveal_strlit("9");
        assert(s@ =~= old(s)@ + dec_seq(n as nat));
    }
}

/// A raw bus enumeration record, as handed in from the process's device
/// scan: the vendor id, the product id, and the serial number if the bus
/// reported one.
pub struct BusDevice {
    pub vendor_id: u16,
    pub product_id: u16,
    pub serial: Option<String>,
}

/// Mathematical model of a `BusDevice`.
#[verifier::ext_equal]
pub struct BusDeviceView {
    pub vendor_id: u16,
    pub product_id: u16,
    pub serial: Option<Seq<char>>,
}

impl View for BusDevice {
    type V = BusDeviceView;

    open spec fn view(&self) -> BusDeviceView {
        BusDeviceView {
            vendor_id: self.vendor_id,
            product_id: self.product_id,
            serial: match self.serial {
                Option::Some(s) => Option::Some(s@),
                Option::None => Option::None,
            },
        }
    }
}

pub open spec fn spec_supported_vendor(vendor_id: u16) -> bool {
    vendor_id == 0x0cf2
}

pub open spec fn spec_supported_product(product_id: u16) -> bool {
    product_id == 0x7750 || product_id == 0xa100 || product_id == 0xa101 || product_id == 0xa102
        || product_id == 0xa103 || product_id == 0xa104 || product_id == 0xa105
}

/// A record passes identity resolution when both ids are supported and the
/// bus reported a serial number. A missing serial skips that one device,
/// never the whole pass.
pub open spec fn spec_accepted(r: BusDeviceView) -> bool {
    spec_supported_vendor(r.vendor_id) && spec_supported_product(r.product_id) && r.serial is Some
}

/// Is this vendor id in the supported vendor set?
pub fn supported_vendor(vendor_id: u16) -> (r: bool)
    ensures
        r == spec_supported_vendor(vendor_id),
{
    vendor_id == 0x0cf2
}

/// Is this product id in the supported product set?
pub fn supported_product(product_id: u16) -> (r: bool)
    ensures
        r == spec_supported_product(product_id),
{
    product_id == 0x7750 || product_id == 0xa100 || product_id == 0xa101 || product_id == 0xa102
        || product_id == 0xa103 || product_id == 0xa104 || product_id == 0xa105
}

/// A supported device paired with its derived identity: `index` is the
/// position of the record in the enumeration it came from, so the caller
/// can find the matching bus handle again.
pub struct ResolvedDevice {
    pub index: usize,
    pub vendor_id: u16,
    pub product_id: u16,
    pub serial: String,
    pub device_id: String,
    pub family: HardwareFamily,
}

/// Mathematical model of a `ResolvedDevice`.
#[verifier::ext_equal]
pub struct ResolvedDeviceView {
    pub index: usize,
    pub vendor_id: u16,
    pub product_id: u16,
    pub serial: Seq<char>,
    pub device_id: Seq<char>,
    pub family: HardwareFamily,
}

impl View for ResolvedDevice {
    type V = ResolvedDeviceView;

    open spec fn view(&self) -> ResolvedDeviceView {
        ResolvedDeviceView {
            index: self.index,
            vendor_id: self.vendor_id,
            product_id: self.product_id,
            serial: self.serial@,
            device_id: self.device_id@,
            family: self.family,
        }
    }
}

/// The identity an accepted record resolves to.
pub open spec fn spec_resolved_of(i: int, r: BusDeviceView) -> ResolvedDeviceView {
    ResolvedDeviceView {
        index: i as usize,
        vendor_id: r.vendor_id,
        product_id: r.product_id,
        serial: r.serial->Some_0,
        device_id: spec_device_id(r.vendor_id, r.product_id, r.serial->Some_0),
        family: spec_family_for_product(r.product_id),
    }
}

/// The subsequence of accepted records, each paired with its identity, in
/// enumeration order.
pub open spec fn spec_resolve(rs: Seq<BusDeviceView>) -> Seq<ResolvedDeviceView>
    decreases rs.len(),
{
    if rs.len() == 0 {
        Seq::empty()
    } else if spec_accepted(rs.last()) {
        spec_resolve(rs.drop_last()).push(spec_resolved_of(rs.len() - 1, rs.last()))
    } else {
        spec_resolve(rs.drop_last())
    }
}

pub open spec fn bus_views(rs: Seq<BusDevice>) -> Seq<BusDeviceView> {
    rs.map_values(|r: BusDevice| r@)
}

pub open spec fn resolved_views(rs: Seq<ResolvedDevice>) -> Seq<ResolvedDeviceView> {
    rs.map_values(|r: ResolvedDevice| r@)
}

/// Filter a full bus enumeration down to the supported devices and derive
/// each one's stable identity.
pub fn resolve_devices(records: &Vec<BusDevice>) -> (out: Vec<ResolvedDevice>)
    ensures
        resolved_views(out@) == spec_resolve(bus_views(records@)),
{
    let mut out: Vec<ResolvedDevice> = Vec::new();
    let mut i: usize = 0;
    while i < records.len()
        invariant
            i <= records@.len(),
            resolved_views(out@) == spec_resolve(bus_views(records@.subrange(0, i as int))),
        decreases records@.len() - i,
    {
        let r = &records[i];
        let accepted = supported_vendor(r.vendor_id) && supported_product(r.product_id)
            && r.serial.is_some();
        if accepted {
            let serial: &String = match &r.serial {
                Option::Some(s) => s,
                Option::None => unreached(),
            };
            let device_id = device_id_string(r.vendor_id, r.product_id, serial.as_str());
            let resolved = ResolvedDevice {
                index: i,
                vendor_id: r.vendor_id,
                product_id: r.product_id,
                serial: serial.clone(),
                device_id,
                family: family_for_product(r.product_id),
            };
            proof {
                assert(resolved@ =~= spec_resolved_of(i as int, records@[i as int]@));
            }
            out.push(resolved);
        }
        proof {
            let pre = bus_views(records@.subrange(0, i as int));
            let cur = bus_views(records@.subrange(0, i + 1));
            assert(cur.drop_last() =~= pre);
            assert(cur.last() == records@[i as int]@);
            assert(resolved_views(out@) =~= spec_resolve(cur));
        }
        i = i + 1;
    }
    proof {
        assert(records@.subrange(0, records@.len() as int) =~= records@);
    }
    out
}

/// Derive the canonical device id for a vendor id, product id and serial.
pub fn device_id_string(vendor_id: u16, product_id: u16, serial: &str) -> (r: String)
    ensures
        r@ == spec_device_id(vendor_id, product_id, serial@),
{
    let mut s = String::new();
    s.append("VID:");
    push_decimal(&mut s, vendor_id);
    s.append("/PID:");
    push_decimal(&mut s, product_id);
    s.append("/SN:");
    s.append(serial);
    proof {
        assert(s@ =~= spec_device_id(vendor_id, product_id, serial@));
    }
    s
}

} // verus!
