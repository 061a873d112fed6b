//! Command-level decisions: which device a `--slot` argument names, how a
//! device and its features are labelled, and which mouse buttons a button
//! byte reports.

use vstd::prelude::*;
use vstd::string::*;
use crate::features::{bit, feature_name, feature_name_of};
use crate::hidpp::{protocol_error, Device, Error, HIDPP_USAGE_PAGE, VENDOR_LOGITECH};
use crate::onboard::slices_equal;
use crate::text::{
    decimal, hex4, hex_spaced, hex_spaced_string, lower, lower_chars, owned, parse_radix,
    parse_radix_chars, push_decimal, push_hex4, push_str, chars_eq, law_decimal_parses_back, lemma_decimal_first_digit,
};

verus! {

/// Device numbers probed when listing: the direct device, then receiver
/// slots 1..6.
pub const DISCOVER_SLOTS: [u8; 7] = [0xFF, 1, 2, 3, 4, 5, 6];

/// Device numbers tried when no slot is given: receiver slots first, the
/// direct device last.
pub const DEFAULT_SLOTS: [u8; 7] = [1, 2, 3, 4, 5, 6, 0xFF];

/// Whether a HID interface carries HID++: Logitech's vendor-defined usage
/// page.
pub fn is_hidpp_interface(vendor_id: u16, usage_page: u16) -> (r: bool)
    ensures
        r == (vendor_id == VENDOR_LOGITECH && usage_page == HIDPP_USAGE_PAGE),
{
    vendor_id == VENDOR_LOGITECH && usage_page == HIDPP_USAGE_PAGE
}

/// One HID interface as enumeration lists it: its vendor id, usage page,
/// and the bytes of its path.
pub struct Interface {
    pub vendor_id: u16,
    pub usage_page: u16,
    pub path: Vec<u8>,
}

/// The paths of the HID++ interfaces in `list`, in the order listed, each
/// path once.
pub open spec fn hidpp_paths_of(list: Seq<Interface>) -> Seq<Seq<u8>>
    decreases list.len(),
{
    if list.len() == 0 {
        Seq::empty()
    } else {
        let prev = hidpp_paths_of(list.drop_last());
        let it = list.last();
        if it.vendor_id == VENDOR_LOGITECH && it.usage_page == HIDPP_USAGE_PAGE && !prev.contains(
            it.path@,
        ) {
            prev.push(it.path@)
        } else {
            prev
        }
    }
}

/// Whether `paths` already holds `p`.
fn holds_path(paths: &Vec<Vec<u8>>, p: &Vec<u8>) -> (r: bool)
    ensures
        r == paths@.map_values(|q: Vec<u8>| q@).contains(p@),
{
    let ghost views = paths@.map_values(|q: Vec<u8>| q@);
    let mut i: usize = 0;
    while i < paths.len()
        invariant
            i <= paths.len(),
            views == paths@.map_values(|q: Vec<u8>| q@),
            forall|j: int| 0 <= j < i ==> views[j] != p@,
        decreases paths.len() - i,
    {
        if slices_equal(paths[i].as_slice(), p.as_slice()) {
            assert(views[i as int] == p@);
            return true;
        }
        i = i + 1;
    }
    false
}

/// The HID++ interface paths among the listed interfaces: Logitech's vendor
/// usage page only, in the order listed, each path once.
pub fn hidpp_paths(list: &Vec<Interface>) -> (r: Vec<Vec<u8>>)
    ensures
        r@.map_values(|q: Vec<u8>| q@) == hidpp_paths_of(list@),
{
    let mut out: Vec<Vec<u8>> = Vec::new();
    let mut i: usize = 0;
    while i < list.len()
        invariant
            i <= list.len(),
            out@.map_values(|q: Vec<u8>| q@) == hidpp_paths_of(list@.take(i as int)),
        decreases list.len() - i,
    {
        assert(list@.take(i + 1).drop_last() =~= list@.take(i as int));
        let it = &list[i];
        if is_hidpp_interface(it.vendor_id, it.usage_page) && !holds_path(&out, &it.path) {
            let ghost before = out@;
            out.push(it.path.clone());
            assert(out@.map_values(|q: Vec<u8>| q@) =~= before.map_values(|q: Vec<u8>| q@).push(
                it.path@,
            ));
        }
        i = i + 1;
    }
    assert(list@.take(list.len() as int) =~= list@);
    out
}

/// Whether a HID interface is a Logitech mouse input (Generic Desktop /
/// Mouse), where button presses arrive.
pub fn is_mouse_interface(vendor_id: u16, usage_page: u16, usage: u16) -> (r: bool)
    ensures
        r == (vendor_id == VENDOR_LOGITECH && usage_page == 0x0001 && usage == 0x0002),
{
    vendor_id == VENDOR_LOGITECH && usage_page == 0x0001 && usage == 0x0002
}

/// How a watched mouse interface is labelled: its product string, or
/// `Logitech mouse` when it has none.
pub fn interface_label(product: Option<&str>) -> (r: String)
    ensures
        r@ == match product {
            Some(p) => if p@.len() > 0 {
                p@
            } else {
                "Logitech mouse"@
            },
            None => "Logitech mouse"@,
        },
{
    match product {
        Some(p) => if p.unicode_len() > 0 {
            owned(p)
        } else {
            owned("Logitech mouse")
        },
        None => owned("Logitech mouse"),
    }
}

/// A reachable HID++ 1.0 responder at 0xFF is the receiver itself, not a
/// device.
pub fn is_receiver(d: &Device) -> (r: bool)
    ensures
        r == (d.devnumber == 0xFF && d.protocol.tenths() < 20),
{
    d.devnumber == 0xFF && !d.protocol.is_hidpp20()
}

/// The device number a `--slot` argument names: `ff` (any case) for the
/// direct device, else a decimal number (`u8` parsing); `None` when absent
/// or unparsable, which means "first reachable device".
pub open spec fn slot_of(slot: Option<Seq<char>>) -> Option<u8> {
    match slot {
        None => None,
        Some(s) => if lower(s) == "ff"@ {
            Some(0xFFu8)
        } else {
            match parse_radix(s, 10, 256) {
                Some(v) => Some(v as u8),
                None => None,
            }
        },
    }
}

/// Pick the device number a `--slot` argument asks for.
pub fn parse_slot(slot: Option<&str>) -> (r: Option<u8>)
    ensures
        r == slot_of(
            match slot {
                Some(s) => Some(s@),
                None => None,
            },
        ),
{
    match slot {
        None => None,
        Some(s) => {
            let t = lower_chars(s);
            if chars_eq(&t, "ff") {
                return Some(0xFF);
            }
            let n = s.unicode_len();
            let mut chars: Vec<char> = Vec::new();
            let mut i: usize = 0;
            while i < n
                invariant
                    i <= n == s@.len(),
                    chars@ == s@.take(i as int),
                decreases n - i,
            {
                chars.push(s.get_char(i));
                i = i + 1;
                assert(s@.take(i as int) == s@.take(i - 1).push(s@[i - 1]));
            }
            assert(chars@.subrange(0, n as int) == s@);
            match parse_radix_chars(&chars, 0, n, 10, 256) {
                Some(v) => Some(v as u8),
                None => None,
            }
        },
    }
}

/// The device numbers to probe: the one asked for, else the default order.
pub fn probe_slots(want: Option<u8>) -> (r: Vec<u8>)
    ensures
        r@ == match want {
            Some(dn) => seq![dn],
            None => DEFAULT_SLOTS@,
        },
{
    match want {
        Some(dn) => {
            let mut v: Vec<u8> = Vec::new();
            v.push(dn);
            assert(v@ =~= seq![dn]);
            v
        },
        None => {
            let mut v: Vec<u8> = Vec::new();
            let mut i: usize = 0;
            while i < 7
                invariant
                    i <= 7,
                    v@ == DEFAULT_SLOTS@.take(i as int),
                decreases 7 - i,
            {
                v.push(DEFAULT_SLOTS[i]);
                i = i + 1;
                assert(v@ =~= DEFAULT_SLOTS@.take(i as int));
            }
            assert(v@ =~= DEFAULT_SLOTS@);
            v
        },
    }
}

/// Whether a device that answered is the one to act on: any device at an
/// explicitly requested slot; otherwise a real device, not the receiver.
pub fn selects(want: Option<u8>, d: &Device) -> (r: bool)
    ensures
        r == (want is Some || !(d.devnumber == 0xFF && d.protocol.tenths() < 20)),
{
    want.is_some() || !is_receiver(d)
}

/// The error when no device answers: at the slot asked for, or anywhere.
pub fn no_device_error(want: Option<u8>) -> (e: Error)
    ensures
        match want {
            Some(dn) => e matches Error::Protocol(m) && m@ == "no device reachable at slot "@
                + decimal(dn as nat),
            None => e matches Error::Protocol(m) && m@ == "no reachable Logitech HID++ device found"@,
        },
{
    match want {
        Some(dn) => {
            let mut m = String::new();
            push_str(&mut m, "no device reachable at slot ");
            push_decimal(&mut m, dn as u64);
            Error::Protocol(m)
        },
        None => protocol_error("no reachable Logitech HID++ device found"),
    }
}

/// How a device number is shown: `direct` or `slot N`.
pub open spec fn slot_label_of(devnumber: u8) -> Seq<char> {
    if devnumber == 0xFF {
        "direct"@
    } else {
        "slot "@ + decimal(devnumber as nat)
    }
}

/// How a device number is shown.
pub fn slot_label(devnumber: u8) -> (r: String)
    ensures
        r@ == slot_label_of(devnumber),
{
    if devnumber == 0xFF {
        owned("direct")
    } else {
        let mut s = String::new();
        push_str(&mut s, "slot ");
        push_decimal(&mut s, devnumber as u64);
        s
    }
}

/// How a feature id is shown: its name, or `unknown:XXXX`.
pub open spec fn feature_label_of(fid: u16) -> Seq<char> {
    if feature_name_of(fid).len() == 0 {
        "unknown:"@ + hex4(fid)
    } else {
        feature_name_of(fid)
    }
}

/// How a feature id is shown.
pub fn feature_label(fid: u16) -> (r: String)
    ensures
        r@ == feature_label_of(fid),
{
    let name = feature_name(fid);
    if name.unicode_len() == 0 {
        let mut s = String::new();
        push_str(&mut s, "unknown:");
        push_hex4(&mut s, fid);
        s
    } else {
        owned(name)
    }
}

/// `[name]` when `on`, else nothing.
pub open spec fn name_if(on: bool, name: Seq<char>) -> Seq<Seq<char>> {
    if on {
        seq![name]
    } else {
        Seq::empty()
    }
}

/// The buttons a button byte reports pressed, in bit order (standard HID
/// order: bit 0 Left, 1 Right, 2 Middle, 3 Back, 4 Forward, 5..7 Button6..8).
pub open spec fn pressed_names(mask: u8) -> Seq<Seq<char>> {
    name_if(bit(mask, 0), "Left"@) + name_if(bit(mask, 1), "Right"@) + name_if(bit(mask, 2), "Middle"@)
        + name_if(bit(mask, 3), "Back"@) + name_if(bit(mask, 4), "Forward"@) + name_if(
        bit(mask, 5),
        "Button6"@,
    ) + name_if(bit(mask, 6), "Button7"@) + name_if(bit(mask, 7), "Button8"@)
}

fn push_if(v: &mut Vec<String>, on: bool, name: &str)
    ensures
        final(v)@.map_values(|s: String| s@) == old(v)@.map_values(|s: String| s@) + name_if(
            on,
            name@,
        ),
{
    if on {
        let ghost before = v@;
        v.push(owned(name));
        assert(v@.map_values(|s: String| s@) =~= before.map_values(|s: String| s@) + seq![name@]);
    } else {
        assert(v@.map_values(|s: String| s@) =~= v@.map_values(|s: String| s@) + Seq::<
            Seq<char>,
        >::empty());
    }
}

/// The buttons a button byte reports pressed.
pub fn decode_buttons(mask: u8) -> (r: Vec<String>)
    ensures
        r@.map_values(|s: String| s@) == pressed_names(mask),
{
    proof {
        vstd::arithmetic::power2::lemma2_to64();
    }
    let mut v: Vec<String> = Vec::new();
    assert(v@.map_values(|s: String| s@) =~= Seq::<Seq<char>>::empty());
    push_if(&mut v, mask % 2 == 1, "Left");
    push_if(&mut v, (mask / 2) % 2 == 1, "Right");
    push_if(&mut v, (mask / 4) % 2 == 1, "Middle");
    push_if(&mut v, (mask / 8) % 2 == 1, "Back");
    push_if(&mut v, (mask / 16) % 2 == 1, "Forward");
    push_if(&mut v, (mask / 32) % 2 == 1, "Button6");
    push_if(&mut v, (mask / 64) % 2 == 1, "Button7");
    push_if(&mut v, (mask / 128) % 2 == 1, "Button8");
    v
}

/// Bytes as hex pairs separated by spaces, as the raw report dump shows
/// them.
pub fn hex(b: &[u8]) -> (r: String)
    ensures
        r@ == hex_spaced(b@),
{
    hex_spaced_string(b)
}


/// The number in a device's `slot N` label, given back as `--slot N`,
/// selects that device again.
pub proof fn law_slot_label_selects_device(devnumber: u8)
    requires
        devnumber != 0xFF,
    ensures
        slot_label_of(devnumber) == "slot "@ + decimal(devnumber as nat),
        slot_of(Some(decimal(devnumber as nat))) == Some(devnumber),
{
    law_decimal_parses_back(devnumber as nat, 256);
    let d = decimal(devnumber as nat);
    assert(lower(d) != "ff"@) by {
        reveal_strlit("ff");
        lemma_decimal_first_digit(devnumber as nat);
        if lower(d) == "ff"@ {
            assert(lower(d)[0] == 'f');
        }
    }
}

/// `--slot ff` in any case selects the direct device.
pub proof fn law_ff_selects_direct(s: Seq<char>)
    requires
        lower(s) == "ff"@,
    ensures
        slot_of(Some(s)) == Some(0xFFu8),
{
}

/// The names of the set bits among the first `k` of `mask`, lowest first,
/// bit `j` named `names[j]`.
pub open spec fn set_bit_names(mask: u8, names: Seq<Seq<char>>, k: nat) -> Seq<Seq<char>>
    decreases k,
{
    if k == 0 {
        Seq::empty()
    } else {
        set_bit_names(mask, names, (k - 1) as nat) + if (mask as int / vstd::arithmetic::power2::pow2(
            (k - 1) as nat,
        ) as int) % 2 == 1 {
            seq![names[k - 1]]
        } else {
            Seq::<Seq<char>>::empty()
        }
    }
}

/// The standard HID button order: bit 0 Left, 1 Right, 2 Middle, 3 Back,
/// 4 Forward, 5..7 Button6..8.
pub open spec fn hid_button_order() -> Seq<Seq<char>> {
    seq!["Left"@, "Right"@, "Middle"@, "Back"@, "Forward"@, "Button6"@, "Button7"@, "Button8"@]
}

/// A button byte reports, lowest bit first, exactly the buttons whose bits
/// are set, bit `k` named by the `k`-th name of the standard HID order; the
/// eight names are distinct, so different bits never read as the same
/// button. In particular a byte with one bit `k` set reports that one name.
pub proof fn law_pressed_names_follow_hid_order(mask: u8, k: nat)
    ensures
        pressed_names(mask) == set_bit_names(mask, hid_button_order(), 8),
        forall|i: int, j: int|
            0 <= i < j < 8 ==> #[trigger] hid_button_order()[i] != #[trigger] hid_button_order()[j],
        k < 8 ==> pressed_names((vstd::arithmetic::power2::pow2(k) as int) as u8) == seq![
            hid_button_order()[k as int],
        ],
{
    reveal_with_fuel(set_bit_names, 9);
    vstd::arithmetic::power2::lemma2_to64();
    reveal_strlit("Left");
    reveal_strlit("Right");
    reveal_strlit("Middle");
    reveal_strlit("Back");
    reveal_strlit("Forward");
    reveal_strlit("Button6");
    reveal_strlit("Button7");
    reveal_strlit("Button8");
    let n = hid_button_order();
    assert(pressed_names(mask) =~= set_bit_names(mask, n, 8));
    assert forall|i: int, j: int| 0 <= i < j < 8 implies #[trigger] n[i] != #[trigger] n[j] by {
        if n[i] == n[j] {
            assert(n[i].len() == n[j].len());
            assert(n[i][0] == n[j][0]);
            if n[i].len() == 7 && n[i][0] == 'B' {
                assert(n[i][6] == n[j][6]);
            }
        }
    }
    if k < 8 {
        let m = (vstd::arithmetic::power2::pow2(k) as int) as u8;
        assert(pressed_names(m) =~= seq![n[k as int]]) by {
            if k == 0 { assert(m == 1); }
            if k == 1 { assert(m == 2); }
            if k == 2 { assert(m == 4); }
            if k == 3 { assert(m == 8); }
            if k == 4 { assert(m == 16); }
            if k == 5 { assert(m == 32); }
            if k == 6 { assert(m == 64); }
            if k == 7 { assert(m == 128); }
        }
    }
}

} // verus!
