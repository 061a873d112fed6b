//! Onboard-profile button specs: 4 bytes per button. The high nibble of byte
//! 0 is the behavior: 0x8 sends something (byte 1: 0 nothing, 1 mouse
//! buttons, 2 modifier + key, 3 consumer code), 0x9 runs a device function
//! (byte 1), 0x0..0x2 run macros. `FF FF FF FF` disables the button.

use vstd::prelude::*;
use vstd::string::*;
use crate::crc::be16_of;
use crate::text::{
    chars_eq, chars_start_with, decimal, digit_value, digit_value_of, hex2, hex4, hex_list,
    hex_list_string, is_hex_digit, is_ws, law_hex2_parses_back, law_hex4_parses_back,
    lemma_lower_concat, lemma_without_ws_none, lower, lower_chars, owned, parse_radix,
    parse_radix_chars, push_char, push_decimal, push_hex2, push_hex4, push_str, raw_byte,
    without_ws,
};

verus! {

/// The spec that disables a button.
pub open spec fn disabled_spec() -> Seq<u8> {
    seq![0xFFu8, 0xFFu8, 0xFFu8, 0xFFu8]
}

/// Name of a mouse-button mask.
pub open spec fn mouse_button_name_of(mask: u16) -> Seq<char> {
    match mask {
        0x0001 => "Left click"@,
        0x0002 => "Right click"@,
        0x0004 => "Middle click"@,
        0x0008 => "Back"@,
        0x0010 => "Forward"@,
        0x0020 => "Button 6"@,
        0x0040 => "Button 7"@,
        0x0080 => "Button 8"@,
        _ => "mouse mask 0x"@ + hex4(mask),
    }
}

/// Mouse-button mask -> name.
pub fn mouse_button_name(mask: u16) -> (r: String)
    ensures
        r@ == mouse_button_name_of(mask),
{
    let mut s = String::new();
    match mask {
        0x0001 => push_str(&mut s, "Left click"),
        0x0002 => push_str(&mut s, "Right click"),
        0x0004 => push_str(&mut s, "Middle click"),
        0x0008 => push_str(&mut s, "Back"),
        0x0010 => push_str(&mut s, "Forward"),
        0x0020 => push_str(&mut s, "Button 6"),
        0x0040 => push_str(&mut s, "Button 7"),
        0x0080 => push_str(&mut s, "Button 8"),
        _ => {
            push_str(&mut s, "mouse mask 0x");
            push_hex4(&mut s, mask);
        },
    }
    s
}

/// Name of a device function (behavior 0x9).
pub open spec fn function_name_of(f: u8) -> Seq<char> {
    match f {
        0x0 => "no action"@,
        0x1 => "tilt left"@,
        0x2 => "tilt right"@,
        0x3 => "next DPI"@,
        0x4 => "previous DPI"@,
        0x5 => "cycle DPI"@,
        0x6 => "default DPI"@,
        0x7 => "shift DPI"@,
        0x8 => "next profile"@,
        0x9 => "previous profile"@,
        0xA => "cycle profile"@,
        0xB => "G-shift"@,
        0xC => "battery status"@,
        0xD => "profile select"@,
        0xE => "mode switch"@,
        0xF => "host button"@,
        0x10 => "scroll down"@,
        0x11 => "scroll up"@,
        _ => "function?"@,
    }
}

/// Device function code -> name.
pub fn function_name(f: u8) -> (r: &'static str)
    ensures
        r@ == function_name_of(f),
{
    match f {
        0x0 => "no action",
        0x1 => "tilt left",
        0x2 => "tilt right",
        0x3 => "next DPI",
        0x4 => "previous DPI",
        0x5 => "cycle DPI",
        0x6 => "default DPI",
        0x7 => "shift DPI",
        0x8 => "next profile",
        0x9 => "previous profile",
        0xA => "cycle profile",
        0xB => "G-shift",
        0xC => "battery status",
        0xD => "profile select",
        0xE => "mode switch",
        0xF => "host button",
        0x10 => "scroll down",
        0x11 => "scroll up",
        _ => "function?",
    }
}

/// Human-readable description of a 4-byte button spec.
pub open spec fn button_text(b: Seq<u8>) -> Seq<char>
    recommends
        b.len() == 4,
{
    let behavior = b[0] / 16;
    if b == disabled_spec() {
        "disabled"@
    } else if behavior == 8 {
        if b[1] == 0 {
            "no action"@
        } else if b[1] == 1 {
            mouse_button_name_of(be16_of(b[2], b[3]))
        } else if b[1] == 2 {
            if b[2] == 0x08 && b[3] == 0x2F {
                "Cmd+[ (browser Back)"@
            } else if b[2] == 0x08 && b[3] == 0x30 {
                "Cmd+] (browser Forward)"@
            } else {
                "key 0x"@ + hex2(b[3]) + " (modifiers 0x"@ + hex2(b[2]) + ")"@
            }
        } else if b[1] == 3 {
            let c = be16_of(b[2], b[3]);
            if c == 0x0224 {
                "AC Back (consumer)"@
            } else if c == 0x0225 {
                "AC Forward (consumer)"@
            } else {
                "consumer 0x"@ + hex4(c)
            }
        } else {
            "send? "@ + hex_list(b)
        }
    } else if behavior == 9 {
        function_name_of(b[1])
    } else if behavior <= 2 {
        "macro (behavior "@ + decimal(behavior as nat) + ")"@
    } else {
        "raw "@ + hex_list(b)
    }
}

/// Human-readable description of a 4-byte button spec.
pub fn decode_button(spec: &[u8]) -> (r: String)
    requires
        spec.len() == 4,
    ensures
        r@ == button_text(spec@),
{
    let mut s = String::new();
    if spec[0] == 0xFF && spec[1] == 0xFF && spec[2] == 0xFF && spec[3] == 0xFF {
        assert(spec@ =~= disabled_spec());
        push_str(&mut s, "disabled");
        return s;
    }
    assert(spec@ != disabled_spec()) by {
        if spec@ == disabled_spec() {
            assert(spec@[0] == 0xFF && spec@[1] == 0xFF && spec@[2] == 0xFF && spec@[3] == 0xFF);
        }
    }
    let behavior = spec[0] / 16;
    if behavior == 8 {
        if spec[1] == 0 {
            push_str(&mut s, "no action");
        } else if spec[1] == 1 {
            let m = mouse_button_name((spec[2] as u16) * 256 + (spec[3] as u16));
            push_str(&mut s, m.as_str());
        } else if spec[1] == 2 {
            let mods = spec[2];
            let code = spec[3];
            if mods == 0x08 && code == 0x2F {
                push_str(&mut s, "Cmd+[ (browser Back)");
            } else if mods == 0x08 && code == 0x30 {
                push_str(&mut s, "Cmd+] (browser Forward)");
            } else {
                push_str(&mut s, "key 0x");
                push_hex2(&mut s, code);
                push_str(&mut s, " (modifiers 0x");
                push_hex2(&mut s, mods);
                push_str(&mut s, ")");
            }
        } else if spec[1] == 3 {
            let c = (spec[2] as u16) * 256 + (spec[3] as u16);
            if c == 0x0224 {
                push_str(&mut s, "AC Back (consumer)");
            } else if c == 0x0225 {
                push_str(&mut s, "AC Forward (consumer)");
            } else {
                push_str(&mut s, "consumer 0x");
                push_hex4(&mut s, c);
            }
        } else {
            push_str(&mut s, "send? ");
            let l = hex_list_string(spec);
            push_str(&mut s, l.as_str());
        }
    } else if behavior == 9 {
        push_str(&mut s, function_name(spec[1]));
    } else if behavior <= 2 {
        push_str(&mut s, "macro (behavior ");
        push_decimal(&mut s, behavior as u64);
        push_str(&mut s, ")");
    } else {
        push_str(&mut s, "raw ");
        let l = hex_list_string(spec);
        push_str(&mut s, l.as_str());
    }
    s
}

/// A clean, recognized button mapping: disabled, a send with a known kind,
/// or a known device function.
pub open spec fn button_spec_valid(b: Seq<u8>) -> bool
    recommends
        b.len() == 4,
{
    ||| b == disabled_spec()
    ||| (b[0] / 16 == 8 && b[1] <= 3)
    ||| (b[0] / 16 == 9 && b[1] <= 0x11)
}

/// Returns whether a spec is a clean, recognized button mapping.
pub fn spec_valid(spec: &[u8]) -> (r: bool)
    requires
        spec.len() == 4,
    ensures
        r == button_spec_valid(spec@),
{
    if spec[0] == 0xFF && spec[1] == 0xFF && spec[2] == 0xFF && spec[3] == 0xFF {
        assert(spec@ =~= disabled_spec());
        return true;
    }
    assert(spec@ != disabled_spec()) by {
        if spec@ == disabled_spec() {
            assert(spec@[0] == 0xFF && spec@[1] == 0xFF && spec@[2] == 0xFF && spec@[3] == 0xFF);
        }
    }
    let behavior = spec[0] / 16;
    if behavior == 8 {
        spec[1] <= 3
    } else if behavior == 9 {
        spec[1] <= 0x11
    } else {
        false
    }
}


// ---- target strings ---------------------------------------------------------

/// HID keyboard modifier bit for the left GUI key (Command on macOS).
pub const MOD_LGUI: u8 = 0x08;
/// HID keyboard usage of `[ {`.
pub const KEY_LBRACKET: u8 = 0x2F;
/// HID keyboard usage of `] }`.
pub const KEY_RBRACKET: u8 = 0x30;
/// HID consumer-control usage "AC Back".
pub const AC_BACK: u16 = 0x0224;
/// HID consumer-control usage "AC Forward".
pub const AC_FORWARD: u16 = 0x0225;

/// Send mouse buttons `mask`.
pub open spec fn mouse_target(mask: u16) -> Seq<u8> {
    seq![0x80u8, 0x01u8, (mask / 256) as u8, (mask % 256) as u8]
}

/// Run device function `f`.
pub open spec fn function_target(f: u8) -> Seq<u8> {
    seq![0x90u8, f, 0xFFu8, 0x00u8]
}

/// Send modifiers `mods` with key `code`.
pub open spec fn key_target(mods: u8, code: u8) -> Seq<u8> {
    seq![0x80u8, 0x02u8, mods, code]
}

/// Send consumer-control code `code`.
pub open spec fn consumer_target(code: u16) -> Seq<u8> {
    seq![0x80u8, 0x03u8, (code / 256) as u8, (code % 256) as u8]
}

fn mouse(mask: u16) -> (r: [u8; 4])
    ensures
        r@ == mouse_target(mask),
{
    let r = [0x80, 0x01, (mask / 256) as u8, (mask % 256) as u8];
    assert(r@ =~= mouse_target(mask));
    r
}

fn func(f: u8) -> (r: [u8; 4])
    ensures
        r@ == function_target(f),
{
    let r = [0x90, f, 0xFF, 0x00];
    assert(r@ =~= function_target(f));
    r
}

fn key(mods: u8, code: u8) -> (r: [u8; 4])
    ensures
        r@ == key_target(mods, code),
{
    let r = [0x80, 0x02, mods, code];
    assert(r@ =~= key_target(mods, code));
    r
}

fn consumer(code: u16) -> (r: [u8; 4])
    ensures
        r@ == consumer_target(code),
{
    let r = [0x80, 0x03, (code / 256) as u8, (code % 256) as u8];
    assert(r@ =~= consumer_target(code));
    r
}

/// The fixed target names and the specs they stand for.
pub open spec fn named_target(t: Seq<char>) -> Option<Seq<u8>> {
    if t == "left"@ || t == "leftclick"@ || t == "left-click"@ {
        Some(mouse_target(0x0001))
    } else if t == "right"@ || t == "rightclick"@ || t == "right-click"@ {
        Some(mouse_target(0x0002))
    } else if t == "middle"@ || t == "middleclick"@ || t == "middle-click"@ {
        Some(mouse_target(0x0004))
    } else if t == "back"@ {
        Some(mouse_target(0x0008))
    } else if t == "forward"@ {
        Some(mouse_target(0x0010))
    } else if t == "button6"@ {
        Some(mouse_target(0x0020))
    } else if t == "button7"@ {
        Some(mouse_target(0x0040))
    } else if t == "button8"@ {
        Some(mouse_target(0x0080))
    } else if t == "dpi-cycle"@ || t == "cycle-dpi"@ {
        Some(function_target(0x5))
    } else if t == "dpi-up"@ || t == "dpi-next"@ || t == "next-dpi"@ {
        Some(function_target(0x3))
    } else if t == "dpi-down"@ || t == "dpi-prev"@ || t == "previous-dpi"@ {
        Some(function_target(0x4))
    } else if t == "dpi-default"@ {
        Some(function_target(0x6))
    } else if t == "nav-back"@ || t == "cmd-["@ || t == "cmd-lbracket"@ {
        Some(key_target(MOD_LGUI, KEY_LBRACKET))
    } else if t == "nav-forward"@ || t == "cmd-]"@ || t == "cmd-rbracket"@ {
        Some(key_target(MOD_LGUI, KEY_RBRACKET))
    } else if t == "ac-back"@ {
        Some(consumer_target(AC_BACK))
    } else if t == "ac-forward"@ {
        Some(consumer_target(AC_FORWARD))
    } else if t == "disable"@ || t == "none"@ || t == "off"@ {
        Some(disabled_spec())
    } else {
        None
    }
}

/// The spec a fixed target name stands for.
fn named_target_exec(t: &Vec<char>) -> (r: Option<[u8; 4]>)
    ensures
        match named_target(t@) {
            Some(b) => r matches Some(a) && a@ == b,
            None => r is None,
        },
{
    if chars_eq(t, "left") || chars_eq(t, "leftclick") || chars_eq(t, "left-click") {
        Some(mouse(0x0001))
    } else if chars_eq(t, "right") || chars_eq(t, "rightclick") || chars_eq(t, "right-click") {
        Some(mouse(0x0002))
    } else if chars_eq(t, "middle") || chars_eq(t, "middleclick") || chars_eq(t, "middle-click") {
        Some(mouse(0x0004))
    } else if chars_eq(t, "back") {
        Some(mouse(0x0008))
    } else if chars_eq(t, "forward") {
        Some(mouse(0x0010))
    } else if chars_eq(t, "button6") {
        Some(mouse(0x0020))
    } else if chars_eq(t, "button7") {
        Some(mouse(0x0040))
    } else if chars_eq(t, "button8") {
        Some(mouse(0x0080))
    } else if chars_eq(t, "dpi-cycle") || chars_eq(t, "cycle-dpi") {
        Some(func(0x5))
    } else if chars_eq(t, "dpi-up") || chars_eq(t, "dpi-next") || chars_eq(t, "next-dpi") {
        Some(func(0x3))
    } else if chars_eq(t, "dpi-down") || chars_eq(t, "dpi-prev") || chars_eq(t, "previous-dpi") {
        Some(func(0x4))
    } else if chars_eq(t, "dpi-default") {
        Some(func(0x6))
    } else if chars_eq(t, "nav-back") || chars_eq(t, "cmd-[") || chars_eq(t, "cmd-lbracket") {
        Some(key(MOD_LGUI, KEY_LBRACKET))
    } else if chars_eq(t, "nav-forward") || chars_eq(t, "cmd-]") || chars_eq(t, "cmd-rbracket") {
        Some(key(MOD_LGUI, KEY_RBRACKET))
    } else if chars_eq(t, "ac-back") {
        Some(consumer(AC_BACK))
    } else if chars_eq(t, "ac-forward") {
        Some(consumer(AC_FORWARD))
    } else if chars_eq(t, "disable") || chars_eq(t, "none") || chars_eq(t, "off") {
        let a: [u8; 4] = [0xFF, 0xFF, 0xFF, 0xFF];
        assert(a@ =~= disabled_spec());
        Some(a)
    } else {
        None
    }
}

/// How many times `c` occurs in `s`.
pub open spec fn count_char(s: Seq<char>, c: char) -> nat
    decreases s.len(),
{
    if s.len() == 0 {
        0
    } else {
        count_char(s.drop_last(), c) + if s.last() == c {
            1nat
        } else {
            0nat
        }
    }
}

/// The position of the first `c` in `s` (`s.len()` when there is none).
pub open spec fn first_index(s: Seq<char>, c: char) -> int
    decreases s.len(),
{
    if s.len() == 0 {
        0
    } else if count_char(s.drop_last(), c) > 0 {
        first_index(s.drop_last(), c)
    } else if s.last() == c {
        s.len() - 1
    } else {
        s.len() as int
    }
}

/// A raw spec written as 8 hex digits: each pair is one byte.
pub open spec fn raw_target(h: Seq<char>) -> Seq<u8> {
    Seq::new(4, |i: int| (digit_value(h[2 * i]) * 16 + digit_value(h[2 * i + 1])) as u8)
}

/// The message for a target that is none of the accepted forms.
pub open spec fn unknown_target_text(s: Seq<char>) -> Seq<char> {
    "unknown target '"@ + s
        + "'. Use: left right middle back forward button6-8, \
         dpi-cycle dpi-up dpi-down dpi-default, nav-back nav-forward ac-back ac-forward, \
         disable, consumer:XXXX, key:MM:KK, or a raw 8-hex-digit spec."@
}

/// The spec a target string (as typed on the command line) stands for, or
/// the message explaining why it stands for none. Matching ignores ASCII
/// case. Besides the fixed names: `consumer:XXXX` (hex consumer code),
/// `key:MM:KK` (hex modifier and keycode), or 8 hex digits (whitespace
/// ignored) giving the 4 bytes.
pub open spec fn target_of(s: Seq<char>) -> Result<Seq<u8>, Seq<char>> {
    let t = lower(s);
    let cp = "consumer:"@;
    let kp = "key:"@;
    if named_target(t) is Some {
        Ok(named_target(t)->0)
    } else if cp.len() <= t.len() && t.take(cp.len() as int) == cp {
        let hex = t.skip(cp.len() as int);
        match parse_radix(hex, 16, 0x10000) {
            Some(v) => Ok(consumer_target(v as u16)),
            None => Err("bad consumer code '"@ + hex + "'"@),
        }
    } else if kp.len() <= t.len() && t.take(kp.len() as int) == kp && count_char(
        t.skip(kp.len() as int),
        ':',
    ) == 1 {
        let rest = t.skip(kp.len() as int);
        let p = first_index(rest, ':');
        match parse_radix(rest.take(p), 16, 0x100) {
            None => Err("bad modifier hex"@),
            Some(m) => match parse_radix(rest.skip(p + 1), 16, 0x100) {
                None => Err("bad keycode hex"@),
                Some(k) => Ok(key_target(m as u8, k as u8)),
            },
        }
    } else {
        let h = without_ws(t);
        if h.len() == 8 && (forall|i: int| 0 <= i < 8 ==> #[trigger] is_hex_digit(h[i])) {
            Ok(raw_target(h))
        } else {
            Err(unknown_target_text(s))
        }
    }
}

/// Counts `c` in `t[start..]` and finds its first position there.
fn count_and_find(t: &Vec<char>, start: usize, c: char) -> (r: (usize, usize))
    requires
        start <= t.len(),
    ensures
        r.0 == count_char(t@.skip(start as int), c),
        r.0 > 0 ==> r.1 == first_index(t@.skip(start as int), c),
{
    let ghost s = t@.skip(start as int);
    let mut count: usize = 0;
    let mut first: usize = 0;
    let mut i: usize = start;
    while i < t.len()
        invariant
            start <= i <= t.len(),
            s == t@.skip(start as int),
            count <= i - start,
            count == count_char(s.take(i - start), c),
            count > 0 ==> first == first_index(s.take(i - start), c),
        decreases t.len() - i,
    {
        let ghost k = (i - start) as int;
        assert(s.take(k + 1).drop_last() == s.take(k));
        assert(s.take(k + 1).last() == t@[i as int]);
        if t[i] == c {
            if count == 0 {
                first = i - start;
            }
            count = count + 1;
        }
        i = i + 1;
    }
    assert(s.take(t.len() - start) == s);
    (count, first)
}

/// The characters of `t` that are not whitespace.
fn strip_ws(t: &Vec<char>) -> (r: Vec<char>)
    ensures
        r@ == without_ws(t@),
{
    let mut out: Vec<char> = Vec::new();
    let mut i: usize = 0;
    while i < t.len()
        invariant
            i <= t.len(),
            out@ == without_ws(t@.take(i as int)),
        decreases t.len() - i,
    {
        let c = t[i];
        assert(t@.take(i + 1).drop_last() == t@.take(i as int));
        if !is_whitespace(c) {
            out.push(c);
        }
        i = i + 1;
    }
    assert(t@.take(t.len() as int) == t@);
    out
}

/// `char::is_whitespace`.
fn is_whitespace(c: char) -> (r: bool)
    ensures
        r == is_ws(c),
{
    ('\u{9}' <= c && c <= '\u{d}') || c == ' ' || c == '\u{85}' || c == '\u{a0}' || c
        == '\u{1680}' || ('\u{2000}' <= c && c <= '\u{200a}') || c == '\u{2028}' || c
        == '\u{2029}' || c == '\u{202f}' || c == '\u{205f}' || c == '\u{3000}'
}

/// Appends the characters `t[from..to]`.
fn push_range(s: &mut String, t: &Vec<char>, from: usize, to: usize)
    requires
        from <= to <= t.len(),
    ensures
        final(s)@ == old(s)@ + t@.subrange(from as int, to as int),
{
    let ghost start = s@;
    let mut i = from;
    while i < to
        invariant
            from <= i <= to <= t.len(),
            s@ == start + t@.subrange(from as int, i as int),
        decreases to - i,
    {
        push_char(s, t[i]);
        i = i + 1;
        assert(t@.subrange(from as int, i as int) == t@.subrange(from as int, i - 1).push(t@[i - 1]));
    }
}

/// Parse a target string (as typed on the command line) into a 4-byte
/// button spec.
pub fn parse_target(s: &str) -> (r: Result<[u8; 4], String>)
    ensures
        match (target_of(s@), r) {
            (Ok(b), Ok(a)) => a@ == b,
            (Err(m), Err(e)) => e@ == m,
            _ => false,
        },
{
    let t = lower_chars(s);
    let named = named_target_exec(&t);
    if let Some(a) = named {
        return Ok(a);
    }
    let cp = "consumer:";
    if chars_start_with(&t, cp) {
        let n = cp.unicode_len();
        let ghost hex = t@.skip(n as int);
        assert(t@.subrange(n as int, t.len() as int) == hex);
        match parse_radix_chars(&t, n, t.len(), 16, 0x10000) {
            Some(v) => {
                return Ok(consumer(v as u16));
            },
            None => {
                let mut m = String::new();
                push_str(&mut m, "bad consumer code '");
                push_range(&mut m, &t, n, t.len());
                push_str(&mut m, "'");
                return Err(m);
            },
        }
    }
    let kp = "key:";
    if chars_start_with(&t, kp) {
        let n = kp.unicode_len();
        let (count, p) = count_and_find(&t, n, ':');
        if count == 1 {
            let ghost rest = t@.skip(n as int);
            proof {
                lemma_first_index_bounds(rest, ':');
            }
            assert(t@.subrange(n as int, (n + p) as int) == rest.take(p as int));
            assert(t@.subrange((n + p + 1) as int, t.len() as int) == rest.skip(p + 1));
            match parse_radix_chars(&t, n, n + p, 16, 0x100) {
                None => {
                    return Err(owned("bad modifier hex"));
                },
                Some(mods) => match parse_radix_chars(&t, n + p + 1, t.len(), 16, 0x100) {
                    None => {
                        return Err(owned("bad keycode hex"));
                    },
                    Some(code) => {
                        return Ok(key(mods as u8, code as u8));
                    },
                },
            }
        }
    }
    let h = strip_ws(&t);
    if h.len() == 8 {
        let mut all = true;
        let mut i: usize = 0;
        while i < 8
            invariant
                h.len() == 8,
                i <= 8,
                all == (forall|j: int| 0 <= j < i ==> #[trigger] is_hex_digit(h@[j])),
            decreases 8 - i,
        {
            let ok = digit_value_of(h[i]) < 16;
            assert(all && ok ==> forall|j: int| 0 <= j < i + 1 ==> #[trigger] is_hex_digit(h@[j])) by {
                if all && ok {
                    assert forall|j: int| 0 <= j < i + 1 implies #[trigger] is_hex_digit(h@[j]) by {
                        if j < i {
                        }
                    }
                }
            }
            assert(!ok ==> !is_hex_digit(h@[i as int]));
            all = all && ok;
            i = i + 1;
        }
        if all {
            let mut b: [u8; 4] = [0, 0, 0, 0];
            let mut k: usize = 0;
            while k < 4
                invariant
                    h.len() == 8,
                    k <= 4,
                    forall|j: int| 0 <= j < 8 ==> #[trigger] is_hex_digit(h@[j]),
                    forall|j: int| 0 <= j < k ==> b@[j] == raw_target(h@)[j],
                decreases 4 - k,
            {
                let hi = digit_value_of(h[2 * k]);
                let lo = digit_value_of(h[2 * k + 1]);
                assert(is_hex_digit(h@[2 * k as int]));
                assert(is_hex_digit(h@[2 * k as int + 1]));
                b[k] = (hi * 16 + lo) as u8;
                k = k + 1;
            }
            assert(b@ =~= raw_target(h@));
            return Ok(b);
        }
    }
    let mut m = String::new();
    push_str(
        &mut m,
        "unknown target '",
    );
    push_str(&mut m, s);
    push_str(
        &mut m,
        "'. Use: left right middle back forward button6-8, \
         dpi-cycle dpi-up dpi-down dpi-default, nav-back nav-forward ac-back ac-forward, \
         disable, consumer:XXXX, key:MM:KK, or a raw 8-hex-digit spec.",
    );
    Err(m)
}

proof fn lemma_first_index_bounds(s: Seq<char>, c: char)
    requires
        count_char(s, c) > 0,
    ensures
        0 <= first_index(s, c) < s.len(),
        s[first_index(s, c)] == c,
    decreases s.len(),
{
    if count_char(s.drop_last(), c) > 0 {
        lemma_first_index_bounds(s.drop_last(), c);
    }
}


/// Every fixed target name stands for a recognized mapping.
pub proof fn law_named_targets_are_valid(t: Seq<char>)
    requires
        named_target(t) is Some,
    ensures
        named_target(t)->0.len() == 4,
        button_spec_valid(named_target(t)->0),
{
    let b = named_target(t)->0;
    if b == disabled_spec() {
    } else {
        assert(b[0] / 16 == 8 || b[0] / 16 == 9);
    }
}

/// A parsed target is a 4-byte spec, and a recognized mapping unless it was
/// given as 8 raw hex digits.
pub proof fn law_parsed_targets_are_valid(s: Seq<char>)
    requires
        target_of(s) is Ok,
    ensures
        target_of(s)->Ok_0.len() == 4,
        button_spec_valid(target_of(s)->Ok_0) || ({
            let h = without_ws(lower(s));
            h.len() == 8 && target_of(s)->Ok_0 == raw_target(h)
        }),
{
    let t = lower(s);
    if named_target(t) is Some {
        law_named_targets_are_valid(t);
    } else {
        let b = target_of(s)->Ok_0;
        assert(b.len() == 4);
    }
}

/// Decoding a spec built for a target names that target: mouse buttons,
/// device functions, consumer codes and keys read back as what they send.
pub proof fn law_decode_names_targets(mask: u16, f: u8, code: u16, mods: u8, key: u8)
    ensures
        button_text(mouse_target(mask)) == mouse_button_name_of(mask),
        button_text(function_target(f)) == function_name_of(f),
        button_text(consumer_target(code)) == if code == AC_BACK {
            "AC Back (consumer)"@
        } else if code == AC_FORWARD {
            "AC Forward (consumer)"@
        } else {
            "consumer 0x"@ + hex4(code)
        },
        button_text(key_target(mods, key)) == if mods == MOD_LGUI && key == KEY_LBRACKET {
            "Cmd+[ (browser Back)"@
        } else if mods == MOD_LGUI && key == KEY_RBRACKET {
            "Cmd+] (browser Forward)"@
        } else {
            "key 0x"@ + hex2(key) + " (modifiers 0x"@ + hex2(mods) + ")"@
        },
{
    assert(mouse_target(mask) != disabled_spec()) by {
        assert(mouse_target(mask)[0] == 0x80);
    }
    assert(function_target(f) != disabled_spec()) by {
        assert(function_target(f)[0] == 0x90);
    }
    assert(consumer_target(code) != disabled_spec()) by {
        assert(consumer_target(code)[0] == 0x80);
    }
    assert(key_target(mods, key) != disabled_spec()) by {
        assert(key_target(mods, key)[0] == 0x80);
    }
    assert(be16_of((mask / 256) as u8, (mask % 256) as u8) == mask);
    assert(be16_of((code / 256) as u8, (code % 256) as u8) == code);
}

/// Whether `s` begins with `p`.
pub open spec fn starts_with(s: Seq<char>, p: Seq<char>) -> bool {
    p.len() <= s.len() && s.take(p.len() as int) == p
}

/// A description that marks a spec as not a recognized mapping: an unknown
/// device function, a macro, a raw spec, or a send of an unknown kind.
pub open spec fn text_marks_unrecognized(t: Seq<char>) -> bool {
    t == "function?"@ || starts_with(t, "macro"@) || starts_with(t, "raw"@) || starts_with(
        t,
        "send?"@,
    )
}

/// A description whose first two characters rule out every unrecognized
/// form.
proof fn lemma_text_recognized(t: Seq<char>)
    requires
        t.len() >= 2,
        t[0] != 'f',
        t[0] != 'r',
        !(t[0] == 'm' && t[1] == 'a'),
        !(t[0] == 's' && t[1] == 'e'),
    ensures
        !text_marks_unrecognized(t),
{
    reveal_strlit("function?");
    reveal_strlit("macro");
    reveal_strlit("raw");
    reveal_strlit("send?");
    if starts_with(t, "macro"@) {
        assert(t.take(5)[0] == t[0] && t.take(5)[1] == t[1]);
    }
    if starts_with(t, "raw"@) {
        assert(t.take(3)[0] == t[0]);
    }
    if starts_with(t, "send?"@) {
        assert(t.take(5)[0] == t[0] && t.take(5)[1] == t[1]);
    }
}

/// A description that begins with `p` is marked when `p` is.
proof fn lemma_prefix_marks(t: Seq<char>, p: Seq<char>, q: Seq<char>)
    requires
        p == "macro"@ || p == "raw"@ || p == "send?"@,
        t == p + q,
    ensures
        text_marks_unrecognized(t),
{
    assert(t.take(p.len() as int) =~= p);
}

/// A spec is a recognized mapping exactly when its description is not
/// "function?" and does not begin with "macro", "raw" or "send?".
pub proof fn law_valid_iff_description_recognized(b: Seq<u8>)
    requires
        b.len() == 4,
    ensures
        button_spec_valid(b) <==> !text_marks_unrecognized(button_text(b)),
{
    let t = button_text(b);
    let behavior = b[0] / 16;
    if b == disabled_spec() {
        reveal_strlit("disabled");
        lemma_text_recognized(t);
    } else if behavior == 8 {
        if b[1] == 0 {
            reveal_strlit("no action");
            lemma_text_recognized(t);
        } else if b[1] == 1 {
            reveal_strlit("Left click");
            reveal_strlit("Right click");
            reveal_strlit("Middle click");
            reveal_strlit("Back");
            reveal_strlit("Forward");
            reveal_strlit("Button 6");
            reveal_strlit("Button 7");
            reveal_strlit("Button 8");
            reveal_strlit("mouse mask 0x");
            lemma_text_recognized(t);
        } else if b[1] == 2 {
            reveal_strlit("Cmd+[ (browser Back)");
            reveal_strlit("Cmd+] (browser Forward)");
            reveal_strlit("key 0x");
            lemma_text_recognized(t);
        } else if b[1] == 3 {
            reveal_strlit("AC Back (consumer)");
            reveal_strlit("AC Forward (consumer)");
            reveal_strlit("consumer 0x");
            lemma_text_recognized(t);
        } else {
            reveal_strlit("send? ");
            reveal_strlit("send?");
            reveal_strlit(" ");
            assert("send? "@ =~= "send?"@ + " "@);
            assert(t =~= "send?"@ + (" "@ + hex_list(b)));
            lemma_prefix_marks(t, "send?"@, " "@ + hex_list(b));
        }
    } else if behavior == 9 {
        reveal_strlit("no action");
        reveal_strlit("tilt left");
        reveal_strlit("tilt right");
        reveal_strlit("next DPI");
        reveal_strlit("previous DPI");
        reveal_strlit("cycle DPI");
        reveal_strlit("default DPI");
        reveal_strlit("shift DPI");
        reveal_strlit("next profile");
        reveal_strlit("previous profile");
        reveal_strlit("cycle profile");
        reveal_strlit("G-shift");
        reveal_strlit("battery status");
        reveal_strlit("profile select");
        reveal_strlit("mode switch");
        reveal_strlit("host button");
        reveal_strlit("scroll down");
        reveal_strlit("scroll up");
        if b[1] <= 0x11 {
            lemma_text_recognized(t);
        }
    } else if behavior <= 2 {
        reveal_strlit("macro (behavior ");
        reveal_strlit("macro");
        reveal_strlit(" (behavior ");
        assert("macro (behavior "@ =~= "macro"@ + " (behavior "@);
        assert(t =~= "macro"@ + (" (behavior "@ + decimal(behavior as nat) + ")"@));
        lemma_prefix_marks(t, "macro"@, " (behavior "@ + decimal(behavior as nat) + ")"@);
    } else {
        reveal_strlit("raw ");
        reveal_strlit("raw");
        reveal_strlit(" ");
        assert("raw "@ =~= "raw"@ + " "@);
        assert(t =~= "raw"@ + (" "@ + hex_list(b)));
        lemma_prefix_marks(t, "raw"@, " "@ + hex_list(b));
    }
}

/// No fixed target name is 13 characters long, none of 9 characters starts
/// with `k`, and each of 8 characters has a non-hex character among its
/// first two.
proof fn lemma_not_a_named_target(t: Seq<char>)
    requires
        t.len() == 13 || (t.len() == 9 && t[0] == 'k') || (t.len() == 8 && is_hex_digit(t[0])
            && is_hex_digit(t[1])),
    ensures
        named_target(t) is None,
{
    reveal_strlit("left");
    reveal_strlit("leftclick");
    reveal_strlit("left-click");
    reveal_strlit("right");
    reveal_strlit("rightclick");
    reveal_strlit("right-click");
    reveal_strlit("middle");
    reveal_strlit("middleclick");
    reveal_strlit("middle-click");
    reveal_strlit("back");
    reveal_strlit("forward");
    reveal_strlit("button6");
    reveal_strlit("button7");
    reveal_strlit("button8");
    reveal_strlit("dpi-cycle");
    reveal_strlit("cycle-dpi");
    reveal_strlit("dpi-up");
    reveal_strlit("dpi-next");
    reveal_strlit("next-dpi");
    reveal_strlit("dpi-down");
    reveal_strlit("dpi-prev");
    reveal_strlit("previous-dpi");
    reveal_strlit("dpi-default");
    reveal_strlit("nav-back");
    reveal_strlit("cmd-[");
    reveal_strlit("cmd-lbracket");
    reveal_strlit("nav-forward");
    reveal_strlit("cmd-]");
    reveal_strlit("cmd-rbracket");
    reveal_strlit("ac-back");
    reveal_strlit("ac-forward");
    reveal_strlit("disable");
    reveal_strlit("none");
    reveal_strlit("off");
}

/// In `a b : c d`, with no colon among `a b c d`, the only colon is the
/// third character.
proof fn lemma_one_colon(a0: char, a1: char, b0: char, b1: char)
    requires
        a0 != ':' && a1 != ':' && b0 != ':' && b1 != ':',
    ensures
        count_char(seq![a0, a1, ':', b0, b1], ':') == 1,
        first_index(seq![a0, a1, ':', b0, b1], ':') == 2,
{
    let s5 = seq![a0, a1, ':', b0, b1];
    let s4 = seq![a0, a1, ':', b0];
    let s3 = seq![a0, a1, ':'];
    let s2 = seq![a0, a1];
    let s1 = seq![a0];
    assert(s5.drop_last() =~= s4);
    assert(s4.drop_last() =~= s3);
    assert(s3.drop_last() =~= s2);
    assert(s2.drop_last() =~= s1);
    assert(s1.drop_last() =~= Seq::<char>::empty());
    assert(count_char(Seq::<char>::empty(), ':') == 0);
    assert(count_char(s1, ':') == 0);
    assert(count_char(s2, ':') == 0);
    assert(count_char(s3, ':') == 1);
    assert(count_char(s4, ':') == 1);
    assert(first_index(s3, ':') == 2);
    assert(first_index(s4, ':') == 2);
}

/// `consumer:` with a code in hex gives the spec that sends that code.
proof fn lemma_consumer_target_parses_back(c: u16)
    ensures
        target_of("consumer:"@ + hex4(c)) == Ok::<Seq<u8>, Seq<char>>(consumer_target(c)),
{
    let cp = "consumer:"@;
    reveal_strlit("consumer:");
    lemma_lower_concat(cp, hex4(c));
    assert(lower(cp) =~= cp);
    law_hex4_parses_back(c);
    let t = lower(cp + hex4(c));
    assert(t == cp + lower(hex4(c)));
    lemma_not_a_named_target(t);
    assert(t.take(cp.len() as int) =~= cp);
    assert(t.skip(cp.len() as int) =~= lower(hex4(c)));
}

/// `key:` with a modifier and a keycode in hex gives the spec that sends
/// that key.
proof fn lemma_key_target_parses_back(m: u8, k: u8)
    ensures
        target_of("key:"@ + hex2(m) + ":"@ + hex2(k)) == Ok::<Seq<u8>, Seq<char>>(key_target(m, k)),
{
    let kp = "key:"@;
    reveal_strlit("key:");
    reveal_strlit(":");
    reveal_strlit("consumer:");
    law_hex2_parses_back(m);
    law_hex2_parses_back(k);
    let lm = lower(hex2(m));
    let lk = lower(hex2(k));
    lemma_lower_concat(kp + hex2(m) + ":"@, hex2(k));
    lemma_lower_concat(kp + hex2(m), ":"@);
    lemma_lower_concat(kp, hex2(m));
    assert(lower(kp) =~= kp);
    assert(lower(":"@) =~= ":"@);
    let t = lower(kp + hex2(m) + ":"@ + hex2(k));
    assert(t == kp + lm + ":"@ + lk);
    assert(t[0] == 'k');
    lemma_not_a_named_target(t);
    assert(!("consumer:"@.len() <= t.len() && t.take("consumer:"@.len() as int) == "consumer:"@)) by {
        if "consumer:"@.len() <= t.len() && t.take("consumer:"@.len() as int) == "consumer:"@ {
            assert(t.take(9)[0] == t[0]);
        }
    }
    assert(t.take(kp.len() as int) =~= kp);
    let rest = t.skip(kp.len() as int);
    assert(rest =~= seq![lm[0], lm[1], ':', lk[0], lk[1]]);
    lemma_one_colon(lm[0], lm[1], lk[0], lk[1]);
    assert(rest.take(2) =~= lm);
    assert(rest.skip(3) =~= lk);
}

/// Four bytes written as 8 hex digits give back those bytes.
proof fn lemma_raw_target_parses_back(b: Seq<u8>)
    requires
        b.len() == 4,
    ensures
        target_of(hex2(b[0]) + hex2(b[1]) + hex2(b[2]) + hex2(b[3])) == Ok::<Seq<u8>, Seq<char>>(b),
{
    reveal_strlit("key:");
    reveal_strlit("consumer:");
    law_hex2_parses_back(b[0]);
    law_hex2_parses_back(b[1]);
    law_hex2_parses_back(b[2]);
    law_hex2_parses_back(b[3]);
    let l0 = lower(hex2(b[0]));
    let l1 = lower(hex2(b[1]));
    let l2 = lower(hex2(b[2]));
    let l3 = lower(hex2(b[3]));
    lemma_lower_concat(hex2(b[0]) + hex2(b[1]) + hex2(b[2]), hex2(b[3]));
    lemma_lower_concat(hex2(b[0]) + hex2(b[1]), hex2(b[2]));
    lemma_lower_concat(hex2(b[0]), hex2(b[1]));
    let t = lower(hex2(b[0]) + hex2(b[1]) + hex2(b[2]) + hex2(b[3]));
    assert(t =~= seq![l0[0], l0[1], l1[0], l1[1], l2[0], l2[1], l3[0], l3[1]]);
    assert(is_hex_digit(l0[0]) && is_hex_digit(l0[1]));
    lemma_not_a_named_target(t);
    assert(!("key:"@.len() <= t.len() && t.take("key:"@.len() as int) == "key:"@)) by {
        if "key:"@.len() <= t.len() && t.take("key:"@.len() as int) == "key:"@ {
            assert(t.take(4)[3] == t[3]);
            assert(t[3] == l1[1]);
        }
    }
    assert forall|i: int| 0 <= i < t.len() implies !is_ws(#[trigger] t[i]) by {
        assert(!is_ws(l0[0]) && !is_ws(l0[1]) && !is_ws(l1[0]) && !is_ws(l1[1]));
        assert(!is_ws(l2[0]) && !is_ws(l2[1]) && !is_ws(l3[0]) && !is_ws(l3[1]));
    }
    lemma_without_ws_none(t);
    assert forall|i: int| 0 <= i < 8 implies #[trigger] is_hex_digit(t[i]) by {
        assert(is_hex_digit(l1[0]) && is_hex_digit(l1[1]) && is_hex_digit(l2[0]));
        assert(is_hex_digit(l2[1]) && is_hex_digit(l3[0]) && is_hex_digit(l3[1]));
    }
    assert(raw_target(t)[0] == raw_byte(l0[0], l0[1]));
    assert(raw_target(t)[1] == raw_byte(l1[0], l1[1]));
    assert(raw_target(t)[2] == raw_byte(l2[0], l2[1]));
    assert(raw_target(t)[3] == raw_byte(l3[0], l3[1]));
    assert(raw_target(t) =~= b);
}

/// Targets written in hex parse back to what they stand for: `consumer:`
/// with four hex digits, `key:` with two pairs of hex digits, and 8 hex
/// digits giving the 4 bytes. Matching ignores case, so this holds for
/// lower-case digits too.
pub proof fn law_hex_targets_parse_back(c: u16, m: u8, k: u8, b: Seq<u8>)
    requires
        b.len() == 4,
    ensures
        target_of("consumer:"@ + hex4(c)) == Ok::<Seq<u8>, Seq<char>>(consumer_target(c)),
        target_of("key:"@ + hex2(m) + ":"@ + hex2(k)) == Ok::<Seq<u8>, Seq<char>>(key_target(m, k)),
        target_of(hex2(b[0]) + hex2(b[1]) + hex2(b[2]) + hex2(b[3])) == Ok::<Seq<u8>, Seq<char>>(b),
{
    lemma_consumer_target_parses_back(c);
    lemma_key_target_parses_back(m, k);
    lemma_raw_target_parses_back(b);
}

proof fn lemma_named_target_group_0(t: Seq<char>)
    requires
        t == "left"@ || t == "leftclick"@ || t == "left-click"@,
    ensures
        named_target(t) == Some(seq![0x80u8, 0x01u8, 0x00u8, 0x01u8]),
{
    reveal_strlit("left");
    reveal_strlit("leftclick");
    reveal_strlit("left-click");
    if t == "left"@ {
        assert(t.len() == 4);
    }
    if t == "leftclick"@ {
        assert(t.len() == 9);
    }
    if t == "left-click"@ {
        assert(t.len() == 10);
    }
}

proof fn lemma_named_target_group_1(t: Seq<char>)
    requires
        t == "right"@ || t == "rightclick"@ || t == "right-click"@,
    ensures
        named_target(t) == Some(seq![0x80u8, 0x01u8, 0x00u8, 0x02u8]),
{
    reveal_strlit("right");
    reveal_strlit("rightclick");
    reveal_strlit("right-click");
    reveal_strlit("left");
    reveal_strlit("leftclick");
    reveal_strlit("left-click");
    if t == "right"@ {
        assert(t.len() == 5);
        assert("left"@.len() == 4);
        assert("leftclick"@.len() == 9);
        assert("left-click"@.len() == 10);
    }
    if t == "rightclick"@ {
        assert(t.len() == 10);
        assert("left"@.len() == 4);
        assert("leftclick"@.len() == 9);
        assert(t[0] != "left-click"@[0]);
    }
    if t == "right-click"@ {
        assert(t.len() == 11);
        assert("left"@.len() == 4);
        assert("leftclick"@.len() == 9);
        assert("left-click"@.len() == 10);
    }
}

proof fn lemma_named_target_group_2(t: Seq<char>)
    requires
        t == "middle"@ || t == "middleclick"@ || t == "middle-click"@,
    ensures
        named_target(t) == Some(seq![0x80u8, 0x01u8, 0x00u8, 0x04u8]),
{
    reveal_strlit("middle");
    reveal_strlit("middleclick");
    reveal_strlit("middle-click");
    reveal_strlit("left");
    reveal_strlit("leftclick");
    reveal_strlit("left-click");
    reveal_strlit("right");
    reveal_strlit("rightclick");
    reveal_strlit("right-click");
    if t == "middle"@ {
        assert(t.len() == 6);
        assert("left"@.len() == 4);
        assert("leftclick"@.len() == 9);
        assert("left-click"@.len() == 10);
        assert("right"@.len() == 5);
        assert("rightclick"@.len() == 10);
        assert("right-click"@.len() == 11);
    }
    if t == "middleclick"@ {
        assert(t.len() == 11);
        assert("left"@.len() == 4);
        assert("leftclick"@.len() == 9);
        assert("left-click"@.len() == 10);
        assert("right"@.len() == 5);
        assert("rightclick"@.len() == 10);
        assert(t[0] != "right-click"@[0]);
    }
    if t == "middle-click"@ {
        assert(t.len() == 12);
        assert("left"@.len() == 4);
        assert("leftclick"@.len() == 9);
        assert("left-click"@.len() == 10);
        assert("right"@.len() == 5);
        assert("rightclick"@.len() == 10);
        assert("right-click"@.len() == 11);
    }
}

proof fn lemma_named_target_group_3(t: Seq<char>)
    requires
        t == "back"@,
    ensures
        named_target(t) == Some(seq![0x80u8, 0x01u8, 0x00u8, 0x08u8]),
{
    reveal_strlit("back");
    reveal_strlit("left");
    reveal_strlit("leftclick");
    reveal_strlit("left-click");
    reveal_strlit("right");
    reveal_strlit("rightclick");
    reveal_strlit("right-click");
    reveal_strlit("middle");
    reveal_strlit("middleclick");
    reveal_strlit("middle-click");
    if t == "back"@ {
        assert(t.len() == 4);
        assert(t[0] != "left"@[0]);
        assert("leftclick"@.len() == 9);
        assert("left-click"@.len() == 10);
        assert("right"@.len() == 5);
        assert("rightclick"@.len() == 10);
        assert("right-click"@.len() == 11);
        assert("middle"@.len() == 6);
        assert("middleclick"@.len() == 11);
        assert("middle-click"@.len() == 12);
    }
}

proof fn lemma_named_target_group_4(t: Seq<char>)
    requires
        t == "forward"@,
    ensures
        named_target(t) == Some(seq![0x80u8, 0x01u8, 0x00u8, 0x10u8]),
{
    reveal_strlit("forward");
    reveal_strlit("left");
    reveal_strlit("leftclick");
    reveal_strlit("left-click");
    reveal_strlit("right");
    reveal_strlit("rightclick");
    reveal_strlit("right-click");
    reveal_strlit("middle");
    reveal_strlit("middleclick");
    reveal_strlit("middle-click");
    reveal_strlit("back");
    if t == "forward"@ {
        assert(t.len() == 7);
        assert("left"@.len() == 4);
        assert("leftclick"@.len() == 9);
        assert("left-click"@.len() == 10);
        assert("right"@.len() == 5);
        assert("rightclick"@.len() == 10);
        assert("right-click"@.len() == 11);
        assert("middle"@.len() == 6);
        assert("middleclick"@.len() == 11);
        assert("middle-click"@.len() == 12);
        assert("back"@.len() == 4);
    }
}

proof fn lemma_named_target_group_5(t: Seq<char>)
    requires
        t == "button6"@,
    ensures
        named_target(t) == Some(seq![0x80u8, 0x01u8, 0x00u8, 0x20u8]),
{
    reveal_strlit("button6");
    reveal_strlit("left");
    reveal_strlit("leftclick");
    reveal_strlit("left-click");
    reveal_strlit("right");
    reveal_strlit("rightclick");
    reveal_strlit("right-click");
    reveal_strlit("middle");
    reveal_strlit("middleclick");
    reveal_strlit("middle-click");
    reveal_strlit("back");
    reveal_strlit("forward");
    if t == "button6"@ {
        assert(t.len() == 7);
        assert("left"@.len() == 4);
        assert("leftclick"@.len() == 9);
        assert("left-click"@.len() == 10);
        assert("right"@.len() == 5);
        assert("rightclick"@.len() == 10);
        assert("right-click"@.len() == 11);
        assert("middle"@.len() == 6);
        assert("middleclick"@.len() == 11);
        assert("middle-click"@.len() == 12);
        assert("back"@.len() == 4);
        assert(t[0] != "forward"@[0]);
    }
}

proof fn lemma_named_target_group_6(t: Seq<char>)
    requires
        t == "button7"@,
    ensures
        named_target(t) == Some(seq![0x80u8, 0x01u8, 0x00u8, 0x40u8]),
{
    reveal_strlit("button7");
    reveal_strlit("left");
    reveal_strlit("leftclick");
    reveal_strlit("left-click");
    reveal_strlit("right");
    reveal_strlit("rightclick");
    reveal_strlit("right-click");
    reveal_strlit("middle");
    reveal_strlit("middleclick");
    reveal_strlit("middle-click");
    reveal_strlit("back");
    reveal_strlit("forward");
    reveal_strlit("button6");
    if t == "button7"@ {
        assert(t.len() == 7);
        assert("left"@.len() == 4);
        assert("leftclick"@.len() == 9);
        assert("left-click"@.len() == 10);
        assert("right"@.len() == 5);
        assert("rightclick"@.len() == 10);
        assert("right-click"@.len() == 11);
        assert("middle"@.len() == 6);
        assert("middleclick"@.len() == 11);
        assert("middle-click"@.len() == 12);
        assert("back"@.len() == 4);
        assert(t[0] != "forward"@[0]);
        assert(t[6] != "button6"@[6]);
    }
}

proof fn lemma_named_target_group_7(t: Seq<char>)
    requires
        t == "button8"@,
    ensures
        named_target(t) == Some(seq![0x80u8, 0x01u8, 0x00u8, 0x80u8]),
{
    reveal_strlit("button8");
    reveal_strlit("left");
    reveal_strlit("leftclick");
    reveal_strlit("left-click");
    reveal_strlit("right");
    reveal_strlit("rightclick");
    reveal_strlit("right-click");
    reveal_strlit("middle");
    reveal_strlit("middleclick");
    reveal_strlit("middle-click");
    reveal_strlit("back");
    reveal_strlit("forward");
    reveal_strlit("button6");
    reveal_strlit("button7");
    if t == "button8"@ {
        assert(t.len() == 7);
        assert("left"@.len() == 4);
        assert("leftclick"@.len() == 9);
        assert("left-click"@.len() == 10);
        assert("right"@.len() == 5);
        assert("rightclick"@.len() == 10);
        assert("right-click"@.len() == 11);
        assert("middle"@.len() == 6);
        assert("middleclick"@.len() == 11);
        assert("middle-click"@.len() == 12);
        assert("back"@.len() == 4);
        assert(t[0] != "forward"@[0]);
        assert(t[6] != "button6"@[6]);
        assert(t[6] != "button7"@[6]);
    }
}

proof fn lemma_named_target_group_8(t: Seq<char>)
    requires
        t == "dpi-cycle"@ || t == "cycle-dpi"@,
    ensures
        named_target(t) == Some(seq![0x90u8, 0x05u8, 0xFFu8, 0x00u8]),
{
    reveal_strlit("dpi-cycle");
    reveal_strlit("cycle-dpi");
    reveal_strlit("left");
    reveal_strlit("leftclick");
    reveal_strlit("left-click");
    reveal_strlit("right");
    reveal_strlit("rightclick");
    reveal_strlit("right-click");
    reveal_strlit("middle");
    reveal_strlit("middleclick");
    reveal_strlit("middle-click");
    reveal_strlit("back");
    reveal_strlit("forward");
    reveal_strlit("button6");
    reveal_strlit("button7");
    reveal_strlit("button8");
    if t == "dpi-cycle"@ {
        assert(t.len() == 9);
        assert("left"@.len() == 4);
        assert(t[0] != "leftclick"@[0]);
        assert("left-click"@.len() == 10);
        assert("right"@.len() == 5);
        assert("rightclick"@.len() == 10);
        assert("right-click"@.len() == 11);
        assert("middle"@.len() == 6);
        assert("middleclick"@.len() == 11);
        assert("middle-click"@.len() == 12);
        assert("back"@.len() == 4);
        assert("forward"@.len() == 7);
        assert("button6"@.len() == 7);
        assert("button7"@.len() == 7);
        assert("button8"@.len() == 7);
    }
    if t == "cycle-dpi"@ {
        assert(t.len() == 9);
        assert("left"@.len() == 4);
        assert(t[0] != "leftclick"@[0]);
        assert("left-click"@.len() == 10);
        assert("right"@.len() == 5);
        assert("rightclick"@.len() == 10);
        assert("right-click"@.len() == 11);
        assert("middle"@.len() == 6);
        assert("middleclick"@.len() == 11);
        assert("middle-click"@.len() == 12);
        assert("back"@.len() == 4);
        assert("forward"@.len() == 7);
        assert("button6"@.len() == 7);
        assert("button7"@.len() == 7);
        assert("button8"@.len() == 7);
    }
}

proof fn lemma_named_target_group_9(t: Seq<char>)
    requires
        t == "dpi-up"@ || t == "dpi-next"@ || t == "next-dpi"@,
    ensures
        named_target(t) == Some(seq![0x90u8, 0x03u8, 0xFFu8, 0x00u8]),
{
    reveal_strlit("dpi-up");
    reveal_strlit("dpi-next");
    reveal_strlit("next-dpi");
    reveal_strlit("left");
    reveal_strlit("leftclick");
    reveal_strlit("left-click");
    reveal_strlit("right");
    reveal_strlit("rightclick");
    reveal_strlit("right-click");
    reveal_strlit("middle");
    reveal_strlit("middleclick");
    reveal_strlit("middle-click");
    reveal_strlit("back");
    reveal_strlit("forward");
    reveal_strlit("button6");
    reveal_strlit("button7");
    reveal_strlit("button8");
    reveal_strlit("dpi-cycle");
    reveal_strlit("cycle-dpi");
    if t == "dpi-up"@ {
        assert(t.len() == 6);
        assert("left"@.len() == 4);
        assert("leftclick"@.len() == 9);
        assert("left-click"@.len() == 10);
        assert("right"@.len() == 5);
        assert("rightclick"@.len() == 10);
        assert("right-click"@.len() == 11);
        assert(t[0] != "middle"@[0]);
        assert("middleclick"@.len() == 11);
        assert("middle-click"@.len() == 12);
        assert("back"@.len() == 4);
        assert("forward"@.len() == 7);
        assert("button6"@.len() == 7);
        assert("button7"@.len() == 7);
        assert("button8"@.len() == 7);
        assert("dpi-cycle"@.len() == 9);
        assert("cycle-dpi"@.len() == 9);
    }
    if t == "dpi-next"@ {
        assert(t.len() == 8);
        assert("left"@.len() == 4);
        assert("leftclick"@.len() == 9);
        assert("left-click"@.len() == 10);
        assert("right"@.len() == 5);
        assert("rightclick"@.len() == 10);
        assert("right-click"@.len() == 11);
        assert("middle"@.len() == 6);
        assert("middleclick"@.len() == 11);
        assert("middle-click"@.len() == 12);
        assert("back"@.len() == 4);
        assert("forward"@.len() == 7);
        assert("button6"@.len() == 7);
        assert("button7"@.len() == 7);
        assert("button8"@.len() == 7);
        assert("dpi-cycle"@.len() == 9);
        assert("cycle-dpi"@.len() == 9);
    }
    if t == "next-dpi"@ {
        assert(t.len() == 8);
        assert("left"@.len() == 4);
        assert("leftclick"@.len() == 9);
        assert("left-click"@.len() == 10);
        assert("right"@.len() == 5);
        assert("rightclick"@.len() == 10);
        assert("right-click"@.len() == 11);
        assert("middle"@.len() == 6);
        assert("middleclick"@.len() == 11);
        assert("middle-click"@.len() == 12);
        assert("back"@.len() == 4);
        assert("forward"@.len() == 7);
        assert("button6"@.len() == 7);
        assert("button7"@.len() == 7);
        assert("button8"@.len() == 7);
        assert("dpi-cycle"@.len() == 9);
        assert("cycle-dpi"@.len() == 9);
    }
}

proof fn lemma_named_target_group_10(t: Seq<char>)
    requires
        t == "dpi-down"@ || t == "dpi-prev"@ || t == "previous-dpi"@,
    ensures
        named_target(t) == Some(seq![0x90u8, 0x04u8, 0xFFu8, 0x00u8]),
{
    reveal_strlit("dpi-down");
    reveal_strlit("dpi-prev");
    reveal_strlit("previous-dpi");
    reveal_strlit("left");
    reveal_strlit("leftclick");
    reveal_strlit("left-click");
    reveal_strlit("right");
    reveal_strlit("rightclick");
    reveal_strlit("right-click");
    reveal_strlit("middle");
    reveal_strlit("middleclick");
    reveal_strlit("middle-click");
    reveal_strlit("back");
    reveal_strlit("forward");
    reveal_strlit("button6");
    reveal_strlit("button7");
    reveal_strlit("button8");
    reveal_strlit("dpi-cycle");
    reveal_strlit("cycle-dpi");
    reveal_strlit("dpi-up");
    reveal_strlit("dpi-next");
    reveal_strlit("next-dpi");
    if t == "dpi-down"@ {
        assert(t.len() == 8);
        assert("left"@.len() == 4);
        assert("leftclick"@.len() == 9);
        assert("left-click"@.len() == 10);
        assert("right"@.len() == 5);
        assert("rightclick"@.len() == 10);
        assert("right-click"@.len() == 11);
        assert("middle"@.len() == 6);
        assert("middleclick"@.len() == 11);
        assert("middle-click"@.len() == 12);
        assert("back"@.len() == 4);
        assert("forward"@.len() == 7);
        assert("button6"@.len() == 7);
        assert("button7"@.len() == 7);
        assert("button8"@.len() == 7);
        assert("dpi-cycle"@.len() == 9);
        assert("cycle-dpi"@.len() == 9);
        assert("dpi-up"@.len() == 6);
        assert(t[4] != "dpi-next"@[4]);
        assert(t[0] != "next-dpi"@[0]);
    }
    if t == "dpi-prev"@ {
        assert(t.len() == 8);
        assert("left"@.len() == 4);
        assert("leftclick"@.len() == 9);
        assert("left-click"@.len() == 10);
        assert("right"@.len() == 5);
        assert("rightclick"@.len() == 10);
        assert("right-click"@.len() == 11);
        assert("middle"@.len() == 6);
        assert("middleclick"@.len() == 11);
        assert("middle-click"@.len() == 12);
        assert("back"@.len() == 4);
        assert("forward"@.len() == 7);
        assert("button6"@.len() == 7);
        assert("button7"@.len() == 7);
        assert("button8"@.len() == 7);
        assert("dpi-cycle"@.len() == 9);
        assert("cycle-dpi"@.len() == 9);
        assert("dpi-up"@.len() == 6);
        assert(t[4] != "dpi-next"@[4]);
        assert(t[0] != "next-dpi"@[0]);
    }
    if t == "previous-dpi"@ {
        assert(t.len() == 12);
        assert("left"@.len() == 4);
        assert("leftclick"@.len() == 9);
        assert("left-click"@.len() == 10);
        assert("right"@.len() == 5);
        assert("rightclick"@.len() == 10);
        assert("right-click"@.len() == 11);
        assert("middle"@.len() == 6);
        assert("middleclick"@.len() == 11);
        assert(t[0] != "middle-click"@[0]);
        assert("back"@.len() == 4);
        assert("forward"@.len() == 7);
        assert("button6"@.len() == 7);
        assert("button7"@.len() == 7);
        assert("button8"@.len() == 7);
        assert("dpi-cycle"@.len() == 9);
        assert("cycle-dpi"@.len() == 9);
        assert("dpi-up"@.len() == 6);
        assert("dpi-next"@.len() == 8);
        assert("next-dpi"@.len() == 8);
    }
}

proof fn lemma_named_target_group_11(t: Seq<char>)
    requires
        t == "dpi-default"@,
    ensures
        named_target(t) == Some(seq![0x90u8, 0x06u8, 0xFFu8, 0x00u8]),
{
    reveal_strlit("dpi-default");
    reveal_strlit("left");
    reveal_strlit("leftclick");
    reveal_strlit("left-click");
    reveal_strlit("right");
    reveal_strlit("rightclick");
    reveal_strlit("right-click");
    reveal_strlit("middle");
    reveal_strlit("middleclick");
    reveal_strlit("middle-click");
    reveal_strlit("back");
    reveal_strlit("forward");
    reveal_strlit("button6");
    reveal_strlit("button7");
    reveal_strlit("button8");
    reveal_strlit("dpi-cycle");
    reveal_strlit("cycle-dpi");
    reveal_strlit("dpi-up");
    reveal_strlit("dpi-next");
    reveal_strlit("next-dpi");
    reveal_strlit("dpi-down");
    reveal_strlit("dpi-prev");
    reveal_strlit("previous-dpi");
    if t == "dpi-default"@ {
        assert(t.len() == 11);
        assert("left"@.len() == 4);
        assert("leftclick"@.len() == 9);
        assert("left-click"@.len() == 10);
        assert("right"@.len() == 5);
        assert("rightclick"@.len() == 10);
        assert(t[0] != "right-click"@[0]);
        assert("middle"@.len() == 6);
        assert(t[0] != "middleclick"@[0]);
        assert("middle-click"@.len() == 12);
        assert("back"@.len() == 4);
        assert("forward"@.len() == 7);
        assert("button6"@.len() == 7);
        assert("button7"@.len() == 7);
        assert("button8"@.len() == 7);
        assert("dpi-cycle"@.len() == 9);
        assert("cycle-dpi"@.len() == 9);
        assert("dpi-up"@.len() == 6);
        assert("dpi-next"@.len() == 8);
        assert("next-dpi"@.len() == 8);
        assert("dpi-down"@.len() == 8);
        assert("dpi-prev"@.len() == 8);
        assert("previous-dpi"@.len() == 12);
    }
}

proof fn lemma_named_target_group_12(t: Seq<char>)
    requires
        t == "nav-back"@ || t == "cmd-["@ || t == "cmd-lbracket"@,
    ensures
        named_target(t) == Some(seq![0x80u8, 0x02u8, 0x08u8, 0x2Fu8]),
{
    reveal_strlit("nav-back");
    reveal_strlit("cmd-[");
    reveal_strlit("cmd-lbracket");
    reveal_strlit("left");
    reveal_strlit("leftclick");
    reveal_strlit("left-click");
    reveal_strlit("right");
    reveal_strlit("rightclick");
    reveal_strlit("right-click");
    reveal_strlit("middle");
    reveal_strlit("middleclick");
    reveal_strlit("middle-click");
    reveal_strlit("back");
    reveal_strlit("forward");
    reveal_strlit("button6");
    reveal_strlit("button7");
    reveal_strlit("button8");
    reveal_strlit("dpi-cycle");
    reveal_strlit("cycle-dpi");
    reveal_strlit("dpi-up");
    reveal_strlit("dpi-next");
    reveal_strlit("next-dpi");
    reveal_strlit("dpi-down");
    reveal_strlit("dpi-prev");
    reveal_strlit("previous-dpi");
    reveal_strlit("dpi-default");
    if t == "nav-back"@ {
        assert(t.len() == 8);
        assert("left"@.len() == 4);
        assert("leftclick"@.len() == 9);
        assert("left-click"@.len() == 10);
        assert("right"@.len() == 5);
        assert("rightclick"@.len() == 10);
        assert("right-click"@.len() == 11);
        assert("middle"@.len() == 6);
        assert("middleclick"@.len() == 11);
        assert("middle-click"@.len() == 12);
        assert("back"@.len() == 4);
        assert("forward"@.len() == 7);
        assert("button6"@.len() == 7);
        assert("button7"@.len() == 7);
        assert("button8"@.len() == 7);
        assert("dpi-cycle"@.len() == 9);
        assert("cycle-dpi"@.len() == 9);
        assert("dpi-up"@.len() == 6);
        assert(t[0] != "dpi-next"@[0]);
        assert(t[1] != "next-dpi"@[1]);
        assert(t[0] != "dpi-down"@[0]);
        assert(t[0] != "dpi-prev"@[0]);
        assert("previous-dpi"@.len() == 12);
        assert("dpi-default"@.len() == 11);
    }
    if t == "cmd-["@ {
        assert(t.len() == 5);
        assert("left"@.len() == 4);
        assert("leftclick"@.len() == 9);
        assert("left-click"@.len() == 10);
        assert(t[0] != "right"@[0]);
        assert("rightclick"@.len() == 10);
        assert("right-click"@.len() == 11);
        assert("middle"@.len() == 6);
        assert("middleclick"@.len() == 11);
        assert("middle-click"@.len() == 12);
        assert("back"@.len() == 4);
        assert("forward"@.len() == 7);
        assert("button6"@.len() == 7);
        assert("button7"@.len() == 7);
        assert("button8"@.len() == 7);
        assert("dpi-cycle"@.len() == 9);
        assert("cycle-dpi"@.len() == 9);
        assert("dpi-up"@.len() == 6);
        assert("dpi-next"@.len() == 8);
        assert("next-dpi"@.len() == 8);
        assert("dpi-down"@.len() == 8);
        assert("dpi-prev"@.len() == 8);
        assert("previous-dpi"@.len() == 12);
        assert("dpi-default"@.len() == 11);
    }
    if t == "cmd-lbracket"@ {
        assert(t.len() == 12);
        assert("left"@.len() == 4);
        assert("leftclick"@.len() == 9);
        assert("left-click"@.len() == 10);
        assert("right"@.len() == 5);
        assert("rightclick"@.len() == 10);
        assert("right-click"@.len() == 11);
        assert("middle"@.len() == 6);
        assert("middleclick"@.len() == 11);
        assert(t[0] != "middle-click"@[0]);
        assert("back"@.len() == 4);
        assert("forward"@.len() == 7);
        assert("button6"@.len() == 7);
        assert("button7"@.len() == 7);
        assert("button8"@.len() == 7);
        assert("dpi-cycle"@.len() == 9);
        assert("cycle-dpi"@.len() == 9);
        assert("dpi-up"@.len() == 6);
        assert("dpi-next"@.len() == 8);
        assert("next-dpi"@.len() == 8);
        assert("dpi-down"@.len() == 8);
        assert("dpi-prev"@.len() == 8);
        assert(t[0] != "previous-dpi"@[0]);
        assert("dpi-default"@.len() == 11);
    }
}

proof fn lemma_named_target_group_13(t: Seq<char>)
    requires
        t == "nav-forward"@ || t == "cmd-]"@ || t == "cmd-rbracket"@,
    ensures
        named_target(t) == Some(seq![0x80u8, 0x02u8, 0x08u8, 0x30u8]),
{
    reveal_strlit("nav-forward");
    reveal_strlit("cmd-]");
    reveal_strlit("cmd-rbracket");
    reveal_strlit("left");
    reveal_strlit("leftclick");
    reveal_strlit("left-click");
    reveal_strlit("right");
    reveal_strlit("rightclick");
    reveal_strlit("right-click");
    reveal_strlit("middle");
    reveal_strlit("middleclick");
    reveal_strlit("middle-click");
    reveal_strlit("back");
    reveal_strlit("forward");
    reveal_strlit("button6");
    reveal_strlit("button7");
    reveal_strlit("button8");
    reveal_strlit("dpi-cycle");
    reveal_strlit("cycle-dpi");
    reveal_strlit("dpi-up");
    reveal_strlit("dpi-next");
    reveal_strlit("next-dpi");
    reveal_strlit("dpi-down");
    reveal_strlit("dpi-prev");
    reveal_strlit("previous-dpi");
    reveal_strlit("dpi-default");
    reveal_strlit("nav-back");
    reveal_strlit("cmd-[");
    reveal_strlit("cmd-lbracket");
    if t == "nav-forward"@ {
        assert(t.len() == 11);
        assert("left"@.len() == 4);
        assert("leftclick"@.len() == 9);
        assert("left-click"@.len() == 10);
        assert("right"@.len() == 5);
        assert("rightclick"@.len() == 10);
        assert(t[0] != "right-click"@[0]);
        assert("middle"@.len() == 6);
        assert(t[0] != "middleclick"@[0]);
        assert("middle-click"@.len() == 12);
        assert("back"@.len() == 4);
        assert("forward"@.len() == 7);
        assert("button6"@.len() == 7);
        assert("button7"@.len() == 7);
        assert("button8"@.len() == 7);
        assert("dpi-cycle"@.len() == 9);
        assert("cycle-dpi"@.len() == 9);
        assert("dpi-up"@.len() == 6);
        assert("dpi-next"@.len() == 8);
        assert("next-dpi"@.len() == 8);
        assert("dpi-down"@.len() == 8);
        assert("dpi-prev"@.len() == 8);
        assert("previous-dpi"@.len() == 12);
        assert(t[0] != "dpi-default"@[0]);
        assert("nav-back"@.len() == 8);
        assert("cmd-["@.len() == 5);
        assert("cmd-lbracket"@.len() == 12);
    }
    if t == "cmd-]"@ {
        assert(t.len() == 5);
        assert("left"@.len() == 4);
        assert("leftclick"@.len() == 9);
        assert("left-click"@.len() == 10);
        assert(t[0] != "right"@[0]);
        assert("rightclick"@.len() == 10);
        assert("right-click"@.len() == 11);
        assert("middle"@.len() == 6);
        assert("middleclick"@.len() == 11);
        assert("middle-click"@.len() == 12);
        assert("back"@.len() == 4);
        assert("forward"@.len() == 7);
        assert("button6"@.len() == 7);
        assert("button7"@.len() == 7);
        assert("button8"@.len() == 7);
        assert("dpi-cycle"@.len() == 9);
        assert("cycle-dpi"@.len() == 9);
        assert("dpi-up"@.len() == 6);
        assert("dpi-next"@.len() == 8);
        assert("next-dpi"@.len() == 8);
        assert("dpi-down"@.len() == 8);
        assert("dpi-prev"@.len() == 8);
        assert("previous-dpi"@.len() == 12);
        assert("dpi-default"@.len() == 11);
        assert("nav-back"@.len() == 8);
        assert(t[4] != "cmd-["@[4]);
        assert("cmd-lbracket"@.len() == 12);
    }
    if t == "cmd-rbracket"@ {
        assert(t.len() == 12);
        assert("left"@.len() == 4);
        assert("leftclick"@.len() == 9);
        assert("left-click"@.len() == 10);
        assert("right"@.len() == 5);
        assert("rightclick"@.len() == 10);
        assert("right-click"@.len() == 11);
        assert("middle"@.len() == 6);
        assert("middleclick"@.len() == 11);
        assert(t[0] != "middle-click"@[0]);
        assert("back"@.len() == 4);
        assert("forward"@.len() == 7);
        assert("button6"@.len() == 7);
        assert("button7"@.len() == 7);
        assert("button8"@.len() == 7);
        assert("dpi-cycle"@.len() == 9);
        assert("cycle-dpi"@.len() == 9);
        assert("dpi-up"@.len() == 6);
        assert("dpi-next"@.len() == 8);
        assert("next-dpi"@.len() == 8);
        assert("dpi-down"@.len() == 8);
        assert("dpi-prev"@.len() == 8);
        assert(t[0] != "previous-dpi"@[0]);
        assert("dpi-default"@.len() == 11);
        assert("nav-back"@.len() == 8);
        assert("cmd-["@.len() == 5);
        assert(t[4] != "cmd-lbracket"@[4]);
    }
}

proof fn lemma_named_target_group_14(t: Seq<char>)
    requires
        t == "ac-back"@,
    ensures
        named_target(t) == Some(seq![0x80u8, 0x03u8, 0x02u8, 0x24u8]),
{
    reveal_strlit("ac-back");
    reveal_strlit("left");
    reveal_strlit("leftclick");
    reveal_strlit("left-click");
    reveal_strlit("right");
    reveal_strlit("rightclick");
    reveal_strlit("right-click");
    reveal_strlit("middle");
    reveal_strlit("middleclick");
    reveal_strlit("middle-click");
    reveal_strlit("back");
    reveal_strlit("forward");
    reveal_strlit("button6");
    reveal_strlit("button7");
    reveal_strlit("button8");
    reveal_strlit("dpi-cycle");
    reveal_strlit("cycle-dpi");
    reveal_strlit("dpi-up");
    reveal_strlit("dpi-next");
    reveal_strlit("next-dpi");
    reveal_strlit("dpi-down");
    reveal_strlit("dpi-prev");
    reveal_strlit("previous-dpi");
    reveal_strlit("dpi-default");
    reveal_strlit("nav-back");
    reveal_strlit("cmd-[");
    reveal_strlit("cmd-lbracket");
    reveal_strlit("nav-forward");
    reveal_strlit("cmd-]");
    reveal_strlit("cmd-rbracket");
    if t == "ac-back"@ {
        assert(t.len() == 7);
        assert("left"@.len() == 4);
        assert("leftclick"@.len() == 9);
        assert("left-click"@.len() == 10);
        assert("right"@.len() == 5);
        assert("rightclick"@.len() == 10);
        assert("right-click"@.len() == 11);
        assert("middle"@.len() == 6);
        assert("middleclick"@.len() == 11);
        assert("middle-click"@.len() == 12);
        assert("back"@.len() == 4);
        assert(t[0] != "forward"@[0]);
        assert(t[0] != "button6"@[0]);
        assert(t[0] != "button7"@[0]);
        assert(t[0] != "button8"@[0]);
        assert("dpi-cycle"@.len() == 9);
        assert("cycle-dpi"@.len() == 9);
        assert("dpi-up"@.len() == 6);
        assert("dpi-next"@.len() == 8);
        assert("next-dpi"@.len() == 8);
        assert("dpi-down"@.len() == 8);
        assert("dpi-prev"@.len() == 8);
        assert("previous-dpi"@.len() == 12);
        assert("dpi-default"@.len() == 11);
        assert("nav-back"@.len() == 8);
        assert("cmd-["@.len() == 5);
        assert("cmd-lbracket"@.len() == 12);
        assert("nav-forward"@.len() == 11);
        assert("cmd-]"@.len() == 5);
        assert("cmd-rbracket"@.len() == 12);
    }
}

proof fn lemma_named_target_group_15(t: Seq<char>)
    requires
        t == "ac-forward"@,
    ensures
        named_target(t) == Some(seq![0x80u8, 0x03u8, 0x02u8, 0x25u8]),
{
    reveal_strlit("ac-forward");
    reveal_strlit("left");
    reveal_strlit("leftclick");
    reveal_strlit("left-click");
    reveal_strlit("right");
    reveal_strlit("rightclick");
    reveal_strlit("right-click");
    reveal_strlit("middle");
    reveal_strlit("middleclick");
    reveal_strlit("middle-click");
    reveal_strlit("back");
    reveal_strlit("forward");
    reveal_strlit("button6");
    reveal_strlit("button7");
    reveal_strlit("button8");
    reveal_strlit("dpi-cycle");
    reveal_strlit("cycle-dpi");
    reveal_strlit("dpi-up");
    reveal_strlit("dpi-next");
    reveal_strlit("next-dpi");
    reveal_strlit("dpi-down");
    reveal_strlit("dpi-prev");
    reveal_strlit("previous-dpi");
    reveal_strlit("dpi-default");
    reveal_strlit("nav-back");
    reveal_strlit("cmd-[");
    reveal_strlit("cmd-lbracket");
    reveal_strlit("nav-forward");
    reveal_strlit("cmd-]");
    reveal_strlit("cmd-rbracket");
    reveal_strlit("ac-back");
    if t == "ac-forward"@ {
        assert(t.len() == 10);
        assert("left"@.len() == 4);
        assert("leftclick"@.len() == 9);
        assert(t[0] != "left-click"@[0]);
        assert("right"@.len() == 5);
        assert(t[0] != "rightclick"@[0]);
        assert("right-click"@.len() == 11);
        assert("middle"@.len() == 6);
        assert("middleclick"@.len() == 11);
        assert("middle-click"@.len() == 12);
        assert("back"@.len() == 4);
        assert("forward"@.len() == 7);
        assert("button6"@.len() == 7);
        assert("button7"@.len() == 7);
        assert("button8"@.len() == 7);
        assert("dpi-cycle"@.len() == 9);
        assert("cycle-dpi"@.len() == 9);
        assert("dpi-up"@.len() == 6);
        assert("dpi-next"@.len() == 8);
        assert("next-dpi"@.len() == 8);
        assert("dpi-down"@.len() == 8);
        assert("dpi-prev"@.len() == 8);
        assert("previous-dpi"@.len() == 12);
        assert("dpi-default"@.len() == 11);
        assert("nav-back"@.len() == 8);
        assert("cmd-["@.len() == 5);
        assert("cmd-lbracket"@.len() == 12);
        assert("nav-forward"@.len() == 11);
        assert("cmd-]"@.len() == 5);
        assert("cmd-rbracket"@.len() == 12);
        assert("ac-back"@.len() == 7);
    }
}

proof fn lemma_named_target_group_16(t: Seq<char>)
    requires
        t == "disable"@ || t == "none"@ || t == "off"@,
    ensures
        named_target(t) == Some(seq![0xFFu8, 0xFFu8, 0xFFu8, 0xFFu8]),
{
    reveal_strlit("disable");
    reveal_strlit("none");
    reveal_strlit("off");
    reveal_strlit("left");
    reveal_strlit("leftclick");
    reveal_strlit("left-click");
    reveal_strlit("right");
    reveal_strlit("rightclick");
    reveal_strlit("right-click");
    reveal_strlit("middle");
    reveal_strlit("middleclick");
    reveal_strlit("middle-click");
    reveal_strlit("back");
    reveal_strlit("forward");
    reveal_strlit("button6");
    reveal_strlit("button7");
    reveal_strlit("button8");
    reveal_strlit("dpi-cycle");
    reveal_strlit("cycle-dpi");
    reveal_strlit("dpi-up");
    reveal_strlit("dpi-next");
    reveal_strlit("next-dpi");
    reveal_strlit("dpi-down");
    reveal_strlit("dpi-prev");
    reveal_strlit("previous-dpi");
    reveal_strlit("dpi-default");
    reveal_strlit("nav-back");
    reveal_strlit("cmd-[");
    reveal_strlit("cmd-lbracket");
    reveal_strlit("nav-forward");
    reveal_strlit("cmd-]");
    reveal_strlit("cmd-rbracket");
    reveal_strlit("ac-back");
    reveal_strlit("ac-forward");
    if t == "disable"@ {
        assert(t.len() == 7);
        assert("left"@.len() == 4);
        assert("leftclick"@.len() == 9);
        assert("left-click"@.len() == 10);
        assert("right"@.len() == 5);
        assert("rightclick"@.len() == 10);
        assert("right-click"@.len() == 11);
        assert("middle"@.len() == 6);
        assert("middleclick"@.len() == 11);
        assert("middle-click"@.len() == 12);
        assert("back"@.len() == 4);
        assert(t[0] != "forward"@[0]);
        assert(t[0] != "button6"@[0]);
        assert(t[0] != "button7"@[0]);
        assert(t[0] != "button8"@[0]);
        assert("dpi-cycle"@.len() == 9);
        assert("cycle-dpi"@.len() == 9);
        assert("dpi-up"@.len() == 6);
        assert("dpi-next"@.len() == 8);
        assert("next-dpi"@.len() == 8);
        assert("dpi-down"@.len() == 8);
        assert("dpi-prev"@.len() == 8);
        assert("previous-dpi"@.len() == 12);
        assert("dpi-default"@.len() == 11);
        assert("nav-back"@.len() == 8);
        assert("cmd-["@.len() == 5);
        assert("cmd-lbracket"@.len() == 12);
        assert("nav-forward"@.len() == 11);
        assert("cmd-]"@.len() == 5);
        assert("cmd-rbracket"@.len() == 12);
        assert(t[0] != "ac-back"@[0]);
        assert("ac-forward"@.len() == 10);
    }
    if t == "none"@ {
        assert(t.len() == 4);
        assert(t[0] != "left"@[0]);
        assert("leftclick"@.len() == 9);
        assert("left-click"@.len() == 10);
        assert("right"@.len() == 5);
        assert("rightclick"@.len() == 10);
        assert("right-click"@.len() == 11);
        assert("middle"@.len() == 6);
        assert("middleclick"@.len() == 11);
        assert("middle-click"@.len() == 12);
        assert(t[0] != "back"@[0]);
        assert("forward"@.len() == 7);
        assert("button6"@.len() == 7);
        assert("button7"@.len() == 7);
        assert("button8"@.len() == 7);
        assert("dpi-cycle"@.len() == 9);
        assert("cycle-dpi"@.len() == 9);
        assert("dpi-up"@.len() == 6);
        assert("dpi-next"@.len() == 8);
        assert("next-dpi"@.len() == 8);
        assert("dpi-down"@.len() == 8);
        assert("dpi-prev"@.len() == 8);
        assert("previous-dpi"@.len() == 12);
        assert("dpi-default"@.len() == 11);
        assert("nav-back"@.len() == 8);
        assert("cmd-["@.len() == 5);
        assert("cmd-lbracket"@.len() == 12);
        assert("nav-forward"@.len() == 11);
        assert("cmd-]"@.len() == 5);
        assert("cmd-rbracket"@.len() == 12);
        assert("ac-back"@.len() == 7);
        assert("ac-forward"@.len() == 10);
    }
    if t == "off"@ {
        assert(t.len() == 3);
        assert("left"@.len() == 4);
        assert("leftclick"@.len() == 9);
        assert("left-click"@.len() == 10);
        assert("right"@.len() == 5);
        assert("rightclick"@.len() == 10);
        assert("right-click"@.len() == 11);
        assert("middle"@.len() == 6);
        assert("middleclick"@.len() == 11);
        assert("middle-click"@.len() == 12);
        assert("back"@.len() == 4);
        assert("forward"@.len() == 7);
        assert("button6"@.len() == 7);
        assert("button7"@.len() == 7);
        assert("button8"@.len() == 7);
        assert("dpi-cycle"@.len() == 9);
        assert("cycle-dpi"@.len() == 9);
        assert("dpi-up"@.len() == 6);
        assert("dpi-next"@.len() == 8);
        assert("next-dpi"@.len() == 8);
        assert("dpi-down"@.len() == 8);
        assert("dpi-prev"@.len() == 8);
        assert("previous-dpi"@.len() == 12);
        assert("dpi-default"@.len() == 11);
        assert("nav-back"@.len() == 8);
        assert("cmd-["@.len() == 5);
        assert("cmd-lbracket"@.len() == 12);
        assert("nav-forward"@.len() == 11);
        assert("cmd-]"@.len() == 5);
        assert("cmd-rbracket"@.len() == 12);
        assert("ac-back"@.len() == 7);
        assert("ac-forward"@.len() == 10);
    }
}

/// Each fixed target name, in any ASCII case, stands for its own spec:
/// left, right, middle, back, forward and button6..8 send mouse masks
/// 0x01, 0x02, 0x04, 0x08, 0x10, 0x20, 0x40, 0x80; the DPI names run
/// device functions 0x5 (cycle), 0x3 (up), 0x4 (down), 0x6 (default);
/// nav-back/nav-forward send Cmd+[ / Cmd+]; ac-back/ac-forward send
/// consumer codes 0x0224/0x0225; disable/none/off disable the button.
/// Every alias of a name gives the same spec.
pub proof fn law_named_targets_parse(s: Seq<char>)
    ensures
        (lower(s) == "left"@ || lower(s) == "leftclick"@ || lower(s) == "left-click"@) ==> target_of(s) == Ok::<Seq<u8>, Seq<char>>(seq![0x80u8, 0x01u8, 0x00u8, 0x01u8]),
        (lower(s) == "right"@ || lower(s) == "rightclick"@ || lower(s) == "right-click"@) ==> target_of(s) == Ok::<Seq<u8>, Seq<char>>(seq![0x80u8, 0x01u8, 0x00u8, 0x02u8]),
        (lower(s) == "middle"@ || lower(s) == "middleclick"@ || lower(s) == "middle-click"@) ==> target_of(s) == Ok::<Seq<u8>, Seq<char>>(seq![0x80u8, 0x01u8, 0x00u8, 0x04u8]),
        lower(s) == "back"@ ==> target_of(s) == Ok::<Seq<u8>, Seq<char>>(seq![0x80u8, 0x01u8, 0x00u8, 0x08u8]),
        lower(s) == "forward"@ ==> target_of(s) == Ok::<Seq<u8>, Seq<char>>(seq![0x80u8, 0x01u8, 0x00u8, 0x10u8]),
        lower(s) == "button6"@ ==> target_of(s) == Ok::<Seq<u8>, Seq<char>>(seq![0x80u8, 0x01u8, 0x00u8, 0x20u8]),
        lower(s) == "button7"@ ==> target_of(s) == Ok::<Seq<u8>, Seq<char>>(seq![0x80u8, 0x01u8, 0x00u8, 0x40u8]),
        lower(s) == "button8"@ ==> target_of(s) == Ok::<Seq<u8>, Seq<char>>(seq![0x80u8, 0x01u8, 0x00u8, 0x80u8]),
        (lower(s) == "dpi-cycle"@ || lower(s) == "cycle-dpi"@) ==> target_of(s) == Ok::<Seq<u8>, Seq<char>>(seq![0x90u8, 0x05u8, 0xFFu8, 0x00u8]),
        (lower(s) == "dpi-up"@ || lower(s) == "dpi-next"@ || lower(s) == "next-dpi"@) ==> target_of(s) == Ok::<Seq<u8>, Seq<char>>(seq![0x90u8, 0x03u8, 0xFFu8, 0x00u8]),
        (lower(s) == "dpi-down"@ || lower(s) == "dpi-prev"@ || lower(s) == "previous-dpi"@) ==> target_of(s) == Ok::<Seq<u8>, Seq<char>>(seq![0x90u8, 0x04u8, 0xFFu8, 0x00u8]),
        lower(s) == "dpi-default"@ ==> target_of(s) == Ok::<Seq<u8>, Seq<char>>(seq![0x90u8, 0x06u8, 0xFFu8, 0x00u8]),
        (lower(s) == "nav-back"@ || lower(s) == "cmd-["@ || lower(s) == "cmd-lbracket"@) ==> target_of(s) == Ok::<Seq<u8>, Seq<char>>(seq![0x80u8, 0x02u8, 0x08u8, 0x2Fu8]),
        (lower(s) == "nav-forward"@ || lower(s) == "cmd-]"@ || lower(s) == "cmd-rbracket"@) ==> target_of(s) == Ok::<Seq<u8>, Seq<char>>(seq![0x80u8, 0x02u8, 0x08u8, 0x30u8]),
        lower(s) == "ac-back"@ ==> target_of(s) == Ok::<Seq<u8>, Seq<char>>(seq![0x80u8, 0x03u8, 0x02u8, 0x24u8]),
        lower(s) == "ac-forward"@ ==> target_of(s) == Ok::<Seq<u8>, Seq<char>>(seq![0x80u8, 0x03u8, 0x02u8, 0x25u8]),
        (lower(s) == "disable"@ || lower(s) == "none"@ || lower(s) == "off"@) ==> target_of(s) == Ok::<Seq<u8>, Seq<char>>(seq![0xFFu8, 0xFFu8, 0xFFu8, 0xFFu8]),
{
    let t = lower(s);
    if t == "left"@ || t == "leftclick"@ || t == "left-click"@ {
        lemma_named_target_group_0(t);
    }
    if t == "right"@ || t == "rightclick"@ || t == "right-click"@ {
        lemma_named_target_group_1(t);
    }
    if t == "middle"@ || t == "middleclick"@ || t == "middle-click"@ {
        lemma_named_target_group_2(t);
    }
    if t == "back"@ {
        lemma_named_target_group_3(t);
    }
    if t == "forward"@ {
        lemma_named_target_group_4(t);
    }
    if t == "button6"@ {
        lemma_named_target_group_5(t);
    }
    if t == "button7"@ {
        lemma_named_target_group_6(t);
    }
    if t == "button8"@ {
        lemma_named_target_group_7(t);
    }
    if t == "dpi-cycle"@ || t == "cycle-dpi"@ {
        lemma_named_target_group_8(t);
    }
    if t == "dpi-up"@ || t == "dpi-next"@ || t == "next-dpi"@ {
        lemma_named_target_group_9(t);
    }
    if t == "dpi-down"@ || t == "dpi-prev"@ || t == "previous-dpi"@ {
        lemma_named_target_group_10(t);
    }
    if t == "dpi-default"@ {
        lemma_named_target_group_11(t);
    }
    if t == "nav-back"@ || t == "cmd-["@ || t == "cmd-lbracket"@ {
        lemma_named_target_group_12(t);
    }
    if t == "nav-forward"@ || t == "cmd-]"@ || t == "cmd-rbracket"@ {
        lemma_named_target_group_13(t);
    }
    if t == "ac-back"@ {
        lemma_named_target_group_14(t);
    }
    if t == "ac-forward"@ {
        lemma_named_target_group_15(t);
    }
    if t == "disable"@ || t == "none"@ || t == "off"@ {
        lemma_named_target_group_16(t);
    }
}

} // verus!
