use lowtech::buttons::{decode_button, parse_target, spec_valid};

fn ok(s: &str) -> [u8; 4] {
    parse_target(s).expect("target should parse")
}

fn err(s: &str) -> String {
    parse_target(s).expect_err("target should be refused")
}

#[test]
fn named_mouse_targets() {
    assert_eq!(ok("left"), [0x80, 0x01, 0x00, 0x01]);
    assert_eq!(ok("right-click"), [0x80, 0x01, 0x00, 0x02]);
    assert_eq!(ok("middle"), [0x80, 0x01, 0x00, 0x04]);
    assert_eq!(ok("back"), [0x80, 0x01, 0x00, 0x08]);
    assert_eq!(ok("forward"), [0x80, 0x01, 0x00, 0x10]);
    assert_eq!(ok("button8"), [0x80, 0x01, 0x00, 0x80]);
}

#[test]
fn target_names_ignore_ascii_case() {
    assert_eq!(ok("LEFT"), [0x80, 0x01, 0x00, 0x01]);
    assert_eq!(ok("Dpi-Cycle"), [0x90, 0x05, 0xFF, 0x00]);
}

#[test]
fn named_function_targets() {
    assert_eq!(ok("dpi-cycle"), [0x90, 0x05, 0xFF, 0x00]);
    assert_eq!(ok("dpi-up"), [0x90, 0x03, 0xFF, 0x00]);
    assert_eq!(ok("previous-dpi"), [0x90, 0x04, 0xFF, 0x00]);
    assert_eq!(ok("dpi-default"), [0x90, 0x06, 0xFF, 0x00]);
}

#[test]
fn browser_navigation_targets() {
    assert_eq!(ok("ac-back"), [0x80, 0x03, 0x02, 0x24]);
    assert_eq!(ok("ac-forward"), [0x80, 0x03, 0x02, 0x25]);
    assert_eq!(ok("nav-back"), [0x80, 0x02, 0x08, 0x2F]);
    assert_eq!(ok("cmd-]"), [0x80, 0x02, 0x08, 0x30]);
}

#[test]
fn disable_targets() {
    assert_eq!(ok("disable"), [0xFF; 4]);
    assert_eq!(ok("none"), [0xFF; 4]);
    assert_eq!(ok("off"), [0xFF; 4]);
}

#[test]
fn consumer_targets() {
    assert_eq!(ok("consumer:00e9"), [0x80, 0x03, 0x00, 0xE9]);
    assert_eq!(ok("CONSUMER:E9"), [0x80, 0x03, 0x00, 0xE9]);
    assert_eq!(ok("consumer:+ff"), [0x80, 0x03, 0x00, 0xFF]);
    assert_eq!(err("consumer:zz"), "bad consumer code 'zz'");
    assert_eq!(err("consumer:10000"), "bad consumer code '10000'");
    assert_eq!(err("consumer:"), "bad consumer code ''");
}

#[test]
fn key_targets() {
    assert_eq!(ok("key:08:2f"), [0x80, 0x02, 0x08, 0x2F]);
    assert_eq!(ok("key:0:4"), [0x80, 0x02, 0x00, 0x04]);
    assert_eq!(err("key:zz:01"), "bad modifier hex");
    assert_eq!(err("key:01:zz"), "bad keycode hex");
    assert_eq!(err("key:100:01"), "bad modifier hex");
}

#[test]
fn raw_targets() {
    assert_eq!(ok("80010004"), [0x80, 0x01, 0x00, 0x04]);
    assert_eq!(ok("8001 0004"), [0x80, 0x01, 0x00, 0x04]);
    assert_eq!(ok(" 90 05 FF 00 "), [0x90, 0x05, 0xFF, 0x00]);
}

#[test]
fn unknown_targets() {
    let m = err("bogus");
    assert_eq!(
        m,
        "unknown target 'bogus'. Use: left right middle back forward button6-8, \
         dpi-cycle dpi-up dpi-down dpi-default, nav-back nav-forward ac-back ac-forward, \
         disable, consumer:XXXX, key:MM:KK, or a raw 8-hex-digit spec."
    );
    assert!(err("key:1:2:3").starts_with("unknown target 'key:1:2:3'"));
    assert!(err("8001000").starts_with("unknown target"));
    assert!(err("8001000g").starts_with("unknown target"));
}

#[test]
fn decoding_names_what_a_target_sends() {
    assert_eq!(decode_button(&ok("middle")), "Middle click");
    assert_eq!(decode_button(&ok("ac-back")), "AC Back (consumer)");
    assert_eq!(decode_button(&ok("nav-forward")), "Cmd+] (browser Forward)");
    assert_eq!(decode_button(&ok("dpi-cycle")), "cycle DPI");
    assert_eq!(decode_button(&ok("disable")), "disabled");
    assert_eq!(decode_button(&ok("key:01:04")), "key 0x04 (modifiers 0x01)");
    assert_eq!(decode_button(&ok("consumer:e9")), "consumer 0x00E9");
}

#[test]
fn decoding_other_behaviors() {
    assert_eq!(decode_button(&[0x80, 0x00, 0x00, 0x00]), "no action");
    assert_eq!(decode_button(&[0x80, 0x05, 0x00, 0x01]), "send? [80, 05, 00, 01]");
    assert_eq!(decode_button(&[0x10, 0x00, 0x00, 0x00]), "macro (behavior 1)");
    assert_eq!(decode_button(&[0x2F, 0x00, 0x00, 0x00]), "macro (behavior 2)");
    assert_eq!(decode_button(&[0xA0, 0x01, 0xFF, 0x0C]), "raw [A0, 01, FF, 0C]");
    assert_eq!(decode_button(&[0x90, 0x40, 0x00, 0x00]), "function?");
}

#[test]
fn spec_validity() {
    assert!(spec_valid(&[0xFF; 4]));
    assert!(spec_valid(&[0x80, 0x03, 0x00, 0x00]));
    assert!(!spec_valid(&[0x80, 0x04, 0x00, 0x00]));
    assert!(spec_valid(&[0x90, 0x11, 0x00, 0x00]));
    assert!(!spec_valid(&[0x90, 0x12, 0x00, 0x00]));
    assert!(!spec_valid(&[0x10, 0x00, 0x00, 0x00]));
    for t in ["left", "dpi-up", "ac-forward", "nav-back", "disable", "consumer:1234", "key:ff:ff"] {
        assert!(spec_valid(&ok(t)), "{t}");
    }
}

#[test]
fn hex_targets_parse_back() {
    for c in [0x0000u16, 0x0224, 0x00B5, 0xFFFF, 0x1A2B] {
        assert_eq!(ok(&format!("consumer:{c:04x}")), [0x80, 0x03, (c >> 8) as u8, c as u8]);
        assert_eq!(ok(&format!("consumer:{c:04X}")), [0x80, 0x03, (c >> 8) as u8, c as u8]);
    }
    for (m, k) in [(0u8, 0u8), (0x08, 0x2F), (0xFF, 0x30), (0xA0, 0x0B)] {
        assert_eq!(ok(&format!("key:{m:02x}:{k:02x}")), [0x80, 0x02, m, k]);
    }
    for b in [[0x80u8, 0x01, 0x00, 0x04], [0xFF; 4], [0x12, 0xAB, 0xCD, 0xEF], [0; 4]] {
        let s = format!("{:02x}{:02x}{:02x}{:02x}", b[0], b[1], b[2], b[3]);
        assert_eq!(ok(&s), b);
    }
    assert_eq!(ok("80010004"), [0x80, 0x01, 0x00, 0x04]);
}

#[test]
fn validity_agrees_with_descriptions() {
    for b0 in [0x00u8, 0x10, 0x20, 0x30, 0x7F, 0x80, 0x8F, 0x90, 0x9A, 0xA0, 0xFF] {
        for b1 in [0x00u8, 0x01, 0x02, 0x03, 0x04, 0x11, 0x12, 0xFF] {
            for tail in [[0x00u8, 0x01], [0x08, 0x2F], [0xFF, 0xFF], [0x02, 0x24]] {
                let spec = [b0, b1, tail[0], tail[1]];
                let d = decode_button(&spec);
                let marked = d == "function?"
                    || d.starts_with("macro")
                    || d.starts_with("raw")
                    || d.starts_with("send?");
                assert_eq!(spec_valid(&spec), !marked, "{spec:02X?} reads {d}");
            }
        }
    }
}
