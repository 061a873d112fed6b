use lowtech::cli::{
    interface_label, is_hidpp_interface, is_mouse_interface,
    decode_buttons, feature_label, hex, is_receiver, no_device_error, parse_slot, probe_slots,
    selects, slot_label, hidpp_paths, Interface, DEFAULT_SLOTS,
};
use lowtech::hidpp::{Device, Error, Protocol};

#[test]
fn slots() {
    assert_eq!(parse_slot(None), None);
    assert_eq!(parse_slot(Some("ff")), Some(0xFF));
    assert_eq!(parse_slot(Some("FF")), Some(0xFF));
    assert_eq!(parse_slot(Some("2")), Some(2));
    assert_eq!(parse_slot(Some("+3")), Some(3));
    assert_eq!(parse_slot(Some("255")), Some(255));
    assert_eq!(parse_slot(Some("256")), None);
    assert_eq!(parse_slot(Some("x")), None);
    assert_eq!(parse_slot(Some("")), None);
    assert_eq!(parse_slot(Some(" 1")), None);
}

#[test]
fn probe_orders() {
    assert_eq!(probe_slots(Some(3)), vec![3]);
    assert_eq!(probe_slots(None), DEFAULT_SLOTS.to_vec());
    assert_eq!(probe_slots(None), vec![1, 2, 3, 4, 5, 6, 0xFF]);
}

#[test]
fn receivers() {
    let receiver = Device::new(0xFF, false, Protocol { major: 1, minor: 0 });
    let direct = Device::new(0xFF, true, Protocol { major: 4, minor: 2 });
    let paired = Device::new(1, false, Protocol { major: 1, minor: 0 });
    assert!(is_receiver(&receiver));
    assert!(!is_receiver(&direct));
    assert!(!is_receiver(&paired));
    assert!(!selects(None, &receiver));
    assert!(selects(Some(0xFF), &receiver));
    assert!(selects(None, &direct));
}

#[test]
fn labels() {
    assert_eq!(slot_label(0xFF), "direct");
    assert_eq!(slot_label(1), "slot 1");
    assert_eq!(feature_label(0x8100), "ONBOARD_PROFILES");
    assert_eq!(feature_label(0x1234), "unknown:1234");
    assert_eq!(feature_label(0xABCD), "unknown:ABCD");
}

#[test]
fn selection_errors() {
    assert!(matches!(no_device_error(Some(3)), Error::Protocol(m) if m == "no device reachable at slot 3"));
    assert!(matches!(no_device_error(None), Error::Protocol(m) if m == "no reachable Logitech HID++ device found"));
}

#[test]
fn pressed_buttons() {
    assert!(decode_buttons(0).is_empty());
    assert_eq!(decode_buttons(0x01), vec!["Left"]);
    assert_eq!(decode_buttons(0x05), vec!["Left", "Middle"]);
    assert_eq!(decode_buttons(0x18), vec!["Back", "Forward"]);
    assert_eq!(decode_buttons(0xFF).len(), 8);
    assert_eq!(decode_buttons(0x80), vec!["Button8"]);
}

#[test]
fn hex_dump() {
    assert_eq!(hex(&[]), "");
    assert_eq!(hex(&[0x0A]), "0A");
    assert_eq!(hex(&[0x02, 0xFF, 0x10]), "02 FF 10");
}

#[test]
fn interfaces() {
    assert!(is_hidpp_interface(0x046D, 0xFF00));
    assert!(!is_hidpp_interface(0x046D, 0x0001));
    assert!(!is_hidpp_interface(0x1234, 0xFF00));
    assert!(is_mouse_interface(0x046D, 0x0001, 0x02));
    assert!(!is_mouse_interface(0x046D, 0x0001, 0x06));
    assert_eq!(interface_label(Some("PRO X")), "PRO X");
    assert_eq!(interface_label(Some("")), "Logitech mouse");
    assert_eq!(interface_label(None), "Logitech mouse");
}

#[test]
fn hidpp_paths_keep_first_of_each() {
    let it = |v: u16, u: u16, p: &[u8]| Interface { vendor_id: v, usage_page: u, path: p.to_vec() };
    let list = vec![
        it(0x046D, 0xFF00, b"/dev/hidraw2"),
        it(0x046D, 0x0001, b"/dev/hidraw1"),
        it(0x1234, 0xFF00, b"/dev/hidraw5"),
        it(0x046D, 0xFF00, b"/dev/hidraw0"),
        it(0x046D, 0xFF00, b"/dev/hidraw2"),
    ];
    assert_eq!(hidpp_paths(&list), vec![b"/dev/hidraw2".to_vec(), b"/dev/hidraw0".to_vec()]);
    assert!(hidpp_paths(&vec![]).is_empty());
}
