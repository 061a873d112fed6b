use lowtech::buttons::{function_name, mouse_button_name};
use lowtech::features::{battery_status_name, device_type_name, feature_name};
use lowtech::hidpp::{hidpp20_err, Error};

#[test]
fn feature_names() {
    assert_eq!(feature_name(0x0000), "ROOT");
    assert_eq!(feature_name(0x8100), "ONBOARD_PROFILES");
    assert_eq!(feature_name(0x2202), "EXTENDED_ADJUSTABLE_DPI");
    assert_eq!(feature_name(0x1E00), "ENABLE_HIDDEN_FEATURES");
    assert_eq!(feature_name(0x1602), "PASSWORD");
    assert_eq!(feature_name(0x9999), "");
}

#[test]
fn device_type_names() {
    assert_eq!(device_type_name(0), "Keyboard");
    assert_eq!(device_type_name(3), "Mouse");
    assert_eq!(device_type_name(12), "Gamepad");
    assert_eq!(device_type_name(13), "?");
}

#[test]
fn battery_status_names() {
    assert_eq!(battery_status_name(0), "discharging");
    assert_eq!(battery_status_name(6), "thermal error");
    assert_eq!(battery_status_name(7), "?");
}

#[test]
fn hidpp20_error_names() {
    assert_eq!(hidpp20_err(5), "logitech internal");
    assert_eq!(hidpp20_err(9), "unsupported");
    assert_eq!(hidpp20_err(10), "?");
}

#[test]
fn mouse_button_names() {
    assert_eq!(mouse_button_name(0x0004), "Middle click");
    assert_eq!(mouse_button_name(0x0080), "Button 8");
    assert_eq!(mouse_button_name(0x0100), "mouse mask 0x0100");
    assert_eq!(mouse_button_name(0xBEEF), "mouse mask 0xBEEF");
}

#[test]
fn function_names() {
    assert_eq!(function_name(0x5), "cycle DPI");
    assert_eq!(function_name(0x11), "scroll up");
    assert_eq!(function_name(0x12), "function?");
}

#[test]
fn error_messages() {
    assert_eq!(Error::Hid("boom".to_string()).describe(), "hid error: boom");
    assert_eq!(Error::Hidpp10(0x0A).describe(), "HID++1.0 error 0x0A");
    assert_eq!(
        Error::Hidpp20(5).describe(),
        "HID++2.0 feature error 0x05 (logitech internal)"
    );
    assert_eq!(Error::Timeout.describe(), "timeout waiting for reply");
    assert_eq!(
        Error::NotSupported("x").describe(),
        "feature not supported: x"
    );
    assert_eq!(
        Error::Protocol("bad".to_string()).describe(),
        "protocol error: bad"
    );
}
