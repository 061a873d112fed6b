//! Human-readable names for feature ids, device types and battery states,
//! and the DPI (EXTENDED_ADJUSTABLE_DPI, 0x2202) reply decoding.

use vstd::prelude::*;
use crate::crc::be16_of;
use crate::hidpp::{protocol_error, Device, Error, FEAT_ADJUSTABLE_DPI, FEAT_EXTENDED_DPI};

verus! {

/// Short name of a HID++ 2.0 feature id; empty for ids outside the table.
pub open spec fn feature_name_of(id: u16) -> Seq<char> {
    match id {
        0x0000 => "ROOT"@,
        0x0001 => "FEATURE_SET"@,
        0x0002 => "FEATURE_INFO"@,
        0x0003 => "DEVICE_FW_VERSION"@,
        0x0004 => "DEVICE_UNIT_ID"@,
        0x0005 => "DEVICE_NAME"@,
        0x0006 => "DEVICE_GROUPS"@,
        0x0007 => "DEVICE_FRIENDLY_NAME"@,
        0x0008 => "KEEP_ALIVE"@,
        0x0011 => "PROPERTY_ACCESS"@,
        0x0020 => "CONFIG_CHANGE"@,
        0x0021 => "CRYPTO_ID"@,
        0x0080 => "WIRELESS_SIGNAL_STRENGTH"@,
        0x00C2 => "DFUCONTROL_SIGNED"@,
        0x00C3 => "DFUCONTROL"@,
        0x1000 => "BATTERY_STATUS"@,
        0x1001 => "BATTERY_VOLTAGE"@,
        0x1004 => "UNIFIED_BATTERY"@,
        0x1010 => "CHARGING_CONTROL"@,
        0x1300 => "LED_CONTROL"@,
        0x1500 => "FORCE_PAIRING"@,
        0x1801 => "MANUFACTURING_MODE"@,
        0x1802 => "DEVICE_RESET"@,
        0x1803 => "GPIO_ACCESS"@,
        0x1805 => "OOBSTATE"@,
        0x1806 => "CONFIG_DEVICE_PROPS"@,
        0x1814 => "CHANGE_HOST"@,
        0x1815 => "HOSTS_INFO"@,
        0x1817 => "LIGHTSPEED_PREPAIRING"@,
        0x1830 => "POWER_MODES"@,
        0x1861 => "BATTERY_VOLTAGE"@,
        0x1875 => "ANALYTICS_EVENTS"@,
        0x1890 => "REPORT_RATE_PRIVATE"@,
        0x18A1 => "LED_TEST"@,
        0x18B1 => "MLX903xx_MONITORING"@,
        0x1981 => "BACKLIGHT"@,
        0x1982 => "BACKLIGHT2"@,
        0x1983 => "BACKLIGHT3"@,
        0x1B00 => "REPROG_CONTROLS"@,
        0x1B04 => "REPROG_CONTROLS_V4"@,
        0x1B05 => "FULL_KEY_CUSTOMIZATION"@,
        0x1B10 => "CONTROL_LIST"@,
        0x1BC0 => "REPORT_HID_USAGE"@,
        0x1C00 => "PERSISTENT_REMAPPABLE_ACTION"@,
        0x1D4B => "WIRELESS_DEVICE_STATUS"@,
        0x1DF3 => "ENABLE_HIDDEN_FEATURES"@,
        0x1E00 => "ENABLE_HIDDEN_FEATURES"@,
        0x1E02 => "MANAGE_DEACTIVATABLE_FEATURES"@,
        0x1E22 => "SPI_DIRECT_ACCESS"@,
        0x1EB0 => "TDE_ACCESS"@,
        0x1F03 => "FIRMWARE_PROPERTIES"@,
        0x2001 => "LEFT_RIGHT_SWAP"@,
        0x2100 => "VERTICAL_SCROLLING"@,
        0x2110 => "SMART_SHIFT"@,
        0x2111 => "SMART_SHIFT_ENHANCED"@,
        0x2121 => "HIRES_WHEEL"@,
        0x2130 => "LOWRES_WHEEL"@,
        0x2150 => "THUMB_WHEEL"@,
        0x2200 => "MOUSE_POINTER"@,
        0x2201 => "ADJUSTABLE_DPI"@,
        0x2202 => "EXTENDED_ADJUSTABLE_DPI"@,
        0x2205 => "POINTER_SPEED"@,
        0x2230 => "ANGLE_SNAPPING"@,
        0x2240 => "SURFACE_TUNING"@,
        0x2250 => "XY_STATS"@,
        0x2251 => "WHEEL_STATS"@,
        0x8010 => "GKEY"@,
        0x8020 => "MKEYS"@,
        0x8030 => "MR"@,
        0x8040 => "BRIGHTNESS_CONTROL"@,
        0x8060 => "REPORT_RATE"@,
        0x8061 => "EXTENDED_ADJUSTABLE_REPORT_RATE"@,
        0x8070 => "COLOR_LED_EFFECTS"@,
        0x8071 => "RGB_EFFECTS"@,
        0x8090 => "MODE_STATUS"@,
        0x80E0 => "BUNNY_HOPPING"@,
        0x8100 => "ONBOARD_PROFILES"@,
        0x8110 => "MOUSE_BUTTON_SPY"@,
        0x8111 => "LATENCY_MONITORING"@,
        0x1602 => "PASSWORD"@,
        _ => ""@,
    }
}

/// HID++ 2.0 feature id -> short name (empty when unknown).
pub fn feature_name(id: u16) -> (r: &'static str)
    ensures
        r@ == feature_name_of(id),
{
    match id {
        0x0000 => "ROOT",
        0x0001 => "FEATURE_SET",
        0x0002 => "FEATURE_INFO",
        0x0003 => "DEVICE_FW_VERSION",
        0x0004 => "DEVICE_UNIT_ID",
        0x0005 => "DEVICE_NAME",
        0x0006 => "DEVICE_GROUPS",
        0x0007 => "DEVICE_FRIENDLY_NAME",
        0x0008 => "KEEP_ALIVE",
        0x0011 => "PROPERTY_ACCESS",
        0x0020 => "CONFIG_CHANGE",
        0x0021 => "CRYPTO_ID",
        0x0080 => "WIRELESS_SIGNAL_STRENGTH",
        0x00C2 => "DFUCONTROL_SIGNED",
        0x00C3 => "DFUCONTROL",
        0x1000 => "BATTERY_STATUS",
        0x1001 => "BATTERY_VOLTAGE",
        0x1004 => "UNIFIED_BATTERY",
        0x1010 => "CHARGING_CONTROL",
        0x1300 => "LED_CONTROL",
        0x1500 => "FORCE_PAIRING",
        0x1801 => "MANUFACTURING_MODE",
        0x1802 => "DEVICE_RESET",
        0x1803 => "GPIO_ACCESS",
        0x1805 => "OOBSTATE",
        0x1806 => "CONFIG_DEVICE_PROPS",
        0x1814 => "CHANGE_HOST",
        0x1815 => "HOSTS_INFO",
        0x1817 => "LIGHTSPEED_PREPAIRING",
        0x1830 => "POWER_MODES",
        0x1861 => "BATTERY_VOLTAGE",
        0x1875 => "ANALYTICS_EVENTS",
        0x1890 => "REPORT_RATE_PRIVATE",
        0x18A1 => "LED_TEST",
        0x18B1 => "MLX903xx_MONITORING",
        0x1981 => "BACKLIGHT",
        0x1982 => "BACKLIGHT2",
        0x1983 => "BACKLIGHT3",
        0x1B00 => "REPROG_CONTROLS",
        0x1B04 => "REPROG_CONTROLS_V4",
        0x1B05 => "FULL_KEY_CUSTOMIZATION",
        0x1B10 => "CONTROL_LIST",
        0x1BC0 => "REPORT_HID_USAGE",
        0x1C00 => "PERSISTENT_REMAPPABLE_ACTION",
        0x1D4B => "WIRELESS_DEVICE_STATUS",
        0x1DF3 => "ENABLE_HIDDEN_FEATURES",
        0x1E00 => "ENABLE_HIDDEN_FEATURES",
        0x1E02 => "MANAGE_DEACTIVATABLE_FEATURES",
        0x1E22 => "SPI_DIRECT_ACCESS",
        0x1EB0 => "TDE_ACCESS",
        0x1F03 => "FIRMWARE_PROPERTIES",
        0x2001 => "LEFT_RIGHT_SWAP",
        0x2100 => "VERTICAL_SCROLLING",
        0x2110 => "SMART_SHIFT",
        0x2111 => "SMART_SHIFT_ENHANCED",
        0x2121 => "HIRES_WHEEL",
        0x2130 => "LOWRES_WHEEL",
        0x2150 => "THUMB_WHEEL",
        0x2200 => "MOUSE_POINTER",
        0x2201 => "ADJUSTABLE_DPI",
        0x2202 => "EXTENDED_ADJUSTABLE_DPI",
        0x2205 => "POINTER_SPEED",
        0x2230 => "ANGLE_SNAPPING",
        0x2240 => "SURFACE_TUNING",
        0x2250 => "XY_STATS",
        0x2251 => "WHEEL_STATS",
        0x8010 => "GKEY",
        0x8020 => "MKEYS",
        0x8030 => "MR",
        0x8040 => "BRIGHTNESS_CONTROL",
        0x8060 => "REPORT_RATE",
        0x8061 => "EXTENDED_ADJUSTABLE_REPORT_RATE",
        0x8070 => "COLOR_LED_EFFECTS",
        0x8071 => "RGB_EFFECTS",
        0x8090 => "MODE_STATUS",
        0x80E0 => "BUNNY_HOPPING",
        0x8100 => "ONBOARD_PROFILES",
        0x8110 => "MOUSE_BUTTON_SPY",
        0x8111 => "LATENCY_MONITORING",
        0x1602 => "PASSWORD",
        _ => "",
    }
}

/// Name of a DEVICE_NAME device-type code; `"?"` when unknown.
pub open spec fn device_type_name_of(t: u8) -> Seq<char> {
    match t {
        0 => "Keyboard"@,
        1 => "Remote Control"@,
        2 => "Numpad"@,
        3 => "Mouse"@,
        4 => "Touchpad"@,
        5 => "Trackball"@,
        6 => "Presenter"@,
        7 => "Receiver"@,
        8 => "Headset"@,
        9 => "Webcam"@,
        10 => "Steering Wheel"@,
        11 => "Joystick"@,
        12 => "Gamepad"@,
        _ => "?"@,
    }
}

/// DEVICE_NAME device type code -> name.
pub fn device_type_name(t: u8) -> (r: &'static str)
    ensures
        r@ == device_type_name_of(t),
{
    match t {
        0 => "Keyboard",
        1 => "Remote Control",
        2 => "Numpad",
        3 => "Mouse",
        4 => "Touchpad",
        5 => "Trackball",
        6 => "Presenter",
        7 => "Receiver",
        8 => "Headset",
        9 => "Webcam",
        10 => "Steering Wheel",
        11 => "Joystick",
        12 => "Gamepad",
        _ => "?",
    }
}

/// Name of a UNIFIED_BATTERY status byte; `"?"` when unknown.
pub open spec fn battery_status_name_of(s: u8) -> Seq<char> {
    match s {
        0 => "discharging"@,
        1 => "charging"@,
        2 => "almost full"@,
        3 => "full"@,
        4 => "slow recharge"@,
        5 => "invalid battery"@,
        6 => "thermal error"@,
        _ => "?"@,
    }
}

/// UNIFIED_BATTERY status byte -> name.
pub fn battery_status_name(s: u8) -> (r: &'static str)
    ensures
        r@ == battery_status_name_of(s),
{
    match s {
        0 => "discharging",
        1 => "charging",
        2 => "almost full",
        3 => "full",
        4 => "slow recharge",
        5 => "invalid battery",
        6 => "thermal error",
        _ => "?",
    }
}


/// Resolved DPI state for a sensor.
#[derive(Debug, Clone, Copy, PartialEq, Eq, Structural)]
pub struct Dpi {
    pub x: u16,
    pub y: u16,
    pub has_y: bool,
    pub has_lod: bool,
    pub lod: u8,
}

impl Dpi {
    /// Whether the two axes are shown separately: only when the sensor has a
    /// Y setting that differs from X.
    pub fn shows_both_axes(&self) -> (r: bool)
        ensures
            r == (self.has_y && self.x != self.y),
    {
        self.has_y && self.x != self.y
    }
}

/// Whether a device can have its DPI read: it needs EXTENDED_ADJUSTABLE_DPI;
/// the older ADJUSTABLE_DPI alone is reported as not yet implemented.
pub fn dpi_support(d: &Device) -> (r: Result<(), Error>)
    ensures
        d.features@.contains_key(FEAT_EXTENDED_DPI) ==> r is Ok,
        !d.features@.contains_key(FEAT_EXTENDED_DPI) && d.features@.contains_key(
            FEAT_ADJUSTABLE_DPI,
        ) ==> (r matches Err(Error::NotSupported(m)) && m@
            == "device uses ADJUSTABLE_DPI (0x2201), not yet implemented"@),
        !d.features@.contains_key(FEAT_EXTENDED_DPI) && !d.features@.contains_key(
            FEAT_ADJUSTABLE_DPI,
        ) ==> (r matches Err(Error::NotSupported(m)) && m@ == "no adjustable-DPI feature"@),
{
    if !d.has(FEAT_EXTENDED_DPI) {
        if d.has(FEAT_ADJUSTABLE_DPI) {
            return Err(
                Error::NotSupported("device uses ADJUSTABLE_DPI (0x2201), not yet implemented"),
            );
        }
        return Err(Error::NotSupported("no adjustable-DPI feature"));
    }
    Ok(())
}

/// Bit `k` of a byte.
pub open spec fn bit(b: u8, k: nat) -> bool {
    (b as int / vstd::arithmetic::power2::pow2(k) as int) % 2 == 1
}

/// The DPI described by the getInfo(sensor 0) reply `info` and the
/// getSensorDpi(sensor 0) reply `r`: X is the current value at bytes 1..3,
/// or the default at 3..5 when the current one is 0; Y likewise at 5..7 and
/// 7..9 when the sensor has a Y setting (info byte 2, bit 0) and the reply
/// holds it, else equal to X; the lift-off distance is byte 9 when the
/// sensor has one (info byte 2, bit 1).
pub open spec fn dpi_of(info: Seq<u8>, r: Seq<u8>) -> Dpi
    recommends
        r.len() >= 5,
{
    let has_y = info.len() > 2 && bit(info[2], 0);
    let has_lod = info.len() > 2 && bit(info[2], 1);
    let x0 = be16_of(r[1], r[2]);
    let x = if x0 == 0 {
        be16_of(r[3], r[4])
    } else {
        x0
    };
    let y = if has_y && r.len() >= 7 {
        let y0 = be16_of(r[5], r[6]);
        if y0 == 0 && r.len() >= 9 {
            be16_of(r[7], r[8])
        } else {
            y0
        }
    } else {
        x
    };
    let lod = if has_lod && r.len() > 9 {
        r[9]
    } else {
        0u8
    };
    Dpi { x, y, has_y, has_lod, lod }
}

/// Decodes the DPI from the getInfo and getSensorDpi replies.
pub fn dpi_from_replies(info: &[u8], r: &[u8]) -> (res: Result<Dpi, Error>)
    ensures
        r.len() < 5 ==> (res matches Err(Error::Protocol(m)) && m@ == "dpi reply too short"@),
        r.len() >= 5 ==> res == Ok::<Dpi, Error>(dpi_of(info@, r@)),
{
    let has_y = info.len() > 2 && info[2] % 2 == 1;
    let has_lod = info.len() > 2 && (info[2] / 2) % 2 == 1;
    proof {
        vstd::arithmetic::power2::lemma2_to64();
    }
    if r.len() < 5 {
        return Err(protocol_error("dpi reply too short"));
    }
    let x0 = (r[1] as u16) * 256 + (r[2] as u16);
    let x = if x0 == 0 {
        (r[3] as u16) * 256 + (r[4] as u16)
    } else {
        x0
    };
    let y = if has_y && r.len() >= 7 {
        let y0 = (r[5] as u16) * 256 + (r[6] as u16);
        if y0 == 0 && r.len() >= 9 {
            (r[7] as u16) * 256 + (r[8] as u16)
        } else {
            y0
        }
    } else {
        x
    };
    let lod = if has_lod && r.len() > 9 {
        r[9]
    } else {
        0
    };
    Ok(Dpi { x, y, has_y, has_lod, lod })
}

/// The setSensorDpi parameters for `value` on both axes (Y only where the
/// sensor has it, else 0), keeping the current lift-off distance:
/// `[sensor 0, x_hi, x_lo, y_hi, y_lo, lod]`.
pub fn dpi_set_params(cur: &Dpi, value: u16) -> (p: Vec<u8>)
    ensures
        p@ == seq![
            0u8,
            (value / 256) as u8,
            (value % 256) as u8,
            (if cur.has_y { value } else { 0u16 } / 256) as u8,
            (if cur.has_y { value } else { 0u16 } % 256) as u8,
            cur.lod,
        ],
{
    let y: u16 = if cur.has_y {
        value
    } else {
        0
    };
    let mut p: Vec<u8> = Vec::new();
    p.push(0);
    p.push((value / 256) as u8);
    p.push((value % 256) as u8);
    p.push((y / 256) as u8);
    p.push((y % 256) as u8);
    p.push(cur.lod);
    p
}

/// How the DPI is read from the two replies: each axis takes its current
/// value (X at bytes 1..3, Y at 5..7), and its default (X at 3..5, Y at
/// 7..9) only when the current value is 0; Y is read only when getInfo's
/// byte 2 has bit 0 set and the reply reaches it, and is X otherwise; the
/// lift-off distance is byte 9 when getInfo's byte 2 has bit 1 set and the
/// reply reaches it, and 0 otherwise.
pub proof fn law_dpi_current_values_win(info: Seq<u8>, r: Seq<u8>)
    requires
        r.len() >= 5,
    ensures
        dpi_of(info, r).has_y == (info.len() > 2 && info[2] % 2 == 1),
        dpi_of(info, r).has_lod == (info.len() > 2 && (info[2] / 2) % 2 == 1),
        r[1] as int * 256 + r[2] as int != 0 ==> dpi_of(info, r).x == r[1] as int * 256 + r[2] as int,
        r[1] as int * 256 + r[2] as int == 0 ==> dpi_of(info, r).x == r[3] as int * 256 + r[4] as int,
        info.len() > 2 && info[2] % 2 == 1 && r.len() >= 7 && r[5] as int * 256 + r[6] as int != 0
            ==> dpi_of(info, r).y == r[5] as int * 256 + r[6] as int,
        info.len() > 2 && info[2] % 2 == 1 && r.len() >= 9 && r[5] as int * 256 + r[6] as int == 0
            ==> dpi_of(info, r).y == r[7] as int * 256 + r[8] as int,
        info.len() > 2 && info[2] % 2 == 1 && r.len() >= 7 && r.len() < 9 ==> dpi_of(info, r).y
            == r[5] as int * 256 + r[6] as int,
        !(info.len() > 2 && info[2] % 2 == 1 && r.len() >= 7) ==> dpi_of(info, r).y == dpi_of(
            info,
            r,
        ).x,
        info.len() > 2 && (info[2] / 2) % 2 == 1 && r.len() > 9 ==> dpi_of(info, r).lod == r[9],
        !(info.len() > 2 && (info[2] / 2) % 2 == 1 && r.len() > 9) ==> dpi_of(info, r).lod == 0,
{
    vstd::arithmetic::power2::lemma2_to64();
    assert(r[1] as int * 256 + r[2] as int <= 0xFFFF);
    assert(r[3] as int * 256 + r[4] as int <= 0xFFFF);
    if r.len() >= 7 {
        assert(r[5] as int * 256 + r[6] as int <= 0xFFFF);
    }
    if r.len() >= 9 {
        assert(r[7] as int * 256 + r[8] as int <= 0xFFFF);
    }
}

} // verus!
