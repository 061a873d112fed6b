use lowtech::features::{dpi_from_replies, dpi_set_params, dpi_support, Dpi};
use lowtech::hidpp::{Device, Error, Protocol};

#[test]
fn dpi_current_value() {
    let d = dpi_from_replies(&[0, 0, 0x03], &[0, 0x03, 0x20, 0x06, 0x40, 0x03, 0x20, 0, 0, 2]).ok().unwrap();
    assert_eq!(d, Dpi { x: 800, y: 800, has_y: true, has_lod: true, lod: 2 });
}

#[test]
fn dpi_falls_back_to_default() {
    let d = dpi_from_replies(&[0, 0, 0x00], &[0, 0, 0, 0x06, 0x40]).ok().unwrap();
    assert_eq!(d, Dpi { x: 1600, y: 1600, has_y: false, has_lod: false, lod: 0 });
    let d = dpi_from_replies(&[0, 0, 0x01], &[0, 0x03, 0x20, 0, 0, 0, 0, 0x04, 0xB0]).ok().unwrap();
    assert_eq!(d.y, 1200);
    assert!(d.shows_both_axes());
}

#[test]
fn dpi_short_reply() {
    assert!(matches!(
        dpi_from_replies(&[0, 0, 1], &[0, 1, 2, 3]),
        Err(Error::Protocol(m)) if m == "dpi reply too short"
    ));
}

#[test]
fn dpi_lod_missing() {
    let d = dpi_from_replies(&[0, 0, 0x02], &[0, 0x03, 0x20, 0, 0]).ok().unwrap();
    assert!(d.has_lod);
    assert_eq!(d.lod, 0);
}

#[test]
fn dpi_set_parameters() {
    let cur = Dpi { x: 800, y: 800, has_y: true, has_lod: true, lod: 2 };
    assert_eq!(dpi_set_params(&cur, 1600), vec![0, 0x06, 0x40, 0x06, 0x40, 2]);
    let cur = Dpi { x: 800, y: 800, has_y: false, has_lod: false, lod: 0 };
    assert_eq!(dpi_set_params(&cur, 3200), vec![0, 0x0C, 0x80, 0, 0, 0]);
}

#[test]
fn dpi_feature_support() {
    let mut d = Device::new(1, false, Protocol { major: 4, minor: 2 });
    d.start_feature_table();
    assert!(matches!(dpi_support(&d), Err(Error::NotSupported("no adjustable-DPI feature"))));
    d.record_feature(3, &[0x22, 0x01, 0, 1]);
    assert!(matches!(
        dpi_support(&d),
        Err(Error::NotSupported("device uses ADJUSTABLE_DPI (0x2201), not yet implemented"))
    ));
    d.record_feature(4, &[0x22, 0x02, 0, 1]);
    assert!(dpi_support(&d).is_ok());
}
