use lowtech::hidpp::{
    battery_from_reply, feature_count_request, feature_id_requests, feature_set_index,
    feature_set_request, first_or_zero, kind_from_reply, match_ping, match_reply, ping_frame,
    probe_next, probe_start, reply_timeout_ms, request_frame, request_id, Device, Error,
    NameReader, ProbeStep, Protocol,
    FEAT_DEVICE_NAME, FEAT_ONBOARD_PROFILES, FEAT_ROOT,
};

#[test]
fn request_ids() {
    assert_eq!(request_id(0, 0x00), 0x000B);
    assert_eq!(request_id(0, 0x10), 0x001B);
    assert_eq!(request_id(0x0A, 0x50), 0x0A5B);
    // only the high nibble of the function is used
    assert_eq!(request_id(0x0A, 0x5F), 0x0A5B);
}

#[test]
fn short_frame() {
    assert_eq!(
        request_frame(1, 0x021B, &[0x00], false),
        vec![0x10, 0x01, 0x02, 0x1B, 0x00, 0x00, 0x00]
    );
}

#[test]
fn long_frame_when_params_do_not_fit() {
    let f = request_frame(2, 0x0A6B, &[0, 1, 0, 0, 0, 0xFF], false);
    assert_eq!(f.len(), 20);
    assert_eq!(&f[..10], &[0x11, 0x02, 0x0A, 0x6B, 0, 1, 0, 0, 0, 0xFF]);
    assert!(f[10..].iter().all(|&b| b == 0));
}

#[test]
fn long_frame_when_asked() {
    let f = request_frame(0xFF, 0x000B, &[], true);
    assert_eq!(f.len(), 20);
    assert_eq!(&f[..4], &[0x11, 0xFF, 0x00, 0x0B]);
}

#[test]
fn long_frame_truncates_params() {
    let params: Vec<u8> = (1..=20).collect();
    let f = request_frame(1, 0x0A7B, &params, false);
    assert_eq!(f.len(), 20);
    assert_eq!(&f[4..], &params[..16]);
}

#[test]
fn ping_frames() {
    assert_eq!(ping_frame(1, false), vec![0x10, 0x01, 0x00, 0x1B, 0x00, 0x00, 0x5A]);
    let f = ping_frame(0xFF, true);
    assert_eq!(f.len(), 20);
    assert_eq!(&f[..7], &[0x11, 0xFF, 0x00, 0x1B, 0x00, 0x00, 0x5A]);
}

fn buf(bytes: &[u8]) -> ([u8; 32], usize) {
    let mut b = [0u8; 32];
    b[..bytes.len()].copy_from_slice(bytes);
    (b, bytes.len())
}

#[test]
fn reply_payload() {
    let (b, n) = buf(&[0x11, 0x01, 0x0A, 0x5B, 1, 2, 3]);
    match match_reply(&b, n, 1, 0x0A5B) {
        Some(Ok(v)) => assert_eq!(v, vec![1, 2, 3]),
        _ => panic!("expected payload"),
    }
}

#[test]
fn reply_from_complemented_devnumber() {
    let (b, n) = buf(&[0x11, 0xFE, 0x0A, 0x5B, 7]);
    assert!(matches!(match_reply(&b, n, 1, 0x0A5B), Some(Ok(v)) if v == vec![7]));
}

#[test]
fn reply_errors() {
    let (b, n) = buf(&[0x11, 0x01, 0xFF, 0x0A, 0x5B, 0x05, 0, 0]);
    assert!(matches!(match_reply(&b, n, 1, 0x0A5B), Some(Err(Error::Hidpp20(5)))));
    let (b, n) = buf(&[0x10, 0x01, 0x8F, 0x0A, 0x5B, 0x03, 0]);
    assert!(matches!(match_reply(&b, n, 1, 0x0A5B), Some(Err(Error::Hidpp10(3)))));
}

#[test]
fn reply_skips_others() {
    let (b, n) = buf(&[0x11, 0x02, 0x0A, 0x5B, 1]);
    assert!(match_reply(&b, n, 1, 0x0A5B).is_none());
    let (b, n) = buf(&[0x11, 0x01, 0x0A, 0x50, 1]);
    assert!(match_reply(&b, n, 1, 0x0A5B).is_none());
    let (b, n) = buf(&[0x11, 0x01, 0x0A]);
    assert!(match_reply(&b, n, 1, 0x0A5B).is_none());
}

#[test]
fn ping_replies() {
    let (b, n) = buf(&[0x10, 0x01, 0x00, 0x1B, 4, 2, 0x5A]);
    assert_eq!(match_ping(&b, n, 1), Some(Some(Protocol { major: 4, minor: 2 })));
    let (b, n) = buf(&[0x10, 0xFF, 0x8F, 0x00, 0x1B, 0x01, 0]);
    assert_eq!(match_ping(&b, n, 0xFF), Some(Some(Protocol { major: 1, minor: 0 })));
    let (b, n) = buf(&[0x10, 0x03, 0x8F, 0x00, 0x1B, 0x09, 0]);
    assert_eq!(match_ping(&b, n, 3), Some(None));
    let (b, n) = buf(&[0x10, 0x03, 0x00, 0x1B, 4, 2, 0x00]);
    assert_eq!(match_ping(&b, n, 3), None);
}

#[test]
fn protocol_versions() {
    assert!(Protocol { major: 4, minor: 2 }.is_hidpp20());
    assert!(Protocol { major: 2, minor: 0 }.is_hidpp20());
    assert!(!Protocol { major: 1, minor: 9 }.is_hidpp20());
    assert!(Protocol { major: 1, minor: 10 }.is_hidpp20());
}

#[test]
fn timeouts() {
    assert_eq!(reply_timeout_ms(0xFF), 900);
    assert_eq!(reply_timeout_ms(1), 3000);
}

#[test]
fn feature_table() {
    let mut d = Device::new(1, false, Protocol { major: 4, minor: 2 });
    assert!(!d.has(FEAT_ROOT));
    d.start_feature_table();
    assert_eq!(d.feature_index(FEAT_ROOT), Some(0));
    d.record_feature(1, &[0x00, 0x01, 0x00, 0x02]);
    d.record_feature(5, &[0x81, 0x00, 0x00, 0x04]);
    // a repeated id keeps its first entry
    d.record_feature(9, &[0x81, 0x00, 0x00, 0x07]);
    // a short reply records nothing
    d.record_feature(6, &[0x00, 0x05, 0x00]);
    assert_eq!(d.feature_index(FEAT_ONBOARD_PROFILES), Some(5));
    assert_eq!(d.features[&FEAT_ONBOARD_PROFILES], (5, 4));
    assert!(!d.has(FEAT_DEVICE_NAME));
    assert_eq!(d.feature_order, vec![0x0000, 0x0001, 0x8100]);
    assert_eq!(d.call_request_id(FEAT_ONBOARD_PROFILES, 0x50).ok(), Some(0x055B));
    assert!(matches!(
        d.call_request_id(FEAT_DEVICE_NAME, 0x00),
        Err(Error::NotSupported("feature not present on device"))
    ));
}

#[test]
fn discovery_replies() {
    assert_eq!(first_or_zero(&[]), 0);
    assert_eq!(first_or_zero(&[7, 1]), 7);
    assert_eq!(feature_set_index(&[3]).ok(), Some(3));
    assert!(matches!(feature_set_index(&[0]), Err(Error::Protocol(m)) if m == "no FEATURE_SET"));
    assert!(matches!(feature_set_index(&[]), Err(Error::Protocol(_))));
}

#[test]
fn kind_and_battery() {
    assert_eq!(kind_from_reply(&[3, 0]), 3);
    assert_eq!(kind_from_reply(&[]), 0xFF);
    assert_eq!(battery_from_reply(&[49, 0, 0]).ok(), Some((Some(49), 0)));
    assert_eq!(battery_from_reply(&[0, 0, 1]).ok(), Some((None, 1)));
    assert!(matches!(battery_from_reply(&[1, 2]), Err(Error::Protocol(m)) if m == "battery reply too short"));
}

#[test]
fn name_reading() {
    let mut r = NameReader::start(&[9]).ok().unwrap();
    assert_eq!(r.next_offset(), Some(0));
    assert!(r.accept(b"PRO X SUP"));
    assert_eq!(r.next_offset(), None);
    assert_eq!(r.finish(), "PRO X SUP");

    let mut r = NameReader::start(&[6]).ok().unwrap();
    assert!(r.accept(b"ab"));
    assert_eq!(r.next_offset(), Some(2));
    assert!(r.accept(b"cd\0\0\0\0\0\0"));
    assert_eq!(r.next_offset(), None);
    assert_eq!(r.finish(), "abcd");

    let mut r = NameReader::start(&[4]).ok().unwrap();
    assert!(!r.accept(&[]));
    assert_eq!(r.finish(), "");

    assert!(matches!(NameReader::start(&[]), Err(Error::Protocol(m)) if m == "name count"));
}

#[test]
fn name_decoding_is_lenient() {
    let mut r = NameReader::start(&[4]).ok().unwrap();
    assert!(r.accept(&[0x41, 0xFF, 0x42, 0x00]));
    assert_eq!(r.finish(), "A\u{FFFD}B");

    let mut r = NameReader::start(&[5]).ok().unwrap();
    assert!(r.accept(b"a\0b\0\0"));
    assert_eq!(r.finish(), "a\0b");

    let mut r = NameReader::start(&[6]).ok().unwrap();
    assert!(r.accept("né!".as_bytes()));
    assert_eq!(r.next_offset(), Some(4));
    assert!(r.accept(b"xy"));
    assert_eq!(r.finish(), "né!xy");
}

#[test]
fn discovery_requests() {
    let q = feature_set_request();
    assert_eq!(q.req_id, 0x000B);
    assert_eq!(q.params, vec![0x00, 0x01]);
    let q = feature_count_request(3);
    assert_eq!(q.req_id, 0x030B);
    assert!(q.params.is_empty());
    let qs = feature_id_requests(3, &[4, 0]);
    assert_eq!(qs.len(), 5);
    for (i, q) in qs.iter().enumerate() {
        assert_eq!(q.req_id, 0x031B);
        assert_eq!(q.params, vec![i as u8]);
    }
    assert_eq!(feature_id_requests(3, &[]).len(), 1);
    assert_eq!(feature_id_requests(3, &[0xFF]).len(), 256);
}

#[test]
fn discovery_builds_the_table() {
    let mut d = Device::new(0xFF, true, Protocol { major: 4, minor: 5 });
    let replies = vec![
        Some(vec![0x00, 0x00, 0x00, 0x00]),
        Some(vec![0x00, 0x01, 0x00, 0x02]),
        None,
        Some(vec![0x81, 0x00, 0x00, 0x04]),
        Some(vec![0x00, 0x05]),
        Some(vec![0x81, 0x00, 0x00, 0x09]),
        Some(vec![0x00, 0x05, 0x00, 0x03, 0x77]),
    ];
    d.discover_features(&replies);
    assert_eq!(d.feature_order, vec![0x0000, 0x0001, 0x8100, 0x0005]);
    assert_eq!(d.features[&FEAT_ROOT], (0, 0));
    assert_eq!(d.features[&0x0001], (1, 2));
    // the first reply naming a feature decides its index and version
    assert_eq!(d.features[&FEAT_ONBOARD_PROFILES], (3, 4));
    assert_eq!(d.features[&FEAT_DEVICE_NAME], (6, 3));
    assert_eq!(d.features.len(), 4);
}

#[test]
fn probe_steps() {
    assert!(matches!(probe_start(), ProbeStep::Ping(false)));
    assert!(matches!(probe_next(2, false, None), ProbeStep::Ping(true)));
    assert!(matches!(probe_next(2, true, None), ProbeStep::Absent));
    match probe_next(2, false, Some(Protocol { major: 4, minor: 2 })) {
        ProbeStep::Found(d, discover) => {
            assert!(discover);
            assert_eq!(d.devnumber, 2);
            assert!(!d.prefer_long);
            assert!(d.features.is_empty() && d.feature_order.is_empty());
        }
        _ => panic!("expected a device"),
    }
    match probe_next(0xFF, true, Some(Protocol { major: 1, minor: 0 })) {
        ProbeStep::Found(d, discover) => {
            assert!(!discover);
            assert!(d.prefer_long);
            assert_eq!(d.protocol, Protocol { major: 1, minor: 0 });
        }
        _ => panic!("expected a device"),
    }
}
