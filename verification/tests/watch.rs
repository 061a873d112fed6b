use lowtech::watch::{WatchState, WARMUP};

#[test]
fn unchanged_reports_are_quiet() {
    let mut w = WatchState::new();
    let e = w.observe(&[0x02, 0x00, 0x05]);
    assert!(e.changed);
    assert_eq!(e.button, None);
    let e = w.observe(&[0x02, 0x00, 0x05]);
    assert!(!e.changed);
    assert_eq!(w.count, 2);
}

#[test]
fn motion_is_ignored_and_buttons_decoded() {
    let mut w = WatchState::new();
    // report: [report id, buttons, dx]; dx varies a lot, buttons rest at 0.
    for i in 0..WARMUP {
        w.observe(&[0x02, 0x00, (i * 9 % 200) as u8]);
    }
    // movement alone changes nothing
    let e = w.observe(&[0x02, 0x00, 0x77]);
    assert!(!e.changed);
    // a press of Back
    let e = w.observe(&[0x02, 0x08, 0x13]);
    assert!(e.changed);
    assert_eq!(e.button, Some(0x08));
    // release
    let e = w.observe(&[0x02, 0x00, 0x21]);
    assert!(e.changed);
    assert_eq!(e.button, Some(0x00));
}

#[test]
fn negative_deltas_mark_motion() {
    let mut w = WatchState::new();
    w.observe(&[0x01, 0xFF]);
    let e = w.observe(&[0x01, 0x03]);
    // the second byte showed 0xFF: it is motion, so the signature stays
    assert!(!e.changed);
}

#[test]
fn longer_reports_grow_the_state() {
    let mut w = WatchState::new();
    w.observe(&[1]);
    w.observe(&[1, 2, 3]);
    assert_eq!(w.seen.len(), 3);
    w.observe(&[1]);
    assert_eq!(w.seen.len(), 3);
}
