use lowtech::crc::{crc_ok, put_crc};
use lowtech::hidpp::Error;
use lowtech::onboard::{
    active_sector, backup_path, button_line, button_offset, check_backup, check_profile,
    control_read_size, parse_headers, plan_assign, read_call, verify_readback, verify_restore,
    write_calls, ActiveProfile, AssignPlan, Info, SectorRead, FN_END_WRITE, FN_READ_SECTOR,
    FN_START_WRITE, FN_WRITE_DATA,
};

/// A format-7 profile sector of 255 bytes with five default buttons and a
/// valid checksum.
fn profile_sector() -> Vec<u8> {
    let mut s = vec![0u8; 255];
    let buttons: [[u8; 4]; 5] = [
        [0x80, 0x01, 0x00, 0x01],
        [0x80, 0x01, 0x00, 0x02],
        [0x80, 0x01, 0x00, 0x04],
        [0x80, 0x01, 0x00, 0x08],
        [0x80, 0x01, 0x00, 0x10],
    ];
    for (i, b) in buttons.iter().enumerate() {
        s[48 + i * 4..48 + i * 4 + 4].copy_from_slice(b);
    }
    put_crc(&mut s);
    s
}

fn info() -> Info {
    Info { profile_format: 7, button_count: 5, sector_size: 255 }
}

#[test]
fn button_offsets() {
    assert_eq!(button_offset(7), 48);
    assert_eq!(button_offset(6), 48);
    assert_eq!(button_offset(5), 32);
}

#[test]
fn info_reply() {
    let i = Info::from_reply(&[0, 7, 0, 0, 0, 5, 0, 0x00, 0xFF, 0]).ok().unwrap();
    assert_eq!(i, info());
    assert!(matches!(Info::from_reply(&[0; 9]), Err(Error::Protocol(m)) if m == "onboard getInfo too short"));
}

#[test]
fn control_sector_size() {
    assert_eq!(control_read_size(255), 255);
    assert_eq!(control_read_size(16), 64);
}

#[test]
fn headers() {
    let mut ctrl = vec![0u8; 64];
    ctrl[..12].copy_from_slice(&[0x00, 0x01, 0x00, 0x00, 0x00, 0x02, 0x01, 0x00, 0xFF, 0xFF, 0, 0]);
    let h = parse_headers(&ctrl);
    assert_eq!(h, vec![(1, 0), (2, 1)]);
    assert_eq!(active_sector(&h).ok(), Some(2));
    assert_eq!(active_sector(&vec![(1, 0), (3, 0)]).ok(), Some(1));
    assert!(matches!(active_sector(&vec![]), Err(Error::Protocol(m)) if m == "no onboard profiles found"));
    // a zero sector ends the list
    assert_eq!(parse_headers(&[0, 4, 1, 0, 0, 0, 1, 0, 0, 5, 1, 0]), vec![(4, 1)]);
    // a record needs 3 bytes
    assert_eq!(parse_headers(&[0, 4, 1, 0, 0, 5]), vec![(4, 1)]);
    assert_eq!(parse_headers(&[0, 4, 1]), vec![(4, 1)]);
    assert_eq!(parse_headers(&[0, 4]), vec![]);
}

#[test]
fn read_calls() {
    let c = read_call(0x0102, 0x0130);
    assert_eq!(c.function, FN_READ_SECTOR);
    assert_eq!(c.params, vec![0x01, 0x02, 0x01, 0x30]);
}

/// Serves chunks of `content` the way the device does.
fn read_all(content: &[u8], size: usize) -> Vec<u8> {
    let mut rd = SectorRead::new(1, size);
    let mut requests = 0;
    while let Some(off) = rd.next_offset() {
        let chunk = content[off..off + 16].to_vec();
        assert!(rd.accepts(chunk.len()));
        rd.accept(&chunk).ok().unwrap();
        requests += 1;
    }
    assert_eq!(requests, (size + 15) / 16);
    rd.data
}

#[test]
fn sector_reads_reassemble() {
    let content: Vec<u8> = (0..300u32).map(|i| (i % 251) as u8).collect();
    assert_eq!(read_all(&content, 255), content[..255].to_vec());
    assert_eq!(read_all(&content, 64), content[..64].to_vec());
    assert_eq!(read_all(&content, 17), content[..17].to_vec());
    assert_eq!(read_all(&content, 0), Vec::<u8>::new());
}

#[test]
fn short_sector_read_fails() {
    let mut rd = SectorRead::new(1, 64);
    assert_eq!(rd.next_offset(), Some(0));
    assert!(matches!(rd.accept(&[0; 15]), Err(Error::Protocol(m)) if m == "short sector read"));
}

#[test]
fn tail_chunk_needs_the_missing_bytes() {
    let mut rd = SectorRead::new(1, 20);
    rd.accept(&[1; 16]).ok().unwrap();
    assert_eq!(rd.next_offset(), Some(4));
    assert!(!rd.accepts(11));
    assert!(rd.accepts(12));
    rd.accept(&[2; 14]).ok().unwrap();
    assert_eq!(rd.data.len(), 18);
    assert_eq!(rd.next_offset(), None);
}

#[test]
fn write_calls_cover_the_sector() {
    let bytes: Vec<u8> = (0..255u32).map(|i| i as u8).collect();
    let calls = write_calls(0x0001, &bytes);
    assert_eq!(calls.len(), 1 + 16 + 1);
    assert_eq!(calls[0].function, FN_START_WRITE);
    assert_eq!(calls[0].params, vec![0x00, 0x01, 0, 0, 0x00, 0xFF]);
    let mut sent = Vec::new();
    for c in &calls[1..17] {
        assert_eq!(c.function, FN_WRITE_DATA);
        assert!(c.params.len() <= 16);
        sent.extend_from_slice(&c.params);
    }
    assert_eq!(sent, bytes);
    assert_eq!(calls[17].function, FN_END_WRITE);
    assert!(calls[17].params.is_empty());
}

#[test]
fn write_calls_send_a_lone_last_byte() {
    let bytes = vec![7u8; 17];
    let calls = write_calls(2, &bytes);
    assert_eq!(calls.len(), 4);
    assert_eq!(calls[0].params, vec![0x00, 0x02, 0, 0, 0x00, 17]);
    assert_eq!(calls[1].params, vec![7u8; 16]);
    assert_eq!(calls[2].function, FN_WRITE_DATA);
    assert_eq!(calls[2].params, vec![7u8]);
    assert_eq!(calls[3].function, FN_END_WRITE);
}

#[test]
fn profile_checks() {
    let p = check_profile(&info(), 1, profile_sector()).ok().unwrap();
    assert_eq!(p.sector, 1);
    assert_eq!(p.button_off, 48);
    assert_eq!(p.button_count, 5);

    let mut bad = profile_sector();
    bad[0] ^= 1;
    assert!(matches!(
        check_profile(&info(), 3, bad),
        Err(Error::Protocol(m)) if m == "profile sector 3 CRC mismatch — refusing to touch it (format may differ)"
    ));

    let old = Info { profile_format: 5, button_count: 5, sector_size: 255 };
    assert!(matches!(
        check_profile(&old, 1, profile_sector()),
        Err(Error::Protocol(m)) if m == "button array not recognized at offset 32 (1/5 specs valid)"
    ));

    // one unrecognized button is tolerated
    let mut one_off = profile_sector();
    one_off[48] = 0x10;
    put_crc(&mut one_off);
    assert!(check_profile(&info(), 1, one_off).is_ok());
}

fn profile() -> ActiveProfile {
    check_profile(&info(), 1, profile_sector()).ok().unwrap()
}

#[test]
fn assigning_a_button() {
    let p = profile();
    match plan_assign(&p, 5, [0x80, 0x01, 0x00, 0x04]).ok().unwrap() {
        AssignPlan::Write { offset, old, sector } => {
            assert_eq!(offset, 64);
            assert_eq!(old, [0x80, 0x01, 0x00, 0x10]);
            assert!(crc_ok(&sector));
            assert_eq!(&sector[64..68], &[0x80, 0x01, 0x00, 0x04]);
            assert_eq!(&sector[..64], &p.data[..64]);
            assert_eq!(&sector[68..253], &p.data[68..253]);
            assert!(verify_readback(&sector, offset, [0x80, 0x01, 0x00, 0x04]).is_ok());
        }
        AssignPlan::AlreadySet => panic!("expected a write"),
    }
}

#[test]
fn assigning_the_same_spec_does_nothing() {
    let p = profile();
    assert!(matches!(plan_assign(&p, 1, [0x80, 0x01, 0x00, 0x01]), Ok(AssignPlan::AlreadySet)));
}

#[test]
fn assigning_out_of_range() {
    let p = profile();
    assert!(matches!(plan_assign(&p, 0, [0; 4]), Err(Error::Protocol(m)) if m == "button 0 out of range 1..5"));
    assert!(matches!(plan_assign(&p, 6, [0; 4]), Err(Error::Protocol(m)) if m == "button 6 out of range 1..5"));
}

#[test]
fn readback_checks() {
    let s = profile_sector();
    let mut bad = s.clone();
    bad[10] ^= 0xFF;
    assert!(matches!(
        verify_readback(&bad, 48, [0x80, 0x01, 0x00, 0x01]),
        Err(Error::Protocol(m)) if m == "readback CRC bad after write — restore from backup with `lowtech restore`"
    ));
    assert!(matches!(
        verify_readback(&s, 48, [0x80, 0x01, 0x00, 0x04]),
        Err(Error::Protocol(m)) if m == "readback mismatch (got [80, 01, 00, 01]) — restore with `lowtech restore`"
    ));
}

#[test]
fn backups() {
    assert_eq!(backup_path(1), "./lowtech-backup-sector1.bin");
    assert_eq!(backup_path(258), "./lowtech-backup-sector258.bin");
    let s = profile_sector();
    assert!(check_backup(&s, 255).is_ok());
    assert!(matches!(check_backup(&s, 256), Err(Error::Protocol(m)) if m == "backup file invalid (size/CRC)"));
    let mut bad = s.clone();
    bad[3] = 9;
    assert!(check_backup(&bad, 255).is_err());
    assert!(verify_restore(&s, &s).is_ok());
    assert!(matches!(verify_restore(&bad, &s), Err(Error::Protocol(m)) if m == "restore verification failed"));
}

#[test]
fn button_lines() {
    assert_eq!(
        button_line(3, &[0x80, 0x01, 0x00, 0x04]),
        "  button 3: Middle click [80 01 00 04]"
    );
    assert_eq!(button_line(12, &[0xFF; 4]), "  button 12: disabled     [FF FF FF FF]");
}

#[test]
fn assigning_back_restores_the_sector() {
    let p = profile();
    let first = match plan_assign(&p, 5, [0x80, 0x01, 0x00, 0x04]).ok().unwrap() {
        AssignPlan::Write { sector, .. } => sector,
        AssignPlan::AlreadySet => panic!("expected a write"),
    };
    let again = check_profile(&info(), 1, first).ok().unwrap();
    match plan_assign(&again, 5, [0x80, 0x01, 0x00, 0x10]).ok().unwrap() {
        AssignPlan::Write { sector, .. } => assert_eq!(sector, profile_sector()),
        AssignPlan::AlreadySet => panic!("expected a write"),
    }
}

#[test]
fn default_profile_listing() {
    let p = profile();
    let lines: Vec<String> = (0..p.button_count)
        .map(|i| button_line(i + 1, &p.data[48 + i * 4..52 + i * 4]))
        .collect();
    assert_eq!(
        lines,
        vec![
            "  button 1: Left click   [80 01 00 01]",
            "  button 2: Right click  [80 01 00 02]",
            "  button 3: Middle click [80 01 00 04]",
            "  button 4: Back         [80 01 00 08]",
            "  button 5: Forward      [80 01 00 10]",
        ]
    );
}

#[test]
fn a_second_assign_writes_nothing() {
    let p = profile();
    let written = match plan_assign(&p, 4, [0x80, 0x03, 0x02, 0x24]).ok().unwrap() {
        AssignPlan::Write { sector, .. } => sector,
        AssignPlan::AlreadySet => panic!("expected a write"),
    };
    let again = check_profile(&info(), 1, written).ok().unwrap();
    assert!(matches!(plan_assign(&again, 4, [0x80, 0x03, 0x02, 0x24]).ok().unwrap(), AssignPlan::AlreadySet));
}

#[test]
fn restoring_sends_the_backup_back() {
    let backup = profile_sector();
    assert!(check_backup(&backup, 255).is_ok());
    let calls = write_calls(1, &backup);
    assert_eq!(calls[0].params, vec![0x00, 0x01, 0, 0, 0x00, 0xFF]);
    let mut sent = Vec::new();
    for c in &calls[1..calls.len() - 1] {
        assert_eq!(c.function, FN_WRITE_DATA);
        sent.extend_from_slice(&c.params);
    }
    assert_eq!(sent, backup);
    assert_eq!(calls[calls.len() - 1].function, FN_END_WRITE);
    assert!(verify_restore(&sent, &backup).is_ok());
}

#[test]
fn a_second_assign_writes_nothing_when_the_last_spec_holds_the_checksum() {
    // 56-byte sector: button 2 (52..56) shares its last two bytes with the checksum.
    let small = Info { profile_format: 7, button_count: 2, sector_size: 56 };
    let mut s = vec![0u8; 56];
    s[48..52].copy_from_slice(&[0x80, 0x01, 0x00, 0x01]);
    put_crc(&mut s);
    let p = check_profile(&small, 4, s).ok().unwrap();
    let written = match plan_assign(&p, 1, [0x80, 0x01, 0x00, 0x08]).ok().unwrap() {
        AssignPlan::Write { sector, .. } => sector,
        AssignPlan::AlreadySet => panic!("expected a write"),
    };
    let again = check_profile(&small, 4, written).ok().unwrap();
    assert!(matches!(plan_assign(&again, 1, [0x80, 0x01, 0x00, 0x08]).ok().unwrap(), AssignPlan::AlreadySet));
}
