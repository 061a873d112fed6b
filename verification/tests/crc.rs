use lowtech::crc::{be16, crc16, crc_ok, put_crc};

#[test]
fn crc16_check_value() {
    // The standard check value of CRC-16/CCITT-FALSE.
    assert_eq!(crc16(b"123456789"), 0x29B1);
}

#[test]
fn crc16_of_nothing_is_init() {
    assert_eq!(crc16(&[]), 0xFFFF);
}

#[test]
fn put_crc_makes_sector_valid() {
    let mut sector: Vec<u8> = (0..255u32).map(|i| (i * 7 % 256) as u8).collect();
    assert!(!crc_ok(&sector) || sector[253] != 0 || sector[254] != 0);
    let body: Vec<u8> = sector[..253].to_vec();
    put_crc(&mut sector);
    assert!(crc_ok(&sector));
    assert_eq!(&sector[..253], &body[..]);
    let c = crc16(&body);
    assert_eq!(sector[253], (c >> 8) as u8);
    assert_eq!(sector[254], (c & 0xFF) as u8);
}

#[test]
fn put_crc_on_valid_sector_changes_nothing() {
    let mut sector = vec![1u8, 2, 3, 4, 5, 0, 0];
    put_crc(&mut sector);
    let before = sector.clone();
    put_crc(&mut sector);
    assert_eq!(sector, before);
}

#[test]
fn crc_ok_detects_corruption() {
    let mut sector = vec![0x10u8, 0x20, 0x30, 0, 0];
    put_crc(&mut sector);
    assert!(crc_ok(&sector));
    sector[1] ^= 0x01;
    assert!(!crc_ok(&sector));
}

#[test]
fn crc_of_two_bytes_sector_covers_nothing() {
    let mut sector = vec![0u8, 0];
    put_crc(&mut sector);
    assert_eq!(sector, vec![0xFF, 0xFF]);
    assert!(crc_ok(&sector));
}

#[test]
fn be16_reads_big_endian() {
    assert_eq!(be16(&[0x12, 0x34, 0x56]), 0x1234);
}

#[test]
fn appended_crc_leaves_zero() {
    let data = b"123456789".to_vec();
    let c = crc16(&data);
    let mut whole = data.clone();
    whole.push((c >> 8) as u8);
    whole.push((c & 0xFF) as u8);
    assert_eq!(crc16(&whole), 0);
    assert!(crc_ok(&whole));
}

#[test]
fn every_one_bit_flip_is_caught() {
    let mut s: Vec<u8> = (0..40u32).map(|i| (i * 7) as u8).collect();
    put_crc(&mut s);
    assert!(crc_ok(&s));
    for i in 0..s.len() {
        for bit in 0..8 {
            let mut t = s.clone();
            t[i] ^= 1 << bit;
            assert!(!crc_ok(&t), "flip of bit {bit} in byte {i} went unnoticed");
            assert_ne!(crc16(&t), 0);
        }
    }
}

#[test]
fn a_changed_byte_is_caught() {
    let mut s = vec![0x55u8; 20];
    put_crc(&mut s);
    for v in [0x00u8, 0x54, 0xAA, 0xFF] {
        let mut t = s.clone();
        t[3] = v;
        assert!(!crc_ok(&t));
    }
}
