//! Protocol logic for Logitech HID++ devices: request framing and reply
//! matching, feature discovery, onboard-profile sectors with their
//! CRC-16/CCITT-FALSE checksum, button-spec encoding and decoding, and the
//! name tables used for display.

pub mod text;
pub mod crc;
pub mod features;
pub mod hidpp;
pub mod buttons;
pub mod onboard;
pub mod cli;
pub mod watch;
