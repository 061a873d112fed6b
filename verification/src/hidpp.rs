//! HID++ protocol logic: the error type, request framing, reply matching,
//! ping replies, and the device's feature table built by discovery.
//!
//! Messages are HID reports:
//!
//!   short (report id 0x10): [0x10, devnumber, feat_idx, func|sw, p0, p1, p2]   (7 bytes)
//!   long  (report id 0x11): [0x11, devnumber, feat_idx, func|sw, ...16 bytes]  (20 bytes)
//!
//! `devnumber` is 0xFF for a directly-connected device, or 1..=6 for a device
//! paired to a receiver slot.

use std::collections::HashMap;
use vstd::prelude::*;
use vstd::string::*;
use vstd::utf8::*;
use crate::crc::be16_of;
use crate::text::{from_utf8_lossy, hex2, push_hex2, push_str, trim_nul, trim_trailing_nul, utf8_lossy};

verus! {

broadcast use vstd::std_specs::hash::group_hash_axioms;

pub const VENDOR_LOGITECH: u16 = 0x046D;
pub const HIDPP_USAGE_PAGE: u16 = 0xFF00;

pub const REPORT_SHORT: u8 = 0x10;
pub const REPORT_LONG: u8 = 0x11;
pub const SHORT_LEN: usize = 7;
pub const LONG_LEN: usize = 20;
pub const MAX_READ: usize = 32;

/// HID++ software id claimed by this library: the low nibble of every
/// request id. Replies echo it; notifications carry 0.
pub const SW_ID: u16 = 0x0B;

pub const FEAT_ROOT: u16 = 0x0000;
pub const FEAT_FEATURE_SET: u16 = 0x0001;
pub const FEAT_DEVICE_NAME: u16 = 0x0005;
pub const FEAT_UNIFIED_BATTERY: u16 = 0x1004;
pub const FEAT_EXTENDED_DPI: u16 = 0x2202;
pub const FEAT_ADJUSTABLE_DPI: u16 = 0x2201;
pub const FEAT_ONBOARD_PROFILES: u16 = 0x8100;

/// The mark byte a ping carries and a live device echoes.
pub const PING_MARK: u8 = 0x5A;

#[derive(Debug)]
pub enum Error {
    /// The HID layer failed; the message is the HID library's.
    Hid(String),
    /// HID++ 1.0 error reply (sub_id 0x8F): error code.
    Hidpp10(u8),
    /// HID++ 2.0 feature-call error (0xFF): error code.
    Hidpp20(u8),
    Timeout,
    NotSupported(&'static str),
    Protocol(String),
}

/// Name of a HID++ 2.0 error code.
pub open spec fn hidpp20_err_of(c: u8) -> Seq<char> {
    match c {
        0 => "no error"@,
        1 => "unknown"@,
        2 => "invalid argument"@,
        3 => "out of range"@,
        4 => "hw error"@,
        5 => "logitech internal"@,
        6 => "invalid feature index"@,
        7 => "invalid function id"@,
        8 => "busy"@,
        9 => "unsupported"@,
        _ => "?"@,
    }
}

/// HID++ 2.0 error code -> name.
pub fn hidpp20_err(c: u8) -> (r: &'static str)
    ensures
        r@ == hidpp20_err_of(c),
{
    match c {
        0 => "no error",
        1 => "unknown",
        2 => "invalid argument",
        3 => "out of range",
        4 => "hw error",
        5 => "logitech internal",
        6 => "invalid feature index",
        7 => "invalid function id",
        8 => "busy",
        9 => "unsupported",
        _ => "?",
    }
}

/// The message shown for an error.
pub open spec fn error_text(e: &Error) -> Seq<char> {
    match e {
        Error::Hid(m) => "hid error: "@ + m@,
        Error::Hidpp10(c) => "HID++1.0 error 0x"@ + hex2(*c),
        Error::Hidpp20(c) => "HID++2.0 feature error 0x"@ + hex2(*c) + " ("@ + hidpp20_err_of(*c)
            + ")"@,
        Error::Timeout => "timeout waiting for reply"@,
        Error::NotSupported(s) => "feature not supported: "@ + s@,
        Error::Protocol(s) => "protocol error: "@ + s@,
    }
}

impl Error {
    /// The message shown for this error.
    pub fn describe(&self) -> (r: String)
        ensures
            r@ == error_text(self),
    {
        let mut s = String::new();
        match self {
            Error::Hid(m) => {
                push_str(&mut s, "hid error: ");
                push_str(&mut s, m.as_str());
            },
            Error::Hidpp10(c) => {
                push_str(&mut s, "HID++1.0 error 0x");
                push_hex2(&mut s, *c);
            },
            Error::Hidpp20(c) => {
                push_str(&mut s, "HID++2.0 feature error 0x");
                push_hex2(&mut s, *c);
                push_str(&mut s, " (");
                push_str(&mut s, hidpp20_err(*c));
                push_str(&mut s, ")");
            },
            Error::Timeout => {
                push_str(&mut s, "timeout waiting for reply");
            },
            Error::NotSupported(t) => {
                push_str(&mut s, "feature not supported: ");
                push_str(&mut s, t);
            },
            Error::Protocol(t) => {
                push_str(&mut s, "protocol error: ");
                push_str(&mut s, t.as_str());
            },
        }
        s
    }
}

/// A protocol-error value with the given message.
pub fn protocol_error(msg: &str) -> (e: Error)
    ensures
        e is Protocol && e->Protocol_0@ == msg@,
{
    Error::Protocol(msg.to_owned())
}

// ---- request ids and framing ------------------------------------------------

/// A request id: feature index in the high byte, function in the high
/// nibble of the low byte, software id in its low nibble.
pub open spec fn request_id_of(index: u8, function: u8) -> u16 {
    (index as int * 256 + (function as int / 16) * 16 + SW_ID as int) as u16
}

/// The request id for `function` of the feature at `index`.
pub fn request_id(index: u8, function: u8) -> (r: u16)
    ensures
        r == request_id_of(index, function),
{
    (index as u16) * 256 + ((function / 16) as u16) * 16 + SW_ID
}

/// Big-endian bytes of a 16-bit value.
pub open spec fn be_bytes(v: u16) -> Seq<u8> {
    seq![(v / 256) as u8, (v % 256) as u8]
}

pub open spec fn min_nat(a: nat, b: nat) -> nat {
    if a <= b {
        a
    } else {
        b
    }
}

/// The report that carries a request: long when asked for or when the
/// request id and parameters exceed a short report's 5 bytes; the payload is
/// truncated to the report and zero-padded.
pub open spec fn frame_of(devnumber: u8, req_id: u16, params: Seq<u8>, prefer_long: bool) -> Seq<
    u8,
> {
    let data = be_bytes(req_id) + params;
    let long = prefer_long || data.len() > 5;
    let report_id = if long {
        REPORT_LONG
    } else {
        REPORT_SHORT
    };
    let room: nat = if long {
        (LONG_LEN - 2) as nat
    } else {
        (SHORT_LEN - 2) as nat
    };
    let n = min_nat(data.len(), room);
    seq![report_id, devnumber] + data.take(n as int) + Seq::new((room - n) as nat, |i: int| 0u8)
}

/// Builds the report for one HID++ request.
pub fn request_frame(devnumber: u8, req_id: u16, params: &[u8], prefer_long: bool) -> (r: Vec<u8>)
    ensures
        r@ == frame_of(devnumber, req_id, params@, prefer_long),
{
    let long = prefer_long || params.len() > 3;
    let report_id = if long {
        REPORT_LONG
    } else {
        REPORT_SHORT
    };
    let room: usize = if long {
        LONG_LEN - 2
    } else {
        SHORT_LEN - 2
    };
    let ghost data = be_bytes(req_id) + params@;
    let mut f: Vec<u8> = Vec::new();
    f.push(report_id);
    f.push(devnumber);
    f.push((req_id / 256) as u8);
    f.push((req_id % 256) as u8);
    let mut i: usize = 0;
    while i < params.len() && i + 2 < room
        invariant
            i <= params.len(),
            i + 2 <= room,
            room == LONG_LEN - 2 || room == SHORT_LEN - 2,
            f@ == seq![report_id, devnumber] + data.take(i + 2),
            data == be_bytes(req_id) + params@,
        decreases params.len() - i,
    {
        f.push(params[i]);
        i = i + 1;
        assert(data.take(i + 2) == data.take(i + 1).push(params@[i - 1]));
    }
    let ghost n = i + 2;
    assert(n == min_nat(data.len(), room as nat));
    while f.len() < room + 2
        invariant
            room == LONG_LEN - 2 || room == SHORT_LEN - 2,
            n <= room,
            f.len() <= room + 2,
            f.len() >= n + 2,
            f@ == seq![report_id, devnumber] + data.take(n) + Seq::new(
                (f.len() - 2 - n) as nat,
                |k: int| 0u8,
            ),
        decreases room + 2 - f.len(),
    {
        f.push(0u8);
        assert(f@ =~= seq![report_id, devnumber] + data.take(n) + Seq::new(
            (f.len() - 2 - n) as nat,
            |k: int| 0u8,
        ));
    }
    assert(f@ =~= frame_of(devnumber, req_id, params@, prefer_long));
    f
}

/// The reply timeout: a direct device answers quickly, a receiver slot may
/// need to wake its device.
pub fn reply_timeout_ms(devnumber: u8) -> (ms: u64)
    ensures
        ms == if devnumber == 0xFF {
            900u64
        } else {
            3000u64
        },
{
    if devnumber == 0xFF {
        900
    } else {
        3000
    }
}

/// How long a ping waits for its answer.
pub const PING_TIMEOUT_MS: u64 = 2000;

// ---- reply matching ---------------------------------------------------------

/// What one received report means for a pending request.
pub enum ReplyKind {
    /// A notification or an unrelated reply: keep waiting.
    Skip,
    /// HID++ 1.0 error reply to this request, with its code.
    Error10(u8),
    /// HID++ 2.0 feature error reply to this request, with its code.
    Error20(u8),
    /// The reply to this request, with its parameters.
    Payload(Seq<u8>),
}

/// Whether a report comes from `devnumber` (a receiver may also answer with
/// the number's complement).
pub open spec fn from_device(report: Seq<u8>, devnumber: u8) -> bool {
    report[1] == devnumber || report[1] == (devnumber ^ 0xFFu8)
}

/// The meaning of a received report (`report` holds the bytes read) for the
/// request `req_id` sent to `devnumber`.
pub open spec fn reply_kind(report: Seq<u8>, devnumber: u8, req_id: u16) -> ReplyKind {
    let want = be_bytes(req_id);
    let p = report.skip(2);
    if report.len() < 4 || !from_device(report, devnumber) {
        ReplyKind::Skip
    } else if report[0] == REPORT_SHORT && p.len() >= 4 && p[0] == 0x8F && p.subrange(1, 3)
        == want {
        ReplyKind::Error10(p[3])
    } else if p.len() >= 4 && p[0] == 0xFF && p.subrange(1, 3) == want {
        ReplyKind::Error20(p[3])
    } else if p.len() >= 2 && p.take(2) == want {
        ReplyKind::Payload(p.skip(2))
    } else {
        ReplyKind::Skip
    }
}

/// Matches a received report against the pending request: `None` to keep
/// waiting, else the request's outcome.
pub fn match_reply(buf: &[u8], nbytes: usize, devnumber: u8, req_id: u16) -> (r: Option<
    Result<Vec<u8>, Error>,
>)
    requires
        nbytes <= buf.len(),
    ensures
        match (reply_kind(buf@.take(nbytes as int), devnumber, req_id), r) {
            (ReplyKind::Skip, None) => true,
            (ReplyKind::Error10(c), Some(Err(Error::Hidpp10(d)))) => c == d,
            (ReplyKind::Error20(c), Some(Err(Error::Hidpp20(d)))) => c == d,
            (ReplyKind::Payload(p), Some(Ok(v))) => v@ == p,
            _ => false,
        },
{
    let ghost report = buf@.take(nbytes as int);
    if nbytes < 4 {
        return None;
    }
    let report_id = buf[0];
    let rdn = buf[1];
    if rdn != devnumber && rdn != (devnumber ^ 0xFF) {
        return None;
    }
    let hi = (req_id / 256) as u8;
    let lo = (req_id % 256) as u8;
    let ghost p = report.skip(2);
    let plen = nbytes - 2;
    assert(p.len() == plen);
    if report_id == REPORT_SHORT && plen >= 4 && buf[2] == 0x8F && buf[3] == hi && buf[4] == lo {
        assert(p.subrange(1, 3) =~= be_bytes(req_id));
        return Some(Err(Error::Hidpp10(buf[5])));
    }
    if plen >= 4 && buf[2] == 0xFF && buf[3] == hi && buf[4] == lo {
        assert(p.subrange(1, 3) =~= be_bytes(req_id));
        return Some(Err(Error::Hidpp20(buf[5])));
    }
    if buf[2] == hi && buf[3] == lo {
        assert(p.take(2) =~= be_bytes(req_id));
        let mut v: Vec<u8> = Vec::new();
        let mut i: usize = 4;
        while i < nbytes
            invariant
                4 <= i <= nbytes <= buf.len(),
                v@ == report.subrange(4, i as int),
                report == buf@.take(nbytes as int),
            decreases nbytes - i,
        {
            v.push(buf[i]);
            i = i + 1;
            assert(report.subrange(4, i as int) == report.subrange(4, i - 1).push(report[i - 1]));
        }
        assert(p.skip(2) =~= report.subrange(4, nbytes as int));
        return Some(Ok(v));
    }
    proof {
        if p.len() >= 4 && p[0] == 0x8F && p.subrange(1, 3) == be_bytes(req_id) {
            assert(p.subrange(1, 3)[0] == hi && p.subrange(1, 3)[1] == lo);
        }
        if p.len() >= 4 && p[0] == 0xFF && p.subrange(1, 3) == be_bytes(req_id) {
            assert(p.subrange(1, 3)[0] == hi && p.subrange(1, 3)[1] == lo);
        }
        if p.take(2) == be_bytes(req_id) {
            assert(p.take(2)[0] == hi && p.take(2)[1] == lo);
        }
    }
    None
}


// ---- ping -------------------------------------------------------------------

/// A HID++ protocol version `major.minor`.
#[derive(Clone, Copy, Debug, PartialEq, Eq, Structural)]
pub struct Protocol {
    pub major: u8,
    pub minor: u8,
}

impl Protocol {
    /// The version in tenths (`4.2` is 42).
    pub open spec fn tenths(self) -> int {
        self.major as int * 10 + self.minor as int
    }

    /// Whether this is HID++ 2.0 or later (feature-based protocol).
    pub fn is_hidpp20(&self) -> (r: bool)
        ensures
            r == (self.tenths() >= 20),
    {
        (self.major as u16) * 10 + (self.minor as u16) >= 20
    }
}

/// The request id of ROOT.ping (feature index 0, function 0x10).
pub open spec fn ping_id() -> u16 {
    request_id_of(0, 0x10)
}

/// The report that pings `devnumber`.
pub fn ping_frame(devnumber: u8, prefer_long: bool) -> (r: Vec<u8>)
    ensures
        r@ == frame_of(devnumber, ping_id(), seq![0u8, 0u8, PING_MARK], prefer_long),
{
    let params: [u8; 3] = [0, 0, PING_MARK];
    let r = request_frame(devnumber, request_id(0, 0x10), &params, prefer_long);
    assert(params@ =~= seq![0u8, 0u8, PING_MARK]);
    r
}

/// What one received report means for a pending ping.
pub enum PingKind {
    /// Not the answer: keep waiting.
    Skip,
    /// A device answered with this protocol version.
    Version(u8, u8),
    /// Nothing usable answers at this device number.
    Absent,
}

/// The meaning of a received report for a ping sent to `devnumber`: the
/// echo of the ping with its mark gives the version; a HID++ 1.0 "invalid
/// sub-id" error means a HID++ 1.0 device; any other HID++ 1.0 error means
/// no device.
pub open spec fn ping_kind(report: Seq<u8>, devnumber: u8) -> PingKind {
    let want = be_bytes(ping_id());
    let p = report.skip(2);
    if report.len() < 4 || !from_device(report, devnumber) {
        PingKind::Skip
    } else if p.len() >= 5 && p.take(2) == want && p[4] == PING_MARK {
        PingKind::Version(p[2], p[3])
    } else if report[0] == REPORT_SHORT && p.len() >= 4 && p[0] == 0x8F && p.subrange(1, 3)
        == want {
        if p[3] == 0x01 {
            PingKind::Version(1, 0)
        } else {
            PingKind::Absent
        }
    } else {
        PingKind::Skip
    }
}

/// Matches a received report against a pending ping: `None` to keep
/// waiting, `Some(None)` when no device answers there, `Some(Some(v))` for a
/// device speaking protocol `v`.
pub fn match_ping(buf: &[u8], nbytes: usize, devnumber: u8) -> (r: Option<Option<Protocol>>)
    requires
        nbytes <= buf.len(),
    ensures
        match (ping_kind(buf@.take(nbytes as int), devnumber), r) {
            (PingKind::Skip, None) => true,
            (PingKind::Version(a, b), Some(Some(v))) => v.major == a && v.minor == b,
            (PingKind::Absent, Some(None)) => true,
            _ => false,
        },
{
    let ghost report = buf@.take(nbytes as int);
    if nbytes < 4 {
        return None;
    }
    let report_id = buf[0];
    let rdn = buf[1];
    if rdn != devnumber && rdn != (devnumber ^ 0xFF) {
        return None;
    }
    let id = request_id(0, 0x10);
    let hi = (id / 256) as u8;
    let lo = (id % 256) as u8;
    let ghost p = report.skip(2);
    let plen = nbytes - 2;
    assert(p.len() == plen);
    if plen >= 5 && buf[2] == hi && buf[3] == lo && buf[6] == PING_MARK {
        assert(p.take(2) =~= be_bytes(ping_id()));
        return Some(Some(Protocol { major: buf[4], minor: buf[5] }));
    }
    if report_id == REPORT_SHORT && plen >= 4 && buf[2] == 0x8F && buf[3] == hi && buf[4] == lo {
        assert(p.subrange(1, 3) =~= be_bytes(ping_id()));
        if buf[5] == 0x01 {
            return Some(Some(Protocol { major: 1, minor: 0 }));
        }
        return Some(None);
    }
    proof {
        if p.len() >= 5 && p.take(2) == be_bytes(ping_id()) {
            assert(p.take(2)[0] == hi && p.take(2)[1] == lo);
        }
        if p.len() >= 4 && p.subrange(1, 3) == be_bytes(ping_id()) {
            assert(p.subrange(1, 3)[0] == hi && p.subrange(1, 3)[1] == lo);
        }
    }
    None
}

// ---- the device and its feature table ----------------------------------------

/// One reachable HID++ device: its device number, the report size it takes,
/// its protocol version, and the features discovered on it.
pub struct Device {
    pub devnumber: u8,
    /// Use long (0x11) reports for requests (BT / direct devices that lack short).
    pub prefer_long: bool,
    pub protocol: Protocol,
    /// feature id -> (index, version)
    pub features: HashMap<u16, (u8, u8)>,
    /// the feature ids in discovery order
    pub feature_order: Vec<u16>,
}

impl Device {
    /// The feature table and the discovery order list the same ids, each once.
    pub open spec fn wf(&self) -> bool {
        &&& self.feature_order@.no_duplicates()
        &&& forall|f: u16| #[trigger]
            self.features@.contains_key(f) <==> self.feature_order@.contains(f)
    }

    /// A device that answered a ping, before any feature discovery.
    pub fn new(devnumber: u8, prefer_long: bool, protocol: Protocol) -> (d: Device)
        ensures
            d.devnumber == devnumber,
            d.prefer_long == prefer_long,
            d.protocol == protocol,
            d.features@ == Map::<u16, (u8, u8)>::empty(),
            d.feature_order@ == Seq::<u16>::empty(),
            d.wf(),
    {
        Device {
            devnumber,
            prefer_long,
            protocol,
            features: HashMap::new(),
            feature_order: Vec::new(),
        }
    }

    /// The index of a feature on this device.
    pub fn feature_index(&self, feature: u16) -> (r: Option<u8>)
        ensures
            r == if self.features@.contains_key(feature) {
                Some(self.features@[feature].0)
            } else {
                None::<u8>
            },
    {
        match self.features.get(&feature) {
            Some(entry) => Some(entry.0),
            None => None,
        }
    }

    /// Whether the device has a feature.
    pub fn has(&self, feature: u16) -> (r: bool)
        ensures
            r == self.features@.contains_key(feature),
    {
        self.features.contains_key(&feature)
    }

    /// The request id of `function` of `feature`; an error when the device
    /// lacks the feature.
    pub fn call_request_id(&self, feature: u16, function: u8) -> (r: Result<u16, Error>)
        ensures
            self.features@.contains_key(feature) ==> r == Ok::<u16, Error>(
                request_id_of(self.features@[feature].0, function),
            ),
            !self.features@.contains_key(feature) ==> (r matches Err(Error::NotSupported(m))
                && m@ == "feature not present on device"@),
    {
        match self.feature_index(feature) {
            Some(idx) => Ok(request_id(idx, function)),
            None => Err(Error::NotSupported("feature not present on device")),
        }
    }

    /// Starts the feature table: ROOT is index 0 and is not counted by
    /// FEATURE_SET.
    pub fn start_feature_table(&mut self)
        requires
            old(self).features@ == Map::<u16, (u8, u8)>::empty(),
            old(self).feature_order@ == Seq::<u16>::empty(),
        ensures
            final(self).features@ == Map::<u16, (u8, u8)>::empty().insert(FEAT_ROOT, (0u8, 0u8)),
            final(self).feature_order@ == seq![FEAT_ROOT],
            final(self).devnumber == old(self).devnumber,
            final(self).prefer_long == old(self).prefer_long,
            final(self).protocol == old(self).protocol,
            final(self).wf(),
    {
        self.features.insert(FEAT_ROOT, (0, 0));
        self.feature_order.push(FEAT_ROOT);
        assert(self.feature_order@ =~= seq![FEAT_ROOT]);
        assert forall|f: u16| #[trigger]
            self.features@.contains_key(f) <==> self.feature_order@.contains(f) by {
            if f == FEAT_ROOT {
                assert(self.feature_order@[0] == f);
            }
        }
    }

    /// Records the answer to FEATURE_SET.getFeatureId(`index`): a reply of at
    /// least 4 bytes names the feature id (bytes 0..2, big-endian) and its
    /// version (byte 3); an id already in the table keeps its first entry.
    pub fn record_feature(&mut self, index: u8, reply: &[u8])
        requires
            old(self).wf(),
        ensures
            final(self).wf(),
            final(self).features@ == recorded_features(old(self).features@, index, reply@),
            final(self).feature_order@ == recorded_order(old(self).features@, old(self).feature_order@, reply@),
            final(self).devnumber == old(self).devnumber,
            final(self).prefer_long == old(self).prefer_long,
            final(self).protocol == old(self).protocol,
    {
        if reply.len() >= 4 {
            let fid = (reply[0] as u16) * 256 + (reply[1] as u16);
            let ver = reply[3];
            if !self.features.contains_key(&fid) {
                self.features.insert(fid, (index, ver));
                self.feature_order.push(fid);
                proof {
                    assert forall|f: u16| #[trigger]
                        self.features@.contains_key(f) <==> self.feature_order@.contains(f) by {
                        if f != fid {
                            assert(self.feature_order@.contains(f) ==> old(self).feature_order@.contains(f)) by {
                                if self.feature_order@.contains(f) {
                                    let k = choose|k: int| 0 <= k < self.feature_order@.len() && self.feature_order@[k] == f;
                                    assert(k < old(self).feature_order@.len());
                                    assert(old(self).feature_order@[k] == f);
                                }
                            }
                            assert(old(self).feature_order@.contains(f) ==> self.feature_order@.contains(f)) by {
                                if old(self).feature_order@.contains(f) {
                                    let k = choose|k: int| 0 <= k < old(self).feature_order@.len() && old(self).feature_order@[k] == f;
                                    assert(self.feature_order@[k] == f);
                                }
                            }
                        } else {
                            assert(self.feature_order@[self.feature_order@.len() - 1] == fid);
                        }
                    }
                }
            }
        }
    }

    /// Builds the feature table from the answers to
    /// FEATURE_SET.getFeatureId(0), (1), ... in turn: `replies[i]` is the
    /// reply to request `i`, or `None` when that request failed.
    pub fn discover_features(&mut self, replies: &Vec<Option<Vec<u8>>>)
        requires
            old(self).features@ == Map::<u16, (u8, u8)>::empty(),
            old(self).feature_order@ == Seq::<u16>::empty(),
            replies.len() <= 256,
        ensures
            (final(self).features@, final(self).feature_order@) == discovered(reply_views(replies@)),
            final(self).wf(),
            final(self).devnumber == old(self).devnumber,
            final(self).prefer_long == old(self).prefer_long,
            final(self).protocol == old(self).protocol,
    {
        let ghost all = reply_views(replies@);
        self.start_feature_table();
        let mut i: usize = 0;
        while i < replies.len()
            invariant
                i <= replies.len() <= 256,
                all == reply_views(replies@),
                (self.features@, self.feature_order@) == discovered(all.take(i as int)),
                self.wf(),
                self.devnumber == old(self).devnumber,
                self.prefer_long == old(self).prefer_long,
                self.protocol == old(self).protocol,
            decreases replies.len() - i,
        {
            assert(all.take(i + 1).drop_last() =~= all.take(i as int));
            match &replies[i] {
                Some(r) => {
                    self.record_feature(i as u8, r.as_slice());
                },
                None => {},
            }
            i = i + 1;
        }
        assert(all.take(replies.len() as int) =~= all);
    }
}

/// What probing a device number does next: ping with short or long reports,
/// take the device that answered (and whether to discover its features),
/// or give up.
pub enum ProbeStep {
    /// Ping; `true` asks with long reports.
    Ping(bool),
    /// A device answered; discover its features when the flag is set.
    Found(Device, bool),
    /// Nothing answered either ping.
    Absent,
}

/// Probing starts with a ping in short reports, which receivers take.
pub fn probe_start() -> (r: ProbeStep)
    ensures
        r matches ProbeStep::Ping(long) && !long,
{
    ProbeStep::Ping(false)
}

/// The step after the ping in long reports (`prefer_long`) or short ones
/// got `answer`: a device that answered is taken, with feature discovery
/// from HID++ 2.0 on; a silent short ping is followed by a long one; a
/// silent long ping ends the probe.
pub fn probe_next(devnumber: u8, prefer_long: bool, answer: Option<Protocol>) -> (r: ProbeStep)
    ensures
        answer matches Some(proto) ==> (r matches ProbeStep::Found(d, discover) && d.devnumber
            == devnumber && d.prefer_long == prefer_long && d.protocol == proto
            && d.features@ == Map::<u16, (u8, u8)>::empty() && d.feature_order@
            == Seq::<u16>::empty() && d.wf() && discover == (proto.tenths() >= 20)),
        answer is None && !prefer_long ==> (r matches ProbeStep::Ping(long) && long),
        answer is None && prefer_long ==> r is Absent,
{
    match answer {
        Some(proto) => {
            let discover = proto.is_hidpp20();
            ProbeStep::Found(Device::new(devnumber, prefer_long, proto), discover)
        },
        None => if prefer_long {
            ProbeStep::Absent
        } else {
            ProbeStep::Ping(true)
        },
    }
}

/// The replies as byte sequences.
pub open spec fn reply_views(replies: Seq<Option<Vec<u8>>>) -> Seq<Option<Seq<u8>>> {
    replies.map_values(
        |o: Option<Vec<u8>>|
            match o {
                Some(v) => Some(v@),
                None => None,
            },
    )
}

/// A request to the device: its request id and parameters.
pub struct Request {
    pub req_id: u16,
    pub params: Vec<u8>,
}

/// ROOT.getFeature(FEATURE_SET): where the device keeps its feature list.
pub fn feature_set_request() -> (r: Request)
    ensures
        r.req_id == request_id_of(0, 0x00),
        r.params@ == be_bytes(FEAT_FEATURE_SET),
{
    let mut params: Vec<u8> = Vec::new();
    params.push((FEAT_FEATURE_SET / 256) as u8);
    params.push((FEAT_FEATURE_SET % 256) as u8);
    assert(params@ =~= be_bytes(FEAT_FEATURE_SET));
    Request { req_id: request_id(0, 0x00), params }
}

/// FEATURE_SET.getCount, on the FEATURE_SET at `fs_idx`.
pub fn feature_count_request(fs_idx: u8) -> (r: Request)
    ensures
        r.req_id == request_id_of(fs_idx, 0x00),
        r.params@ == Seq::<u8>::empty(),
{
    Request { req_id: request_id(fs_idx, 0x00), params: Vec::new() }
}

/// FEATURE_SET.getFeatureId(i) for every `i` from 0 to the count the
/// getCount reply gives (its first byte, 0 when it is empty), in order.
pub fn feature_id_requests(fs_idx: u8, count_reply: &[u8]) -> (r: Vec<Request>)
    ensures
        r.len() == (if count_reply.len() > 0 {
            count_reply[0] as int
        } else {
            0
        }) + 1,
        forall|i: int|
            0 <= i < r.len() ==> (#[trigger] r@[i]).req_id == request_id_of(fs_idx, 0x10)
                && r@[i].params@ == seq![i as u8],
{
    let n = first_or_zero(count_reply);
    let id = request_id(fs_idx, 0x10);
    let mut out: Vec<Request> = Vec::new();
    let mut i: u16 = 0;
    while i <= n as u16
        invariant
            i <= n as u16 + 1,
            out.len() == i,
            forall|j: int|
                0 <= j < out.len() ==> (#[trigger] out@[j]).req_id == id && out@[j].params@
                    == seq![j as u8],
            id == request_id_of(fs_idx, 0x10),
        decreases n as u16 + 1 - i,
    {
        let mut params: Vec<u8> = Vec::new();
        params.push(i as u8);
        assert(params@ =~= seq![i as u8]);
        out.push(Request { req_id: id, params });
        i = i + 1;
    }
    out
}

/// The feature id a getFeatureId reply names.
pub open spec fn reply_feature_id(reply: Seq<u8>) -> u16 {
    be16_of(reply[0], reply[1])
}

/// The feature table after recording a getFeatureId reply.
pub open spec fn recorded_features(m: Map<u16, (u8, u8)>, index: u8, reply: Seq<u8>) -> Map<
    u16,
    (u8, u8),
> {
    if reply.len() >= 4 && !m.contains_key(reply_feature_id(reply)) {
        m.insert(reply_feature_id(reply), (index, reply[3]))
    } else {
        m
    }
}

/// The discovery order after recording a getFeatureId reply.
pub open spec fn recorded_order(m: Map<u16, (u8, u8)>, order: Seq<u16>, reply: Seq<u8>) -> Seq<
    u16,
> {
    if reply.len() >= 4 && !m.contains_key(reply_feature_id(reply)) {
        order.push(reply_feature_id(reply))
    } else {
        order
    }
}

/// Discovery never changes a feature already in the table: the first index
/// and version found for an id are the ones kept.
pub proof fn law_recording_keeps_known_features(
    m: Map<u16, (u8, u8)>,
    index: u8,
    reply: Seq<u8>,
    f: u16,
)
    requires
        m.contains_key(f),
    ensures
        recorded_features(m, index, reply).contains_key(f),
        recorded_features(m, index, reply)[f] == m[f],
{
}

/// The feature table and discovery order after FEATURE_SET.getFeatureId(i)
/// was asked for each `i` in turn: `replies[i]` is its reply, or `None`
/// when the request failed.
pub open spec fn discovered(replies: Seq<Option<Seq<u8>>>) -> (Map<u16, (u8, u8)>, Seq<u16>)
    decreases replies.len(),
{
    if replies.len() == 0 {
        (Map::<u16, (u8, u8)>::empty().insert(FEAT_ROOT, (0u8, 0u8)), seq![FEAT_ROOT])
    } else {
        let (m, o) = discovered(replies.drop_last());
        match replies.last() {
            Some(r) => (
                recorded_features(m, (replies.len() - 1) as u8, r),
                recorded_order(m, o, r),
            ),
            None => (m, o),
        }
    }
}

/// Whether reply `i` names feature `f`.
pub open spec fn names_feature(replies: Seq<Option<Seq<u8>>>, i: int, f: u16) -> bool {
    &&& replies[i] is Some
    &&& replies[i]->0.len() >= 4
    &&& reply_feature_id(replies[i]->0) == f
}

/// The first reply that names feature `f` (`replies.len()` when none does).
pub open spec fn first_naming(replies: Seq<Option<Seq<u8>>>, f: u16) -> int
    decreases replies.len(),
{
    if replies.len() == 0 {
        0
    } else {
        let p = first_naming(replies.drop_last(), f);
        if p < replies.len() - 1 {
            p
        } else if names_feature(replies, replies.len() - 1, f) {
            replies.len() - 1
        } else {
            replies.len() as int
        }
    }
}

/// What discovery builds: ROOT first at index 0; the order lists the
/// table's ids, each once; every other feature is in the table exactly
/// when some reply names it, with the index and version of the first reply
/// that does; and the order lists those features by their first reply.
pub proof fn law_discovery_table(replies: Seq<Option<Seq<u8>>>)
    requires
        replies.len() <= 256,
    ensures
        ({
            let (m, o) = discovered(replies);
            &&& o.len() >= 1 && o[0] == FEAT_ROOT
            &&& m.contains_key(FEAT_ROOT) && m[FEAT_ROOT] == (0u8, 0u8)
            &&& o.no_duplicates()
            &&& forall|f: u16| #[trigger] m.contains_key(f) <==> o.contains(f)
            &&& forall|f: u16|
                f != FEAT_ROOT ==> (#[trigger] m.contains_key(f) <==> first_naming(replies, f)
                    < replies.len())
            &&& forall|f: u16|
                f != FEAT_ROOT && #[trigger] m.contains_key(f) ==> m[f] == (
                    first_naming(replies, f) as u8,
                    replies[first_naming(replies, f)]->0[3],
                )
            &&& forall|p: int, q: int|
                1 <= p < q < o.len() ==> first_naming(replies, #[trigger] o[p]) < first_naming(
                    replies,
                    #[trigger] o[q],
                )
        }),
        forall|f: u16|
            0 <= #[trigger] first_naming(replies, f) <= replies.len(),
        forall|f: u16|
            #[trigger] first_naming(replies, f) < replies.len() ==> names_feature(
                replies,
                first_naming(replies, f),
                f,
            ),
        forall|f: u16, j: int|
            0 <= j < first_naming(replies, f) ==> !#[trigger] names_feature(replies, j, f),
    decreases replies.len(),
{
    let (m, o) = discovered(replies);
    if replies.len() == 0 {
        assert(o.no_duplicates());
        assert forall|f: u16| #[trigger] m.contains_key(f) <==> o.contains(f) by {
            if f == FEAT_ROOT {
                assert(o[0] == f);
            }
        }
    } else {
        let prev = replies.drop_last();
        let k = replies.len() - 1;
        law_discovery_table(prev);
        let (m0, o0) = discovered(prev);
        assert forall|j: int, f: u16| 0 <= j < k implies names_feature(replies, j, f)
            == names_feature(prev, j, f) by {
            assert(replies[j] == prev[j]);
        }
        assert forall|f: u16| 0 <= #[trigger] first_naming(replies, f) <= replies.len() by {
            assert(first_naming(prev, f) <= k);
        }
        assert forall|f: u16| #[trigger] first_naming(replies, f) < replies.len() implies names_feature(
            replies,
            first_naming(replies, f),
            f,
        ) by {
            if first_naming(prev, f) < k {
                assert(names_feature(prev, first_naming(prev, f), f));
            }
        }
        assert forall|f: u16, j: int| 0 <= j < first_naming(replies, f) implies !#[trigger] names_feature(
            replies,
            j,
            f,
        ) by {
            if j < k {
                assert(!names_feature(prev, j, f));
            }
        }
        let fresh = match replies.last() {
            Some(r) => r.len() >= 4 && !m0.contains_key(reply_feature_id(r)),
            None => false,
        };
        if !fresh {
            assert(m == m0 && o == o0);
            assert forall|f: u16| f != FEAT_ROOT implies (#[trigger] m.contains_key(f) <==> first_naming(
                replies,
                f,
            ) < replies.len()) by {
                if first_naming(prev, f) >= k && names_feature(replies, k, f) {
                    assert(m0.contains_key(f));
                }
            }
            assert forall|f: u16| f != FEAT_ROOT && #[trigger] m.contains_key(f) implies m[f] == (
                first_naming(replies, f) as u8,
                replies[first_naming(replies, f)]->0[3],
            ) by {
                assert(first_naming(prev, f) < k);
            }
            assert forall|p: int, q: int| 1 <= p < q < o.len() implies first_naming(
                replies,
                #[trigger] o[p],
            ) < first_naming(replies, #[trigger] o[q]) by {
                assert(m0.contains_key(o[p]) && m0.contains_key(o[q]));
                assert(o[p] != FEAT_ROOT && o[q] != FEAT_ROOT) by {
                    assert(o[0] == FEAT_ROOT);
                }
            }
        } else {
            let r = replies.last()->0;
            let g = reply_feature_id(r);
            assert(g != FEAT_ROOT);
            assert(first_naming(prev, g) == k);
            assert(names_feature(replies, k, g));
            assert(first_naming(replies, g) == k);
            assert(m == m0.insert(g, (k as u8, r[3])));
            assert(o == o0.push(g));
            assert(!o0.contains(g));
            assert(o.no_duplicates()) by {
                assert forall|a: int, b: int| 0 <= a < b < o.len() implies o[a] != o[b] by {
                    if b == o.len() - 1 {
                        assert(o0[a] == o[a]);
                    } else {
                        assert(o0[a] == o[a] && o0[b] == o[b]);
                    }
                }
            }
            assert forall|f: u16| #[trigger] m.contains_key(f) <==> o.contains(f) by {
                if f == g {
                    assert(o[o.len() - 1] == g);
                } else {
                    if o.contains(f) {
                        let t = choose|t: int| 0 <= t < o.len() && o[t] == f;
                        assert(o0[t] == f);
                    }
                    if o0.contains(f) {
                        let t = choose|t: int| 0 <= t < o0.len() && o0[t] == f;
                        assert(o[t] == f);
                    }
                }
            }
            assert forall|f: u16| f != FEAT_ROOT implies (#[trigger] m.contains_key(f) <==> first_naming(
                replies,
                f,
            ) < replies.len()) by {
                if f != g && first_naming(prev, f) >= k {
                    assert(!names_feature(replies, k, f));
                }
            }
            assert forall|f: u16| f != FEAT_ROOT && #[trigger] m.contains_key(f) implies m[f] == (
                first_naming(replies, f) as u8,
                replies[first_naming(replies, f)]->0[3],
            ) by {
                if f != g {
                    assert(first_naming(prev, f) < k);
                }
            }
            assert forall|p: int, q: int| 1 <= p < q < o.len() implies first_naming(
                replies,
                #[trigger] o[p],
            ) < first_naming(replies, #[trigger] o[q]) by {
                assert(o[p] == o0[p]);
                assert(m0.contains_key(o0[p]));
                assert(o0[p] != FEAT_ROOT) by {
                    assert(o0[0] == FEAT_ROOT);
                }
                if q < o.len() - 1 {
                    assert(o[q] == o0[q]);
                    assert(m0.contains_key(o0[q]));
                    assert(o0[q] != FEAT_ROOT) by {
                        assert(o0[0] == FEAT_ROOT);
                    }
                } else {
                    assert(first_naming(prev, o0[p]) < k);
                }
            }
        }
    }
}

/// The first byte of a reply, or 0 when it is empty.
pub fn first_or_zero(reply: &[u8]) -> (r: u8)
    ensures
        r == if reply.len() > 0 {
            reply[0]
        } else {
            0u8
        },
{
    if reply.len() > 0 {
        reply[0]
    } else {
        0
    }
}

/// The FEATURE_SET index from ROOT.getFeature(FEATURE_SET): 0 (or an empty
/// reply) means the device has none.
pub fn feature_set_index(reply: &[u8]) -> (r: Result<u8, Error>)
    ensures
        reply.len() > 0 && reply[0] != 0 ==> r == Ok::<u8, Error>(reply[0]),
        !(reply.len() > 0 && reply[0] != 0) ==> (r matches Err(Error::Protocol(m))
            && m@ == "no FEATURE_SET"@),
{
    let idx = first_or_zero(reply);
    if idx == 0 {
        Err(protocol_error("no FEATURE_SET"))
    } else {
        Ok(idx)
    }
}

/// The device type from DEVICE_NAME.getDeviceType: the first reply byte,
/// 0xFF when the reply is empty.
pub fn kind_from_reply(reply: &[u8]) -> (r: u8)
    ensures
        r == if reply.len() > 0 {
            reply[0]
        } else {
            0xFFu8
        },
{
    if reply.len() > 0 {
        reply[0]
    } else {
        0xFF
    }
}

/// (charge %, status) from UNIFIED_BATTERY.getStatus; a charge byte of 0
/// means unknown.
pub fn battery_from_reply(reply: &[u8]) -> (r: Result<(Option<u8>, u8), Error>)
    ensures
        reply.len() < 3 ==> (r matches Err(Error::Protocol(m)) && m@ == "battery reply too short"@),
        reply.len() >= 3 ==> r == Ok::<(Option<u8>, u8), Error>(
            (
                if reply[0] == 0 {
                    None
                } else {
                    Some(reply[0])
                },
                reply[2],
            ),
        ),
{
    if reply.len() < 3 {
        return Err(protocol_error("battery reply too short"));
    }
    let charge = if reply[0] == 0 {
        None
    } else {
        Some(reply[0])
    };
    Ok((charge, reply[2]))
}


// ---- device name --------------------------------------------------------------

/// Reading DEVICE_NAME: getCount gives the length, then getDeviceName(offset)
/// returns chunks until the whole name is in.
pub struct NameReader {
    /// the name length the device announced
    pub total: usize,
    /// the name bytes received so far
    pub bytes: Vec<u8>,
}

/// The displayed name: the bytes decoded leniently, trailing NULs removed.
pub open spec fn name_text(bytes: Seq<u8>) -> Seq<char> {
    trim_nul(utf8_lossy(bytes))
}

impl NameReader {
    pub open spec fn wf(&self) -> bool {
        self.bytes.len() <= self.total <= 255
    }

    /// Starts from the getCount reply; an empty reply is an error.
    pub fn start(count_reply: &[u8]) -> (r: Result<NameReader, Error>)
        ensures
            count_reply.len() == 0 ==> (r matches Err(Error::Protocol(m)) && m@ == "name count"@),
            count_reply.len() > 0 ==> (r matches Ok(n) && n.total == count_reply[0]
                && n.bytes@ == Seq::<u8>::empty() && n.wf()),
    {
        if count_reply.len() == 0 {
            return Err(protocol_error("name count"));
        }
        Ok(NameReader { total: count_reply[0] as usize, bytes: Vec::new() })
    }

    /// The offset to request next, while the name is incomplete.
    pub fn next_offset(&self) -> (r: Option<u8>)
        requires
            self.wf(),
        ensures
            r == if self.bytes.len() < self.total {
                Some(self.bytes.len() as u8)
            } else {
                None::<u8>
            },
    {
        if self.bytes.len() < self.total {
            Some(self.bytes.len() as u8)
        } else {
            None
        }
    }

    /// Takes one getDeviceName reply; returns false (and stops) on an empty
    /// chunk, else keeps as many bytes as the name still lacks.
    pub fn accept(&mut self, chunk: &[u8]) -> (more: bool)
        requires
            old(self).wf(),
        ensures
            final(self).wf(),
            final(self).total == old(self).total,
            more == (chunk.len() > 0),
            chunk.len() == 0 ==> final(self).bytes@ == old(self).bytes@,
            chunk.len() > 0 ==> final(self).bytes@ == old(self).bytes@ + chunk@.take(
                min_nat((old(self).total - old(self).bytes.len()) as nat, chunk.len() as nat) as int,
            ),
    {
        if chunk.len() == 0 {
            return false;
        }
        let missing = self.total - self.bytes.len();
        let take = if missing < chunk.len() {
            missing
        } else {
            chunk.len()
        };
        let ghost start = self.bytes@;
        let mut i: usize = 0;
        while i < take
            invariant
                take <= chunk.len(),
                take == min_nat((self.total - start.len()) as nat, chunk.len() as nat),
                i <= take,
                self.bytes@ == start + chunk@.take(i as int),
                start.len() + take <= self.total <= 255,
                self.total == old(self).total,
                start == old(self).bytes@,
            decreases take - i,
        {
            self.bytes.push(chunk[i]);
            i = i + 1;
            assert(chunk@.take(i as int) == chunk@.take(i - 1).push(chunk@[i - 1]));
        }
        true
    }

    /// The name as shown.
    pub fn finish(&self) -> (r: String)
        ensures
            r@ == name_text(self.bytes@),
    {
        let text = from_utf8_lossy(self.bytes.as_slice());
        trim_trailing_nul(text.as_str())
    }
}


/// A request report is 7 bytes (short) or 20 bytes (long), starts with its
/// report id and the device number, carries the request id big-endian next,
/// and then the parameters when they fit.
pub proof fn law_frame_shape(devnumber: u8, req_id: u16, params: Seq<u8>, prefer_long: bool)
    ensures
        ({
            let f = frame_of(devnumber, req_id, params, prefer_long);
            let long = prefer_long || params.len() > 3;
            &&& f.len() == if long {
                LONG_LEN
            } else {
                SHORT_LEN
            }
            &&& f[0] == if long {
                REPORT_LONG
            } else {
                REPORT_SHORT
            }
            &&& f[1] == devnumber
            &&& f.subrange(2, 4) == be_bytes(req_id)
            &&& params.len() + 4 <= f.len() ==> f.subrange(4, 4 + params.len() as int) == params
        }),
{
    let f = frame_of(devnumber, req_id, params, prefer_long);
    let data = be_bytes(req_id) + params;
    assert(f.subrange(2, 4) =~= be_bytes(req_id));
    if params.len() + 4 <= f.len() {
        assert(f.subrange(4, 4 + params.len() as int) =~= params);
    }
}

/// A report from the device that echoes the request header is the reply,
/// and its parameters are the rest of the report (for feature indexes that
/// cannot be mistaken for an error marker).
pub proof fn law_echoed_header_is_reply(report_id: u8, devnumber: u8, req_id: u16, data: Seq<u8>)
    requires
        req_id / 256 != 0x8F,
        req_id / 256 != 0xFF,
    ensures
        reply_kind(seq![report_id, devnumber] + be_bytes(req_id) + data, devnumber, req_id)
            == ReplyKind::Payload(data),
{
    let r = seq![report_id, devnumber] + be_bytes(req_id) + data;
    let p = r.skip(2);
    assert(p =~= be_bytes(req_id) + data);
    assert(p.take(2) =~= be_bytes(req_id));
    assert(p.skip(2) =~= data);
}

/// A HID++ 2.0 error report for the request (`FF`, the echoed header, the
/// code) is answered by that error.
pub proof fn law_feature_error_reply(devnumber: u8, req_id: u16, code: u8, rest: Seq<u8>)
    ensures
        reply_kind(
            seq![REPORT_LONG, devnumber, 0xFFu8] + be_bytes(req_id) + seq![code] + rest,
            devnumber,
            req_id,
        ) == ReplyKind::Error20(code),
{
    let r = seq![REPORT_LONG, devnumber, 0xFFu8] + be_bytes(req_id) + seq![code] + rest;
    let p = r.skip(2);
    assert(p.subrange(1, 3) =~= be_bytes(req_id));
    assert(p[3] == code);
}

/// A HID++ 1.0 error report for the request (`8F`, the echoed header, the
/// code) is answered by that error.
pub proof fn law_hidpp10_error_reply(devnumber: u8, req_id: u16, code: u8, rest: Seq<u8>)
    ensures
        reply_kind(
            seq![REPORT_SHORT, devnumber, 0x8Fu8] + be_bytes(req_id) + seq![code] + rest,
            devnumber,
            req_id,
        ) == ReplyKind::Error10(code),
{
    let r = seq![REPORT_SHORT, devnumber, 0x8Fu8] + be_bytes(req_id) + seq![code] + rest;
    let p = r.skip(2);
    assert(p.subrange(1, 3) =~= be_bytes(req_id));
    assert(p[3] == code);
}

/// A device that echoes a ping with its mark reports its protocol version.
pub proof fn law_ping_echo_gives_version(
    report_id: u8,
    devnumber: u8,
    major: u8,
    minor: u8,
    rest: Seq<u8>,
)
    ensures
        ping_kind(
            seq![report_id, devnumber] + be_bytes(ping_id()) + seq![major, minor, PING_MARK] + rest,
            devnumber,
        ) == PingKind::Version(major, minor),
{
    let r = seq![report_id, devnumber] + be_bytes(ping_id()) + seq![major, minor, PING_MARK] + rest;
    let p = r.skip(2);
    assert(p.take(2) =~= be_bytes(ping_id()));
    assert(p[2] == major && p[3] == minor && p[4] == PING_MARK);
}

/// A HID++ 1.0 error reply to the ping (short report, sub-id 0x8F, echoing
/// ROOT.ping's id 0x00 0x1B) means a HID++ 1.0 device only when its error
/// code is 0x01 (invalid sub-id); every other code means no device answers
/// at that number.
pub proof fn law_ping_error_reply(devnumber: u8, code: u8, rest: Seq<u8>)
    ensures
        code == 0x01 ==> ping_kind(
            seq![0x10u8, devnumber, 0x8Fu8, 0x00u8, 0x1Bu8, code] + rest,
            devnumber,
        ) == PingKind::Version(1, 0),
        code != 0x01 ==> ping_kind(
            seq![0x10u8, devnumber, 0x8Fu8, 0x00u8, 0x1Bu8, code] + rest,
            devnumber,
        ) == PingKind::Absent,
{
    let r = seq![0x10u8, devnumber, 0x8Fu8, 0x00u8, 0x1Bu8, code] + rest;
    let p = r.skip(2);
    assert(be_bytes(ping_id()) =~= seq![0x00u8, 0x1Bu8]);
    assert(p.take(2) != be_bytes(ping_id())) by {
        assert(p.take(2)[0] == 0x8F);
    }
    assert(p.subrange(1, 3) =~= seq![0x00u8, 0x1Bu8]);
    assert(p[3] == code);
}

} // verus!
