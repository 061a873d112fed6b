//! Onboard-profile (0x8100) memory: profile info, the control sector that
//! lists the profiles, reading and writing sectors in 16-byte pieces, the
//! checks a profile sector must pass before its buttons are touched, and the
//! remap and restore steps built on them.
//!
//! Profile sector layout (format 7, 255-byte sector) — relevant fields:
//!   [ 0]      report-rate index
//!   [ 4..29]  5 DPI stages: x(u16le) y(u16le) flag(1)
//!   [48..]    button specs: N x 4 bytes (see `buttons`)
//!   [253..255] CRC-16/CCITT-FALSE over [0..253]  (big-endian)
//!
//! Write protocol: fn 0x60 startWrite(sector, offset=0, len), fn 0x70
//! writeData(<=16 bytes) repeated, fn 0x80 endWrite (commit).

use vstd::prelude::*;
use crate::buttons::{button_spec_valid, button_text, decode_button, spec_valid};
use crate::crc::{
    be16_of, crc_body, crc_ok, crc_valid, law_put_crc_idempotent_on_valid, law_put_crc_makes_valid,
    put_crc, with_crc,
};
use crate::hidpp::{protocol_error, Device, Error, FEAT_ONBOARD_PROFILES};
use crate::text::{
    decimal, hex_list, hex_list_string, hex_spaced, hex_spaced_string, push_char, push_decimal, push_str,
};

verus! {

pub const FN_GET_INFO: u8 = 0x00;
pub const FN_READ_SECTOR: u8 = 0x50;
pub const FN_START_WRITE: u8 = 0x60;
pub const FN_WRITE_DATA: u8 = 0x70;
pub const FN_END_WRITE: u8 = 0x80;

/// Where the button specs start in a profile sector: offset 48 from format
/// 6 on, 32 in older formats.
pub fn button_offset(profile_format: u8) -> (r: usize)
    ensures
        r == if profile_format >= 6 {
            48usize
        } else {
            32usize
        },
{
    if profile_format >= 6 {
        48
    } else {
        32
    }
}

/// ONBOARD_PROFILES.getInfo, decoded.
#[derive(Debug, Clone, Copy, PartialEq, Eq, Structural)]
pub struct Info {
    pub profile_format: u8,
    pub button_count: usize,
    pub sector_size: usize,
}

impl Info {
    /// Decodes the getInfo reply: format at byte 1, button count at byte 5,
    /// sector size big-endian at bytes 7..9.
    pub fn from_reply(r: &[u8]) -> (res: Result<Info, Error>)
        ensures
            r.len() < 10 ==> (res matches Err(Error::Protocol(m)) && m@ == "onboard getInfo too short"@),
            r.len() >= 10 ==> res == Ok::<Info, Error>(
                Info {
                    profile_format: r[1],
                    button_count: r[5] as usize,
                    sector_size: be16_of(r[7], r[8]) as usize,
                },
            ),
    {
        if r.len() < 10 {
            return Err(protocol_error("onboard getInfo too short"));
        }
        Ok(Info {
            profile_format: r[1],
            button_count: r[5] as usize,
            sector_size: ((r[7] as u16) * 256 + (r[8] as u16)) as usize,
        })
    }
}

/// How much of the control sector (sector 0) is read: the sector size, but
/// at least 64 bytes.
pub fn control_read_size(sector_size: usize) -> (r: usize)
    ensures
        r == if sector_size >= 64 {
            sector_size
        } else {
            64usize
        },
{
    if sector_size >= 64 {
        sector_size
    } else {
        64
    }
}

// ---- the control sector -----------------------------------------------------

/// The profile headers of a control sector from record `i` on: 4-byte
/// records of (sector big-endian, enabled flag, unused), ended by a record
/// that does not fit in 3 bytes, starts `FF FF`, or names sector 0.
pub open spec fn headers_from(ctrl: Seq<u8>, i: int) -> Seq<(u16, u8)>
    decreases ctrl.len() + 4 - 4 * i,
{
    if i < 0 || 4 * i + 3 > ctrl.len() || (ctrl[4 * i] == 0xFF && ctrl[4 * i + 1] == 0xFF) || be16_of(
        ctrl[4 * i],
        ctrl[4 * i + 1],
    ) == 0 {
        Seq::empty()
    } else {
        seq![(be16_of(ctrl[4 * i], ctrl[4 * i + 1]), ctrl[4 * i + 2])] + headers_from(ctrl, i + 1)
    }
}

/// (sector, enabled) for each profile, from the control sector.
pub fn parse_headers(ctrl: &[u8]) -> (r: Vec<(u16, u8)>)
    ensures
        r@ == headers_from(ctrl@, 0),
{
    let mut headers: Vec<(u16, u8)> = Vec::new();
    let mut pos: usize = 0;
    let ghost mut i: int = 0;
    loop
        invariant_except_break
            headers@ + headers_from(ctrl@, i) == headers_from(ctrl@, 0),
        invariant
            pos == 4 * i,
            i >= 0,
            pos <= ctrl.len(),
        ensures
            headers@ == headers_from(ctrl@, 0),
        decreases ctrl.len() - pos,
    {
        if ctrl.len() - pos < 3 {
            assert(headers@ + Seq::<(u16, u8)>::empty() =~= headers@);
            break;
        }
        let a = ctrl[pos];
        let b = ctrl[pos + 1];
        if a == 0xFF && b == 0xFF {
            assert(headers@ + Seq::<(u16, u8)>::empty() =~= headers@);
            break;
        }
        let sector = (a as u16) * 256 + (b as u16);
        if sector == 0 {
            assert(headers@ + Seq::<(u16, u8)>::empty() =~= headers@);
            break;
        }
        let ghost before = headers@;
        headers.push((sector, ctrl[pos + 2]));
        assert(headers@ + headers_from(ctrl@, i + 1) =~= before + headers_from(ctrl@, i));
        if ctrl.len() - pos < 7 {
            assert(headers_from(ctrl@, i + 1) == Seq::<(u16, u8)>::empty());
            assert(headers@ + Seq::<(u16, u8)>::empty() =~= headers@);
            assert(headers@ == headers_from(ctrl@, 0));
            break;
        }
        pos = pos + 4;
        proof {
            i = i + 1;
        }
    }
    headers
}

/// The first enabled profile's sector.
pub open spec fn first_enabled(h: Seq<(u16, u8)>) -> Option<u16>
    decreases h.len(),
{
    if h.len() == 0 {
        None
    } else {
        match first_enabled(h.drop_last()) {
            Some(s) => Some(s),
            None => if h.last().1 != 0 {
                Some(h.last().0)
            } else {
                None
            },
        }
    }
}

/// The active profile's sector: the first enabled one, else the first one.
pub open spec fn active_sector_of(h: Seq<(u16, u8)>) -> Option<u16> {
    match first_enabled(h) {
        Some(s) => Some(s),
        None => if h.len() > 0 {
            Some(h[0].0)
        } else {
            None
        },
    }
}

/// The sector of the active profile; an error when there are none.
pub fn active_sector(headers: &Vec<(u16, u8)>) -> (r: Result<u16, Error>)
    ensures
        match active_sector_of(headers@) {
            Some(s) => r == Ok::<u16, Error>(s),
            None => r matches Err(Error::Protocol(m)) && m@ == "no onboard profiles found"@,
        },
{
    let mut i: usize = 0;
    while i < headers.len()
        invariant
            i <= headers.len(),
            first_enabled(headers@.take(i as int)) is None,
        decreases headers.len() - i,
    {
        assert(headers@.take(i + 1).drop_last() == headers@.take(i as int));
        if headers[i].1 != 0 {
            proof {
                lemma_first_enabled_prefix(headers@, (i + 1) as int);
            }
            return Ok(headers[i].0);
        }
        i = i + 1;
    }
    assert(headers@.take(headers.len() as int) == headers@);
    if headers.len() > 0 {
        Ok(headers[0].0)
    } else {
        Err(protocol_error("no onboard profiles found"))
    }
}

proof fn lemma_first_enabled_prefix(h: Seq<(u16, u8)>, k: int)
    requires
        0 <= k <= h.len(),
        first_enabled(h.take(k)) is Some,
    ensures
        first_enabled(h) == first_enabled(h.take(k)),
    decreases h.len() - k,
{
    if k < h.len() {
        assert(h.take(k + 1).drop_last() == h.take(k));
        lemma_first_enabled_prefix(h, k + 1);
    } else {
        assert(h.take(k) == h);
    }
}

// ---- reading a sector --------------------------------------------------------

/// A feature call: function and parameters.
pub struct Call {
    pub function: u8,
    pub params: Vec<u8>,
}

/// Parameters of readSector(sector, offset).
pub open spec fn read_params_of(sector: u16, offset: nat) -> Seq<u8> {
    seq![(sector / 256) as u8, (sector % 256) as u8, ((offset / 256) % 256) as u8, (offset % 256) as u8]
}

/// The readSector call for `offset` within `sector`.
pub fn read_call(sector: u16, offset: usize) -> (c: Call)
    ensures
        c.function == FN_READ_SECTOR,
        c.params@ == read_params_of(sector, offset as nat),
{
    let mut p: Vec<u8> = Vec::new();
    p.push((sector / 256) as u8);
    p.push((sector % 256) as u8);
    p.push(((offset / 256) % 256) as u8);
    p.push((offset % 256) as u8);
    Call { function: FN_READ_SECTOR, params: p }
}

/// Reading `size` bytes of a sector, 16 bytes per request: whole chunks from
/// offset 0 up, then, when the size is no multiple of 16, one last chunk
/// read at `size - 16` of which only the missing tail is kept.
pub struct SectorRead {
    pub sector: u16,
    pub size: usize,
    pub data: Vec<u8>,
    /// the last, overlapping chunk has been taken
    pub done: bool,
}

impl SectorRead {
    pub open spec fn wf(&self) -> bool {
        &&& self.size == 0 || self.size >= 16
        &&& self.data.len() <= self.size
        &&& !self.done ==> self.data.len() % 16 == 0
    }

    /// Whether the next request reads a whole chunk at the current end.
    pub open spec fn in_chunk_phase(&self) -> bool {
        !self.done && self.data.len() + 15 < self.size
    }

    /// Whether the next request reads the last, overlapping chunk.
    pub open spec fn in_tail_phase(&self) -> bool {
        !self.done && self.data.len() + 15 >= self.size && self.data.len() < self.size
    }

    /// How many leading bytes of the last chunk are already held.
    pub open spec fn tail_skip(&self) -> nat {
        (16 + self.data.len() - self.size) as nat
    }

    /// Starts reading `size` bytes of `sector`.
    pub fn new(sector: u16, size: usize) -> (r: SectorRead)
        requires
            size == 0 || size >= 16,
        ensures
            r.wf(),
            r.sector == sector,
            r.size == size,
            r.data@ == Seq::<u8>::empty(),
            !r.done,
    {
        SectorRead { sector, size, data: Vec::new(), done: false }
    }

    /// The offset to read next, or `None` when the read is complete.
    pub fn next_offset(&self) -> (r: Option<usize>)
        requires
            self.wf(),
        ensures
            self.in_chunk_phase() ==> r == Some(self.data.len()),
            self.in_tail_phase() ==> r == Some((self.size - 16) as usize),
            !self.in_chunk_phase() && !self.in_tail_phase() ==> r is None,
    {
        if self.done {
            None
        } else if self.data.len() + 15 < self.size {
            Some(self.data.len())
        } else if self.data.len() < self.size {
            Some(self.size - 16)
        } else {
            None
        }
    }

    /// Whether a reply of `chunk_len` bytes can be taken: the last chunk must
    /// reach past the bytes already held.
    pub fn accepts(&self, chunk_len: usize) -> (r: bool)
        requires
            self.wf(),
        ensures
            r == (!self.in_tail_phase() || chunk_len >= self.tail_skip()),
    {
        if !self.done && self.data.len() + 15 >= self.size && self.data.len() < self.size {
            chunk_len >= 16 - (self.size - self.data.len())
        } else {
            true
        }
    }

    /// Takes the reply to the request for `next_offset`: a whole chunk must
    /// hold 16 bytes and contributes them; the last chunk contributes its
    /// bytes past those already held.
    pub fn accept(&mut self, chunk: &[u8]) -> (r: Result<(), Error>)
        requires
            old(self).wf(),
            old(self).in_chunk_phase() || old(self).in_tail_phase(),
            old(self).in_tail_phase() ==> chunk.len() >= old(self).tail_skip(),
        ensures
            final(self).sector == old(self).sector,
            final(self).size == old(self).size,
            r is Ok ==> final(self).wf(),
            old(self).in_chunk_phase() && chunk.len() < 16 ==> (r matches Err(Error::Protocol(m))
                && m@ == "short sector read"@),
            old(self).in_chunk_phase() && chunk.len() >= 16 ==> r is Ok && final(self).data@
                == old(self).data@ + chunk@.take(16) && !final(self).done,
            old(self).in_tail_phase() ==> r is Ok && final(self).done && final(self).data@
                == old(self).data@ + chunk@.subrange(
                old(self).tail_skip() as int,
                if chunk.len() < 16 {
                    chunk.len() as int
                } else {
                    16
                },
            ),
    {
        let ghost start = self.data@;
        if self.data.len() + 15 < self.size {
            if chunk.len() < 16 {
                return Err(protocol_error("short sector read"));
            }
            let mut i: usize = 0;
            while i < 16
                invariant
                    i <= 16 <= chunk.len(),
                    self.data@ == start + chunk@.take(i as int),
                    self.sector == old(self).sector,
                    self.size == old(self).size,
                    self.done == old(self).done,
                    start == old(self).data@,
                decreases 16 - i,
            {
                self.data.push(chunk[i]);
                i = i + 1;
                assert(chunk@.take(i as int) == chunk@.take(i - 1).push(chunk@[i - 1]));
            }
            Ok(())
        } else {
            let skip = 16 - (self.size - self.data.len());
            let end = if chunk.len() < 16 {
                chunk.len()
            } else {
                16
            };
            let mut i: usize = skip;
            while i < end
                invariant
                    skip <= i <= end <= 16,
                    end <= chunk.len(),
                    self.data@ == start + chunk@.subrange(skip as int, i as int),
                    self.sector == old(self).sector,
                    self.size == old(self).size,
                    start == old(self).data@,
                    start.len() + 16 - skip == self.size,
                decreases end - i,
            {
                self.data.push(chunk[i]);
                i = i + 1;
                assert(chunk@.subrange(skip as int, i as int) == chunk@.subrange(skip as int, i - 1).push(
                    chunk@[i - 1],
                ));
            }
            self.done = true;
            Ok(())
        }
    }
}

// ---- writing a sector --------------------------------------------------------

/// The writeData pieces of `bytes` from offset `o` on: 16 bytes each, the
/// last one holding whatever remains.
pub open spec fn write_pieces(bytes: Seq<u8>, o: nat) -> Seq<Seq<u8>>
    decreases bytes.len() + 16 - o,
{
    if o < bytes.len() {
        let end = if o + 16 < bytes.len() {
            o + 16
        } else {
            bytes.len() as nat
        };
        seq![bytes.subrange(o as int, end as int)] + write_pieces(bytes, o + 16)
    } else {
        Seq::empty()
    }
}

/// Parameters of startWrite(sector, offset 0, length).
pub open spec fn start_write_params(sector: u16, len: nat) -> Seq<u8> {
    seq![(sector / 256) as u8, (sector % 256) as u8, 0u8, 0u8, ((len / 256) % 256) as u8, (len % 256) as u8]
}

/// The calls that write a whole sector: startWrite, the writeData pieces,
/// endWrite.
pub open spec fn write_calls_of(sector: u16, bytes: Seq<u8>) -> Seq<(u8, Seq<u8>)> {
    seq![(FN_START_WRITE, start_write_params(sector, bytes.len()))] + write_pieces(
        bytes,
        0,
    ).map_values(|p: Seq<u8>| (FN_WRITE_DATA, p)) + seq![(FN_END_WRITE, Seq::<u8>::empty())]
}

/// The calls, in order, that write `bytes` (checksum included) to `sector`.
pub fn write_calls(sector: u16, bytes: &[u8]) -> (r: Vec<Call>)
    ensures
        r.len() == write_calls_of(sector, bytes@).len(),
        forall|k: int|
            0 <= k < r.len() ==> (#[trigger] r@[k]).function == write_calls_of(sector, bytes@)[k].0
                && r@[k].params@ == write_calls_of(sector, bytes@)[k].1,
{
    let len = bytes.len();
    let ghost plan = write_calls_of(sector, bytes@);
    let ghost pieces = write_pieces(bytes@, 0);
    let mut start: Vec<u8> = Vec::new();
    start.push((sector / 256) as u8);
    start.push((sector % 256) as u8);
    start.push(0);
    start.push(0);
    start.push(((len / 256) % 256) as u8);
    start.push((len % 256) as u8);
    let mut calls: Vec<Call> = Vec::new();
    calls.push(Call { function: FN_START_WRITE, params: start });
    assert(calls@[0].params@ =~= start_write_params(sector, bytes@.len()));
    let ghost mut done: Seq<Seq<u8>> = Seq::empty();
    assert(pieces =~= done + write_pieces(bytes@, 0));
    let mut o: usize = 0;
    while o < len
        invariant
            o <= len,
            len == bytes.len(),
            pieces == write_pieces(bytes@, 0),
            pieces == done + write_pieces(bytes@, o as nat),
            calls.len() == 1 + done.len(),
            calls@[0].function == FN_START_WRITE,
            calls@[0].params@ == start_write_params(sector, bytes@.len()),
            forall|k: int|
                1 <= k < calls.len() ==> (#[trigger] calls@[k]).function == FN_WRITE_DATA
                    && calls@[k].params@ == done[k - 1],
        decreases len - o,
    {
        let end = if len - o > 16 {
            o + 16
        } else {
            len
        };
        let mut piece: Vec<u8> = Vec::new();
        let mut j: usize = o;
        while j < end
            invariant
                o <= j <= end <= len == bytes.len(),
                piece@ == bytes@.subrange(o as int, j as int),
            decreases end - j,
        {
            piece.push(bytes[j]);
            j = j + 1;
            assert(bytes@.subrange(o as int, j as int) == bytes@.subrange(o as int, j - 1).push(
                bytes@[j - 1],
            ));
        }
        assert(write_pieces(bytes@, o as nat) == seq![piece@] + write_pieces(bytes@, (o + 16) as nat));
        let ghost prev = done;
        calls.push(Call { function: FN_WRITE_DATA, params: piece });
        proof {
            done = done.push(piece@);
            assert(prev + (seq![piece@] + write_pieces(bytes@, (o + 16) as nat)) =~= done
                + write_pieces(bytes@, (o + 16) as nat));
        }
        if len - o <= 16 {
            assert(write_pieces(bytes@, (o + 16) as nat) == Seq::<Seq<u8>>::empty());
            assert(write_pieces(bytes@, len as nat) == Seq::<Seq<u8>>::empty());
            o = len;
        } else {
            o = o + 16;
        }
    }
    assert(write_pieces(bytes@, o as nat) == Seq::<Seq<u8>>::empty());
    assert(done + Seq::<Seq<u8>>::empty() =~= done);
    calls.push(Call { function: FN_END_WRITE, params: Vec::new() });
    assert forall|k: int|
        0 <= k < calls.len() implies (#[trigger] calls@[k]).function == plan[k].0
        && calls@[k].params@ == plan[k].1 by {
        if 1 <= k < calls.len() - 1 {
            assert(plan[k] == (FN_WRITE_DATA, pieces[k - 1]));
        }
        if k == calls.len() - 1 {
            assert(calls@[k].params@ =~= Seq::<u8>::empty());
        }
    }
    calls
}


// ---- the active profile ----------------------------------------------------------

/// Whether the device can hold onboard profiles.
pub fn onboard_support(d: &Device) -> (r: Result<(), Error>)
    ensures
        d.features@.contains_key(FEAT_ONBOARD_PROFILES) ==> r is Ok,
        !d.features@.contains_key(FEAT_ONBOARD_PROFILES) ==> (r matches Err(Error::NotSupported(m))
            && m@ == "device has no ONBOARD_PROFILES (0x8100)"@),
{
    if !d.has(FEAT_ONBOARD_PROFILES) {
        return Err(Error::NotSupported("device has no ONBOARD_PROFILES (0x8100)"));
    }
    Ok(())
}

/// Whether button `i` of a sector (specs from `off`) lies inside the data
/// and is a recognized mapping.
pub open spec fn slot_valid(data: Seq<u8>, off: int, i: int) -> bool {
    off + 4 * i + 4 <= data.len() && button_spec_valid(data.subrange(off + 4 * i, off + 4 * i + 4))
}

/// How many of the first `n` buttons are recognized mappings.
pub open spec fn valid_count(data: Seq<u8>, off: int, n: nat) -> nat
    decreases n,
{
    if n == 0 {
        0
    } else {
        valid_count(data, off, (n - 1) as nat) + if slot_valid(data, off, n - 1) {
            1nat
        } else {
            0nat
        }
    }
}

/// The active profile's sector, checked and ready for remapping.
pub struct ActiveProfile {
    pub sector: u16,
    pub size: usize,
    pub button_count: usize,
    pub button_off: usize,
    pub data: Vec<u8>,
}

/// The message for a profile sector whose checksum does not match.
pub open spec fn crc_mismatch_text(sector: u16) -> Seq<char> {
    "profile sector "@ + decimal(sector as nat) + " CRC mismatch — refusing to touch it (format may differ)"@
}

/// The message for a sector whose button array is not recognized.
pub open spec fn unrecognized_text(off: nat, valid: nat, count: nat) -> Seq<char> {
    "button array not recognized at offset "@ + decimal(off) + " ("@ + decimal(valid) + "/"@
        + decimal(count) + " specs valid)"@
}

/// Checks a profile sector read from the device before anything touches it:
/// its checksum must match, and all but at most one of its button specs
/// must be recognized mappings.
pub fn check_profile(info: &Info, sector: u16, data: Vec<u8>) -> (r: Result<ActiveProfile, Error>)
    requires
        data.len() >= 2,
        info.button_count * 4 + 52 <= usize::MAX,
    ensures
        !crc_valid(data@) ==> (r matches Err(Error::Protocol(m)) && m@ == crc_mismatch_text(sector)),
        crc_valid(data@) && valid_count(
            data@,
            if info.profile_format >= 6 { 48int } else { 32int },
            info.button_count as nat,
        ) + 1 < info.button_count ==> (r matches Err(Error::Protocol(m)) && m@ == unrecognized_text(
            if info.profile_format >= 6 { 48nat } else { 32nat },
            valid_count(
                data@,
                if info.profile_format >= 6 { 48int } else { 32int },
                info.button_count as nat,
            ),
            info.button_count as nat,
        )),
        crc_valid(data@) && valid_count(
            data@,
            if info.profile_format >= 6 { 48int } else { 32int },
            info.button_count as nat,
        ) + 1 >= info.button_count ==> (r matches Ok(p) && p.sector == sector && p.size
            == info.sector_size && p.button_count == info.button_count && p.button_off == (
        if info.profile_format >= 6 {
            48usize
        } else {
            32usize
        }) && p.data@ == data@),
{
    if !crc_ok(data.as_slice()) {
        let mut m = String::new();
        push_str(&mut m, "profile sector ");
        push_decimal(&mut m, sector as u64);
        push_str(&mut m, " CRC mismatch — refusing to touch it (format may differ)");
        return Err(Error::Protocol(m));
    }
    let button_off = button_offset(info.profile_format);
    let mut valid: usize = 0;
    let mut i: usize = 0;
    while i < info.button_count
        invariant
            i <= info.button_count,
            info.button_count * 4 + 52 <= usize::MAX,
            button_off <= 48,
            valid <= i,
            valid == valid_count(data@, button_off as int, i as nat),
        decreases info.button_count - i,
    {
        let o = button_off + i * 4;
        if o + 4 <= data.len() {
            let spec: [u8; 4] = [data[o], data[o + 1], data[o + 2], data[o + 3]];
            assert(spec@ =~= data@.subrange(o as int, o + 4));
            if spec_valid(&spec) {
                valid = valid + 1;
            }
        }
        i = i + 1;
    }
    if valid + 1 < info.button_count {
        let mut m = String::new();
        push_str(&mut m, "button array not recognized at offset ");
        push_decimal(&mut m, button_off as u64);
        push_str(&mut m, " (");
        push_decimal(&mut m, valid as u64);
        push_str(&mut m, "/");
        push_decimal(&mut m, info.button_count as u64);
        push_str(&mut m, " specs valid)");
        return Err(Error::Protocol(m));
    }
    Ok(ActiveProfile {
        sector,
        size: info.sector_size,
        button_count: info.button_count,
        button_off,
        data,
    })
}

// ---- remapping a button ------------------------------------------------------------

/// `data` with the 4 bytes at `o` replaced by `spec`.
pub open spec fn splice4(data: Seq<u8>, o: int, spec: Seq<u8>) -> Seq<u8> {
    data.take(o) + spec + data.skip(o + 4)
}

/// The sector written to remap the button at `o`: the spec patched in and
/// the checksum recomputed.
pub open spec fn assigned_sector(data: Seq<u8>, o: int, spec: Seq<u8>) -> Seq<u8> {
    with_crc(splice4(data, o, spec))
}

/// What a remap does.
pub enum AssignPlan {
    /// The button already has this spec: nothing to write.
    AlreadySet,
    /// Write `sector`, in which the button at `offset` changes from `old`.
    Write { offset: usize, old: [u8; 4], sector: Vec<u8> },
}

/// The message for a button number outside the profile.
pub open spec fn out_of_range_text(button: nat, count: nat) -> Seq<char> {
    "button "@ + decimal(button) + " out of range 1.."@ + decimal(count)
}

/// Where button `button` (1-based) starts in the profile sector.
pub open spec fn button_pos(p: &ActiveProfile, button: nat) -> int {
    p.button_off + 4 * (button - 1)
}

/// The spec bytes of button `button` (1-based).
pub open spec fn button_bytes(p: &ActiveProfile, button: nat) -> Seq<u8> {
    p.data@.subrange(button_pos(p, button), button_pos(p, button) + 4)
}

/// Plans remapping button `button` (1-based) of the active profile to
/// `spec`.
pub fn plan_assign(p: &ActiveProfile, button: usize, spec: [u8; 4]) -> (r: Result<AssignPlan, Error>)
    requires
        1 <= button <= p.button_count ==> p.button_off + 4 * button <= p.data.len(),
    ensures
        !(1 <= button <= p.button_count) ==> (r matches Err(Error::Protocol(m)) && m@
            == out_of_range_text(button as nat, p.button_count as nat)),
        1 <= button <= p.button_count && button_bytes(p, button as nat) == spec@ ==> (r matches Ok(
            AssignPlan::AlreadySet,
        )),
        1 <= button <= p.button_count && button_bytes(p, button as nat) != spec@ ==> (r matches Ok(
            AssignPlan::Write { offset, old, sector },
        ) && offset == button_pos(p, button as nat) && old@ == button_bytes(p, button as nat) && sector@
            == assigned_sector(p.data@, button_pos(p, button as nat), spec@)),
{
    if button < 1 || button > p.button_count {
        let mut m = String::new();
        push_str(&mut m, "button ");
        push_decimal(&mut m, button as u64);
        push_str(&mut m, " out of range 1..");
        push_decimal(&mut m, p.button_count as u64);
        return Err(Error::Protocol(m));
    }
    let o = p.button_off + (button - 1) * 4;
    let old: [u8; 4] = [p.data[o], p.data[o + 1], p.data[o + 2], p.data[o + 3]];
    assert(old@ =~= p.data@.subrange(o as int, o + 4));
    if old[0] == spec[0] && old[1] == spec[1] && old[2] == spec[2] && old[3] == spec[3] {
        assert(old@ =~= spec@);
        return Ok(AssignPlan::AlreadySet);
    }
    assert(old@ != spec@) by {
        if old@ == spec@ {
            assert(old@[0] == spec@[0] && old@[1] == spec@[1] && old@[2] == spec@[2] && old@[3] == spec@[3]);
        }
    }
    let mut new = p.data.clone();
    new.set(o, spec[0]);
    new.set(o + 1, spec[1]);
    new.set(o + 2, spec[2]);
    new.set(o + 3, spec[3]);
    assert(new@ =~= splice4(p.data@, o as int, spec@));
    put_crc(new.as_mut_slice());
    Ok(AssignPlan::Write { offset: o, old, sector: new })
}

/// A readback that confirms a remap: checksum valid, and the button holds
/// the new spec.
pub open spec fn readback_ok(check: Seq<u8>, o: int, spec: Seq<u8>) -> bool {
    crc_valid(check) && check.subrange(o, o + 4) == spec
}

/// The message when the readback holds another spec.
pub open spec fn readback_mismatch_text(got: Seq<u8>) -> Seq<char> {
    "readback mismatch (got "@ + hex_list(got) + ") — restore with `lowtech restore`"@
}

/// Checks the sector read back after a remap of the button at `o` to
/// `spec`.
pub fn verify_readback(check: &[u8], o: usize, spec: [u8; 4]) -> (r: Result<(), Error>)
    requires
        check.len() >= 2,
        crc_valid(check@) ==> o + 4 <= check.len(),
    ensures
        !crc_valid(check@) ==> (r matches Err(Error::Protocol(m)) && m@
            == "readback CRC bad after write — restore from backup with `lowtech restore`"@),
        crc_valid(check@) && check@.subrange(o as int, o + 4) == spec@ ==> r is Ok,
        crc_valid(check@) && check@.subrange(o as int, o + 4) != spec@ ==> (r matches Err(
            Error::Protocol(m),
        ) && m@ == readback_mismatch_text(check@.subrange(o as int, o + 4))),
        r is Ok <==> readback_ok(check@, o as int, spec@),
{
    if !crc_ok(check) {
        return Err(protocol_error(
            "readback CRC bad after write — restore from backup with `lowtech restore`",
        ));
    }
    let rb: [u8; 4] = [check[o], check[o + 1], check[o + 2], check[o + 3]];
    assert(rb@ =~= check@.subrange(o as int, o + 4));
    if rb[0] == spec[0] && rb[1] == spec[1] && rb[2] == spec[2] && rb[3] == spec[3] {
        assert(rb@ =~= spec@);
        return Ok(());
    }
    assert(rb@ != spec@) by {
        if rb@ == spec@ {
            assert(rb@[0] == spec@[0] && rb@[1] == spec@[1] && rb@[2] == spec@[2] && rb@[3] == spec@[3]);
        }
    }
    let mut m = String::new();
    push_str(&mut m, "readback mismatch (got ");
    let l = hex_list_string(&rb);
    push_str(&mut m, l.as_str());
    push_str(&mut m, ") — restore with `lowtech restore`");
    Err(Error::Protocol(m))
}

/// Remapping writes a sector whose checksum is valid, whose button holds
/// the new spec, and whose other bytes before the checksum are those read:
/// as long as the button lies before the checksum bytes.
pub proof fn law_assigned_sector(data: Seq<u8>, o: int, spec: Seq<u8>)
    requires
        spec.len() == 4,
        0 <= o,
        o + 4 <= data.len() - 2,
    ensures
        crc_valid(assigned_sector(data, o, spec)),
        assigned_sector(data, o, spec).len() == data.len(),
        assigned_sector(data, o, spec).subrange(o, o + 4) == spec,
        forall|j: int|
            0 <= j < data.len() - 2 && !(o <= j < o + 4) ==> #[trigger] assigned_sector(
                data,
                o,
                spec,
            )[j] == data[j],
{
    let s = splice4(data, o, spec);
    assert(s.len() == data.len());
    law_put_crc_makes_valid(s);
    let w = assigned_sector(data, o, spec);
    assert(w.subrange(o, o + 4) =~= spec);
    assert forall|j: int| 0 <= j < data.len() - 2 && !(o <= j < o + 4) implies #[trigger] w[j]
        == data[j] by {
        assert(w[j] == s[j]);
    }
}

/// If the device stores what a remap writes, reading it back passes the
/// check.
pub proof fn law_readback_of_written_sector_passes(data: Seq<u8>, o: int, spec: Seq<u8>)
    requires
        spec.len() == 4,
        0 <= o,
        o + 4 <= data.len() - 2,
    ensures
        readback_ok(assigned_sector(data, o, spec), o, spec),
{
    law_assigned_sector(data, o, spec);
}

// ---- backup and restore ------------------------------------------------------

/// Where the sector is saved, as it was, before a remap.
pub open spec fn backup_path_of(sector: u16) -> Seq<char> {
    "./lowtech-backup-sector"@ + decimal(sector as nat) + ".bin"@
}

/// Where the sector is saved, as it was, before a remap.
pub fn backup_path(sector: u16) -> (r: String)
    ensures
        r@ == backup_path_of(sector),
{
    let mut s = String::new();
    push_str(&mut s, "./lowtech-backup-sector");
    push_decimal(&mut s, sector as u64);
    push_str(&mut s, ".bin");
    s
}

/// A backup fit to restore: a whole sector with a valid checksum.
pub open spec fn backup_ok(data: Seq<u8>, sector_size: nat) -> bool {
    data.len() == sector_size && crc_valid(data)
}

/// Checks a backup before restoring it.
pub fn check_backup(data: &[u8], sector_size: usize) -> (r: Result<(), Error>)
    requires
        data.len() == sector_size ==> sector_size >= 2,
    ensures
        r is Ok <==> backup_ok(data@, sector_size as nat),
        !backup_ok(data@, sector_size as nat) ==> (r matches Err(Error::Protocol(m)) && m@
            == "backup file invalid (size/CRC)"@),
{
    if data.len() != sector_size || !crc_ok(data) {
        return Err(protocol_error("backup file invalid (size/CRC)"));
    }
    Ok(())
}

/// A readback that confirms a restore: valid, and equal to the backup.
pub open spec fn restore_ok(check: Seq<u8>, data: Seq<u8>) -> bool {
    crc_valid(check) && check == data
}

/// Checks the sector read back after a restore: valid, and equal to the
/// backup.
pub fn verify_restore(check: &[u8], data: &[u8]) -> (r: Result<(), Error>)
    requires
        check.len() >= 2,
    ensures
        r is Ok <==> restore_ok(check@, data@),
        !restore_ok(check@, data@) ==> (r matches Err(Error::Protocol(m)) && m@
            == "restore verification failed"@),
{
    if crc_ok(check) && slices_equal(check, data) {
        Ok(())
    } else {
        Err(protocol_error("restore verification failed"))
    }
}

/// Byte-wise equality of two slices.
pub fn slices_equal(a: &[u8], b: &[u8]) -> (r: bool)
    ensures
        r == (a@ == b@),
{
    if a.len() != b.len() {
        return false;
    }
    let mut i: usize = 0;
    while i < a.len()
        invariant
            i <= a.len() == b.len(),
            forall|j: int| 0 <= j < i ==> a@[j] == b@[j],
        decreases a.len() - i,
    {
        if a[i] != b[i] {
            return false;
        }
        i = i + 1;
    }
    assert(a@ =~= b@);
    true
}

/// A profile sector that passed the checks and was read whole can be put
/// back from its backup: the backup passes its check; restoring it sends
/// startWrite with the backup's length, then writeData pieces that joined
/// in order are exactly the backup, then endWrite; and if the device
/// stores what was sent, reading the sector back confirms the restore.
pub proof fn law_loaded_profile_is_restorable(data: Seq<u8>, sector: u16, sector_size: nat)
    requires
        crc_valid(data),
        data.len() == sector_size,
    ensures
        backup_ok(data, sector_size),
        write_calls_of(sector, data)[0] == (FN_START_WRITE, start_write_params(sector, data.len())),
        write_calls_of(sector, data).last() == (FN_END_WRITE, Seq::<u8>::empty()),
        forall|k: int|
            1 <= k < write_calls_of(sector, data).len() - 1 ==> (#[trigger] write_calls_of(
                sector,
                data,
            )[k]).0 == FN_WRITE_DATA,
        write_calls_of(sector, data).subrange(1, write_calls_of(sector, data).len() - 1).map_values(
            |c: (u8, Seq<u8>)| c.1,
        ).flatten() == data,
        restore_ok(data, data),
{
    let calls = write_calls_of(sector, data);
    let pieces = write_pieces(data, 0);
    let middle = pieces.map_values(|p: Seq<u8>| (FN_WRITE_DATA, p));
    assert(calls.subrange(1, calls.len() - 1) =~= middle);
    assert(middle.map_values(|c: (u8, Seq<u8>)| c.1) =~= pieces);
    law_write_pieces_cover_sector(data);
    assert forall|k: int| 1 <= k < calls.len() - 1 implies (#[trigger] calls[k]).0 == FN_WRITE_DATA by {
        assert(calls[k] == middle[k - 1]);
    }
}

/// The buttons before the checksum keep their validity through a remap,
/// except the remapped one, which takes that of the new spec.
proof fn lemma_valid_count_after_assign(data: Seq<u8>, off: int, n: nat, b: int, spec: Seq<u8>)
    requires
        spec.len() == 4,
        button_spec_valid(spec),
        0 <= off,
        0 <= b,
        off + 4 * b + 4 <= data.len() - 2,
        off + 4 * n <= data.len() - 2,
    ensures
        valid_count(assigned_sector(data, off + 4 * b, spec), off, n) >= valid_count(data, off, n),
    decreases n,
{
    if n > 0 {
        let i = n - 1;
        let o = off + 4 * b;
        let w = assigned_sector(data, o, spec);
        lemma_valid_count_after_assign(data, off, (n - 1) as nat, b, spec);
        law_assigned_sector(data, o, spec);
        if i == b {
            assert(slot_valid(w, off, i));
        } else {
            assert(w.subrange(off + 4 * i, off + 4 * i + 4) =~= data.subrange(
                off + 4 * i,
                off + 4 * i + 4,
            ));
        }
    }
}

/// The sector a remap wrote passes the profile checks again, when the new
/// spec is a recognized mapping and the whole button array lies before the
/// checksum bytes.
pub proof fn law_remapped_sector_is_accepted_again(
    data: Seq<u8>,
    off: int,
    count: nat,
    button: nat,
    spec: Seq<u8>,
)
    requires
        spec.len() == 4,
        button_spec_valid(spec),
        0 <= off,
        1 <= button <= count,
        off + 4 * count <= data.len() - 2,
        crc_valid(data),
        valid_count(data, off, count) + 1 >= count,
    ensures
        crc_valid(assigned_sector(data, off + 4 * (button - 1), spec)),
        valid_count(assigned_sector(data, off + 4 * (button - 1), spec), off, count) + 1 >= count,
        assigned_sector(data, off + 4 * (button - 1), spec).subrange(
            off + 4 * (button - 1),
            off + 4 * (button - 1) + 4,
        ) == spec,
{
    law_assigned_sector(data, off + 4 * (button - 1), spec);
    lemma_valid_count_after_assign(data, off, count, button - 1, spec);
}

/// `s` padded on the right with spaces to `width` characters; a longer
/// `s` is left as it is.
pub open spec fn pad_to(s: Seq<char>, width: nat) -> Seq<char> {
    if s.len() < width {
        s + Seq::new((width - s.len()) as nat, |i: int| ' ')
    } else {
        s
    }
}

/// The listing line for button `number` (1-based) holding `spec`: the
/// button's name in a column of 12 characters, then its bytes.
pub open spec fn button_line_of(number: nat, spec: Seq<u8>) -> Seq<char> {
    "  button "@ + decimal(number) + ": "@ + pad_to(button_text(spec), 12) + " ["@ + hex_spaced(spec)
        + "]"@
}

/// The listing line for button `number` (1-based) holding `spec`.
pub fn button_line(number: usize, spec: &[u8]) -> (r: String)
    requires
        spec.len() == 4,
    ensures
        r@ == button_line_of(number as nat, spec@),
{
    let mut s = String::new();
    push_str(&mut s, "  button ");
    push_decimal(&mut s, number as u64);
    push_str(&mut s, ": ");
    let d = decode_button(spec);
    push_str(&mut s, d.as_str());
    let ghost head = s@;
    let n = d.as_str().unicode_len();
    let mut k: usize = n;
    while k < 12
        invariant
            spec.len() == 4,
            n == button_text(spec@).len(),
            n <= k,
            k > 12 ==> k == n,
            s@ == head + Seq::new((k - n) as nat, |i: int| ' '),
        decreases 12 - k,
    {
        push_char(&mut s, ' ');
        k = k + 1;
        assert(head + Seq::new((k - n) as nat, |i: int| ' ') =~= head + Seq::new(
            (k - 1 - n) as nat,
            |i: int| ' ',
        ).push(' '));
    }
    assert(head + Seq::new((k - n) as nat, |i: int| ' ') =~= "  button "@ + decimal(number as nat)
        + ": "@ + pad_to(button_text(spec@), 12));
    push_str(&mut s, " [");
    let h = hex_spaced_string(spec);
    push_str(&mut s, h.as_str());
    push_str(&mut s, "]");
    s
}


/// Writing a sector sends all of it: the writeData pieces, joined in
/// order, are exactly the sector's bytes.
pub proof fn law_write_pieces_cover_sector(bytes: Seq<u8>)
    ensures
        write_pieces(bytes, 0).flatten() == bytes,
{
    lemma_write_pieces_from(bytes, 0);
    assert(bytes.skip(0) == bytes);
}

proof fn lemma_write_pieces_from(bytes: Seq<u8>, o: nat)
    requires
        o <= bytes.len(),
    ensures
        write_pieces(bytes, o).flatten() == bytes.skip(o as int),
    decreases bytes.len() - o,
{
    if o < bytes.len() {
        let w = write_pieces(bytes, o);
        let end = if o + 16 < bytes.len() {
            o + 16
        } else {
            bytes.len() as nat
        };
        let piece = bytes.subrange(o as int, end as int);
        assert(w.first() == piece);
        assert(w.drop_first() == write_pieces(bytes, o + 16));
        if o + 16 < bytes.len() {
            lemma_write_pieces_from(bytes, o + 16);
            assert(piece + bytes.skip((o + 16) as int) =~= bytes.skip(o as int));
        } else {
            assert(write_pieces(bytes, o + 16) == Seq::<Seq<u8>>::empty());
            assert(write_pieces(bytes, o + 16).flatten() == Seq::<u8>::empty());
            assert(piece + Seq::<u8>::empty() =~= bytes.skip(o as int));
        }
    } else {
        assert(o == bytes.len());
        assert(bytes.skip(o as int) =~= Seq::<u8>::empty());
    }
}

/// Reading a sector whose chunks are served from the stored bytes `c`
/// gives back `c`: a whole chunk read at the current end extends the
/// prefix held by 16 bytes, and the last, overlapping chunk completes it to
/// exactly `size` bytes.
pub proof fn law_sector_read_steps(c: Seq<u8>, held: nat, size: nat)
    requires
        size <= c.len(),
        size >= 16,
        held <= size,
    ensures
        held + 16 <= size ==> c.take(held as int) + c.subrange(held as int, (held + 16) as int).take(16)
            == c.take((held + 16) as int),
        held < size && held + 15 >= size ==> c.take(held as int) + c.subrange(
            size - 16,
            size as int,
        ).subrange(16 + held - size, 16) == c.take(size as int),
{
    if held + 16 <= size {
        assert(c.take(held as int) + c.subrange(held as int, (held + 16) as int).take(16) =~= c.take(
            (held + 16) as int,
        ));
    }
    if held < size && held + 15 >= size {
        assert(c.take(held as int) + c.subrange(size - 16, size as int).subrange(
            16 + held - size,
            16,
        ) =~= c.take(size as int));
    }
}


/// Remapping a button back to the spec it had gives back the first
/// sector, when that sector's checksum was valid and the button lies before
/// the checksum bytes.
pub proof fn law_reassign_restores_sector(data: Seq<u8>, o: int, spec: Seq<u8>)
    requires
        spec.len() == 4,
        0 <= o,
        o + 4 <= data.len() - 2,
        crc_valid(data),
    ensures
        assigned_sector(assigned_sector(data, o, spec), o, data.subrange(o, o + 4)) == data,
{
    let once = assigned_sector(data, o, spec);
    law_assigned_sector(data, o, spec);
    let back = splice4(once, o, data.subrange(o, o + 4));
    assert(back =~= crc_body(data) + once.skip(data.len() - 2)) by {
        assert forall|j: int| 0 <= j < back.len() implies back[j] == (crc_body(data) + once.skip(
            data.len() - 2,
        ))[j] by {
            if j < data.len() - 2 && !(o <= j < o + 4) {
                assert(once[j] == data[j]);
            }
        }
    }
    assert(crc_body(back) =~= crc_body(data));
    law_put_crc_idempotent_on_valid(data);
    assert(with_crc(back) =~= with_crc(data));
}

/// A second remap of a button to the spec it was just given writes
/// nothing: whatever profile the checks make of the sector the first remap
/// wrote (its checksum is valid), that button already holds the spec, so
/// the plan is to leave it. This holds whenever the button lies before the
/// checksum bytes, whatever the other buttons are.
pub proof fn law_second_assign_writes_nothing(data: Seq<u8>, spec: Seq<u8>, button: nat, p: ActiveProfile)
    requires
        spec.len() == 4,
        1 <= button <= p.button_count,
        p.button_off + 4 * button <= data.len() - 2,
        p.data@ == assigned_sector(data, button_pos(&p, button), spec),
    ensures
        crc_valid(p.data@),
        p.data@.len() == data.len(),
        button_bytes(&p, button) == spec,
{
    law_assigned_sector(data, button_pos(&p, button), spec);
}

/// With no header enabled, none is the first enabled.
proof fn lemma_none_enabled(h: Seq<(u16, u8)>)
    requires
        forall|j: int| 0 <= j < h.len() ==> (#[trigger] h[j]).1 == 0,
    ensures
        first_enabled(h) is None,
    decreases h.len(),
{
    if h.len() > 0 {
        let d = h.drop_last();
        assert forall|j: int| 0 <= j < d.len() implies (#[trigger] d[j]).1 == 0 by {
            assert(d[j] == h[j]);
        }
        lemma_none_enabled(d);
    }
}

/// The header at `i`, enabled, with none enabled before it, is the first
/// enabled one.
proof fn lemma_first_enabled_at(h: Seq<(u16, u8)>, i: int)
    requires
        0 <= i < h.len(),
        h[i].1 != 0,
        forall|j: int| 0 <= j < i ==> (#[trigger] h[j]).1 == 0,
    ensures
        first_enabled(h) == Some(h[i].0),
    decreases h.len(),
{
    let d = h.drop_last();
    if i == h.len() - 1 {
        assert forall|j: int| 0 <= j < d.len() implies (#[trigger] d[j]).1 == 0 by {
            assert(d[j] == h[j]);
        }
        lemma_none_enabled(d);
    } else {
        assert forall|j: int| 0 <= j < i implies (#[trigger] d[j]).1 == 0 by {
            assert(d[j] == h[j]);
        }
        assert(d[i] == h[i]);
        lemma_first_enabled_at(d, i);
    }
}

/// The active profile is the enabled one listed first: when header `i` is
/// enabled and none before it is, its sector is chosen; when no header is
/// enabled, the first header's sector is; with no headers there is none.
pub proof fn law_active_is_first_enabled(h: Seq<(u16, u8)>, i: int)
    ensures
        0 <= i < h.len() && h[i].1 != 0 && (forall|j: int| 0 <= j < i ==> (#[trigger] h[j]).1 == 0)
            ==> active_sector_of(h) == Some(h[i].0),
        h.len() > 0 && (forall|j: int| 0 <= j < h.len() ==> (#[trigger] h[j]).1 == 0)
            ==> active_sector_of(h) == Some(h[0].0),
        h.len() == 0 ==> active_sector_of(h) is None,
{
    if 0 <= i < h.len() && h[i].1 != 0 && (forall|j: int| 0 <= j < i ==> (#[trigger] h[j]).1 == 0) {
        lemma_first_enabled_at(h, i);
    }
    if forall|j: int| 0 <= j < h.len() ==> (#[trigger] h[j]).1 == 0 {
        lemma_none_enabled(h);
    }
}

} // verus!
