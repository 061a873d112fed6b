//! CRC-16/CCITT-FALSE (init 0xFFFF, polynomial 0x1021, no reflection, no
//! final xor), stored big-endian in the last two bytes of a profile sector.

use vstd::prelude::*;

verus! {

/// One shift of the CRC register: shift left, xor the polynomial when the
/// top bit falls out.
pub open spec fn crc_shift(crc: u16) -> u16 {
    if crc & 0x8000 != 0 {
        ((crc << 1u16) ^ 0x1021u16) as u16
    } else {
        (crc << 1u16) as u16
    }
}

/// `n` shifts of the CRC register.
pub open spec fn crc_shifts(crc: u16, n: nat) -> u16
    decreases n,
{
    if n == 0 {
        crc
    } else {
        crc_shift(crc_shifts(crc, (n - 1) as nat))
    }
}

/// The register after feeding one byte.
pub open spec fn crc_feed(crc: u16, b: u8) -> u16 {
    crc_shifts((crc ^ ((b as u16) << 8u16)) as u16, 8)
}

/// CRC-16/CCITT-FALSE of a byte sequence.
pub open spec fn crc16_of(data: Seq<u8>) -> u16
    decreases data.len(),
{
    if data.len() == 0 {
        0xFFFF
    } else {
        crc_feed(crc16_of(data.drop_last()), data.last())
    }
}

/// A big-endian 16-bit value from two bytes.
pub open spec fn be16_of(hi: u8, lo: u8) -> u16 {
    (hi as int * 256 + lo as int) as u16
}

/// The checksum stored in the last two bytes of a sector.
pub open spec fn stored_crc(sector: Seq<u8>) -> u16
    recommends
        sector.len() >= 2,
{
    be16_of(sector[sector.len() - 2], sector[sector.len() - 1])
}

/// The bytes a checksum covers: everything but the last two.
pub open spec fn crc_body(sector: Seq<u8>) -> Seq<u8> {
    sector.take(sector.len() - 2)
}

/// A sector whose stored checksum matches its body.
pub open spec fn crc_valid(sector: Seq<u8>) -> bool {
    sector.len() >= 2 && crc16_of(crc_body(sector)) == stored_crc(sector)
}

/// The sector with its last two bytes replaced by the checksum of the rest.
pub open spec fn with_crc(sector: Seq<u8>) -> Seq<u8>
    recommends
        sector.len() >= 2,
{
    let c = crc16_of(crc_body(sector));
    crc_body(sector) + seq![(c >> 8u16) as u8, (c & 0xFFu16) as u8]
}

/// Big-endian `u16` from the first two bytes of `b`.
pub fn be16(b: &[u8]) -> (r: u16)
    requires
        b.len() >= 2,
    ensures
        r == be16_of(b[0], b[1]),
{
    (b[0] as u16) * 256 + (b[1] as u16)
}

/// CRC-16/CCITT-FALSE of `data`.
pub fn crc16(data: &[u8]) -> (r: u16)
    ensures
        r == crc16_of(data@),
{
    let r = crc16_prefix(data, data.len());
    assert(data@.take(data.len() as int) == data@);
    r
}

/// CRC-16/CCITT-FALSE of the first `end` bytes of `data`.
fn crc16_prefix(data: &[u8], end: usize) -> (r: u16)
    requires
        end <= data.len(),
    ensures
        r == crc16_of(data@.take(end as int)),
{
    let mut crc: u16 = 0xFFFF;
    let mut i: usize = 0;
    while i < end
        invariant
            i <= end <= data.len(),
            crc == crc16_of(data@.take(i as int)),
        decreases end - i,
    {
        let b = data[i];
        let start: u16 = crc ^ ((b as u16) << 8u16);
        crc = start;
        let mut k: usize = 0;
        while k < 8
            invariant
                k <= 8,
                crc == crc_shifts(start, k as nat),
            decreases 8 - k,
        {
            crc = if crc & 0x8000 != 0 {
                (crc << 1u16) ^ 0x1021
            } else {
                crc << 1u16
            };
            k = k + 1;
        }
        i = i + 1;
        assert(data@.take(i as int).drop_last() == data@.take((i - 1) as int));
    }
    crc
}

/// Writes the checksum of `sector[..n-2]` big-endian into its last two bytes.
pub fn put_crc(sector: &mut [u8])
    requires
        old(sector)@.len() >= 2,
    ensures
        final(sector)@ == with_crc(old(sector)@),
{
    let n = sector.len();
    let c = crc16_prefix(sector, n - 2);
    sector[n - 2] = (c >> 8u16) as u8;
    sector[n - 1] = (c & 0xFFu16) as u8;
    assert(final(sector)@ =~= with_crc(old(sector)@));
}

/// Whether the checksum stored in a sector matches its body.
pub fn crc_ok(sector: &[u8]) -> (r: bool)
    requires
        sector@.len() >= 2,
    ensures
        r == crc_valid(sector@),
{
    let n = sector.len();
    let stored = (sector[n - 2] as u16) * 256 + (sector[n - 1] as u16);
    crc16_prefix(sector, n - 2) == stored
}

proof fn lemma_split_crc(c: u16)
    ensures
        be16_of((c >> 8u16) as u8, (c & 0xFFu16) as u8) == c,
{
    assert(((c >> 8u16) as u8) as int * 256 + ((c & 0xFFu16) as u8) as int == c as int)
        by (bit_vector);
}

/// Writing the checksum makes a sector valid, and leaves every byte before
/// the checksum as it was.
pub proof fn law_put_crc_makes_valid(sector: Seq<u8>)
    requires
        sector.len() >= 2,
    ensures
        crc_valid(with_crc(sector)),
        with_crc(sector).len() == sector.len(),
        crc_body(with_crc(sector)) == crc_body(sector),
{
    let w = with_crc(sector);
    assert(crc_body(w) =~= crc_body(sector));
    lemma_split_crc(crc16_of(crc_body(sector)));
}

/// A valid sector is left as it is by rewriting its checksum.
pub proof fn law_put_crc_idempotent_on_valid(sector: Seq<u8>)
    requires
        crc_valid(sector),
    ensures
        with_crc(sector) == sector,
{
    let c = crc16_of(crc_body(sector));
    let hi = sector[sector.len() - 2];
    let lo = sector[sector.len() - 1];
    assert(c == be16_of(hi, lo));
    assert((be16_of(hi, lo) >> 8u16) as u8 == hi && (be16_of(hi, lo) & 0xFFu16) as u8 == lo) by {
        assert(((((hi as int * 256 + lo as int) as u16) >> 8u16) as u8) == hi
            && ((((hi as int * 256 + lo as int) as u16) & 0xFFu16) as u8) == lo) by (bit_vector);
    }
    assert(with_crc(sector) =~= sector);
}

/// Feeding two bytes leaves the register at zero exactly when they are the
/// register's own value, high byte first.
proof fn lemma_two_bytes_to_zero(r: u16, a: u8, b: u8)
    ensures
        crc_feed(crc_feed(r, a), b) == 0 <==> (a == (r >> 8u16) as u8 && b == (r & 0xFFu16) as u8),
{
    reveal_with_fuel(crc_shifts, 9);
    let x0 = (r ^ ((a as u16) << 8u16)) as u16;
    let x1 = crc_shift(x0);
    let x2 = crc_shift(x1);
    let x3 = crc_shift(x2);
    let x4 = crc_shift(x3);
    let x5 = crc_shift(x4);
    let x6 = crc_shift(x5);
    let x7 = crc_shift(x6);
    let x8 = crc_shift(x7);
    assert(crc_feed(r, a) == x8);
    let y0 = (x8 ^ ((b as u16) << 8u16)) as u16;
    let y1 = crc_shift(y0);
    let y2 = crc_shift(y1);
    let y3 = crc_shift(y2);
    let y4 = crc_shift(y3);
    let y5 = crc_shift(y4);
    let y6 = crc_shift(y5);
    let y7 = crc_shift(y6);
    let y8 = crc_shift(y7);
    assert(crc_feed(x8, b) == y8);
    assert(y8 == 0 <==> (a == (r >> 8u16) as u8 && b == (r & 0xFFu16) as u8)) by (bit_vector)
        requires
            x0 == (r ^ ((a as u16) << 8u16)) as u16,
            x1 == crc_shift(x0),
            x2 == crc_shift(x1),
            x3 == crc_shift(x2),
            x4 == crc_shift(x3),
            x5 == crc_shift(x4),
            x6 == crc_shift(x5),
            x7 == crc_shift(x6),
            x8 == crc_shift(x7),
            y0 == (x8 ^ ((b as u16) << 8u16)) as u16,
            y1 == crc_shift(y0),
            y2 == crc_shift(y1),
            y3 == crc_shift(y2),
            y4 == crc_shift(y3),
            y5 == crc_shift(y4),
            y6 == crc_shift(y5),
            y7 == crc_shift(y6),
            y8 == crc_shift(y7),
    ;
}

/// Appending the checksum of `data`, high byte first, leaves the CRC
/// register at zero; the checksum of no bytes is the initial value 0xFFFF.
pub proof fn law_appended_crc_leaves_zero(data: Seq<u8>)
    ensures
        crc16_of(
            data + seq![(crc16_of(data) >> 8u16) as u8, (crc16_of(data) & 0xFFu16) as u8],
        ) == 0,
        crc16_of(Seq::empty()) == 0xFFFF,
{
    let c = crc16_of(data);
    let s = data + seq![(c >> 8u16) as u8, (c & 0xFFu16) as u8];
    assert(s.drop_last() =~= data.push((c >> 8u16) as u8));
    assert(s.drop_last().drop_last() =~= data);
    assert(s.last() == (c & 0xFFu16) as u8);
    assert(crc16_of(s.drop_last()) == crc_feed(c, (c >> 8u16) as u8));
    assert(crc16_of(s) == crc_feed(crc16_of(s.drop_last()), s.last()));
    lemma_two_bytes_to_zero(c, (c >> 8u16) as u8, (c & 0xFFu16) as u8);
}

/// A sector's stored checksum matches its body exactly when the CRC of the
/// whole sector, checksum included, is zero.
pub proof fn law_crc_valid_iff_zero_residue(sector: Seq<u8>)
    requires
        sector.len() >= 2,
    ensures
        crc_valid(sector) <==> crc16_of(sector) == 0,
{
    let n = sector.len();
    let body = crc_body(sector);
    let c = crc16_of(body);
    let a = sector[n - 2];
    let b = sector[n - 1];
    assert(sector.drop_last().drop_last() =~= body);
    assert(sector.drop_last().last() == a);
    assert(crc16_of(sector.drop_last()) == crc_feed(c, a));
    assert(crc16_of(sector) == crc_feed(crc16_of(sector.drop_last()), b));
    lemma_two_bytes_to_zero(c, a, b);
    assert(be16_of(a, b) == c <==> (a == (c >> 8u16) as u8 && b == (c & 0xFFu16) as u8)) by {
        assert(((a as int * 256 + b as int) as u16 == c) <==> (a == (c >> 8u16) as u8 && b == (c
            & 0xFFu16) as u8)) by (bit_vector);
    }
}

/// Shifting the register loses nothing: different registers stay
/// different through any number of shifts.
proof fn lemma_shifts_injective(x: u16, y: u16, n: nat)
    requires
        x != y,
    ensures
        crc_shifts(x, n) != crc_shifts(y, n),
    decreases n,
{
    if n > 0 {
        lemma_shifts_injective(x, y, (n - 1) as nat);
        let px = crc_shifts(x, (n - 1) as nat);
        let py = crc_shifts(y, (n - 1) as nat);
        assert(px != py ==> crc_shift(px) != crc_shift(py)) by (bit_vector);
    }
}

/// Feeding different bytes to one register, or one byte to different
/// registers, gives different registers.
proof fn lemma_feed_injective(r1: u16, a: u8, r2: u16, b: u8)
    requires
        r1 != r2 || a != b,
        r1 == r2 || a == b,
    ensures
        crc_feed(r1, a) != crc_feed(r2, b),
{
    let x = (r1 ^ ((a as u16) << 8u16)) as u16;
    let y = (r2 ^ ((b as u16) << 8u16)) as u16;
    assert(x != y) by (bit_vector)
        requires
            x == (r1 ^ ((a as u16) << 8u16)) as u16,
            y == (r2 ^ ((b as u16) << 8u16)) as u16,
            r1 != r2 || a != b,
            r1 == r2 || a == b,
    ;
    lemma_shifts_injective(x, y, 8);
}

/// Two byte sequences that differ only at `i` have different checksums
/// over every prefix that reaches past `i`.
proof fn lemma_prefix_crcs_differ(s: Seq<u8>, t: Seq<u8>, i: int, k: int)
    requires
        s.len() == t.len(),
        0 <= i < k <= s.len(),
        s[i] != t[i],
        forall|j: int| 0 <= j < s.len() && j != i ==> s[j] == t[j],
    ensures
        crc16_of(s.take(k)) != crc16_of(t.take(k)),
    decreases k,
{
    assert(s.take(k).drop_last() =~= s.take(k - 1));
    assert(t.take(k).drop_last() =~= t.take(k - 1));
    if k - 1 == i {
        assert(s.take(i) =~= t.take(i));
        lemma_feed_injective(crc16_of(s.take(i)), s[i], crc16_of(t.take(i)), t[i]);
    } else {
        lemma_prefix_crcs_differ(s, t, i, k - 1);
        lemma_feed_injective(crc16_of(s.take(k - 1)), s[k - 1], crc16_of(t.take(k - 1)), t[k - 1]);
    }
}

/// The checksum catches any change confined to one byte of a valid sector,
/// in its body or in the checksum itself: the changed sector is not valid.
pub proof fn law_one_byte_change_detected(sector: Seq<u8>, i: int, v: u8)
    requires
        crc_valid(sector),
        0 <= i < sector.len(),
        v != sector[i],
    ensures
        !crc_valid(sector.update(i, v)),
{
    let t = sector.update(i, v);
    law_crc_valid_iff_zero_residue(sector);
    law_crc_valid_iff_zero_residue(t);
    lemma_prefix_crcs_differ(sector, t, i, sector.len() as int);
    assert(sector.take(sector.len() as int) =~= sector);
    assert(t.take(t.len() as int) =~= t);
}

/// Flipping any one bit of a valid sector makes it invalid.
pub proof fn law_one_bit_flip_detected(sector: Seq<u8>, i: int, bit: u8)
    requires
        crc_valid(sector),
        0 <= i < sector.len(),
        bit < 8,
    ensures
        !crc_valid(sector.update(i, sector[i] ^ (1u8 << bit))),
{
    let b = sector[i];
    assert(b ^ (1u8 << bit) != b) by (bit_vector)
        requires
            bit < 8,
    ;
    law_one_byte_change_detected(sector, i, b ^ (1u8 << bit));
}

} // verus!
