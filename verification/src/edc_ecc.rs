//! The EDC/ECC encoding engine: the reflected CRC-32 error-detection code
//! and the two-layer P/Q Reed-Solomon parity passes over a complete
//! 2352-byte Mode 1 sector buffer.

use vstd::prelude::*;

use crate::gf::{
    gf_tables_wf, init_gf8_q_coeffs_table, init_gf8_tables, qcoef_table_wf, qtab,
};

verus! {

/// EDC generator polynomial: (x^16 + x^15 + x^2 + 1) * (x^16 + x^2 + x + 1).
pub const EDC_POLY: u32 = 0x8001801b;

/// An all-zero byte sequence of the given length.
pub open spec fn zero_seq(n: nat) -> Seq<u8> {
    Seq::new(n, |i: int| 0u8)
}

/// State of the bit-mirroring loop after `n` steps: the bits consumed so
/// far in reversed order, and the remaining input bits.
pub open spec fn mirror_state(d: u32, n: nat) -> (u32, u32)
    decreases n,
{
    if n == 0 {
        (0u32, d)
    } else {
        let p = mirror_state(d, (n - 1) as nat);
        let r = p.0 << 1;
        let r2 = if p.1 & 0x1 != 0 {
            r | 0x1
        } else {
            r
        };
        (r2, p.1 >> 1)
    }
}

/// The lowest `n` bits of `d`, in reversed order.
pub open spec fn mirror_bits_spec(d: u32, n: nat) -> u32 {
    mirror_state(d, n).0
}

/// One round of the CRC table construction: shift out the top bit and fold
/// in the generator polynomial when it was set.
pub open spec fn crc_round(r: u32) -> u32 {
    if r & 0x80000000 != 0 {
        (r << 1) ^ EDC_POLY
    } else {
        r << 1
    }
}

/// `n` rounds of the CRC table construction.
pub open spec fn crc_rounds(r: u32, n: nat) -> u32
    decreases n,
{
    if n == 0 {
        r
    } else {
        crc_round(crc_rounds(r, (n - 1) as nat))
    }
}

/// Entry `i` of the reflected CRC table: mirror the byte index, shift it to
/// the top, run eight polynomial rounds, and mirror the result back.
pub open spec fn crc_entry(i: u8) -> u32 {
    mirror_bits_spec(crc_rounds(mirror_bits_spec(i as u32, 8) << 24, 8), 32)
}

/// The full 256-entry reflected CRC table.
pub open spec fn crc_table() -> Seq<u32> {
    Seq::new(256, |i: int| crc_entry(i as u8))
}

/// One step of the running EDC: fold the next byte into the accumulator
/// through the reflected table.
pub open spec fn edc_step(acc: u32, b: u8) -> u32 {
    crc_table()[((acc ^ b as u32) & 0xff) as int] ^ (acc >> 8)
}

/// The EDC of a byte sequence: the table-driven reflected CRC, started
/// from an all-zero accumulator.
pub open spec fn edc_seq(s: Seq<u8>) -> u32
    decreases s.len(),
{
    if s.len() == 0 {
        0u32
    } else {
        edc_step(edc_seq(s.drop_last()), s.last())
    }
}

/// A 32-bit value split into its four little-endian bytes.
pub open spec fn le32(x: u32) -> Seq<u8> {
    seq![
        (x & 0xff) as u8,
        ((x >> 8) & 0xff) as u8,
        ((x >> 16) & 0xff) as u8,
        ((x >> 24) & 0xff) as u8,
    ]
}

/// The sector buffer with the EDC over its first 2064 bytes written into
/// bytes 2064..2068, little-endian.
pub open spec fn with_edc(s: Seq<u8>) -> Seq<u8> {
    let e = le32(edc_seq(s.take(2064)));
    s.update(2064, e[0]).update(2065, e[1]).update(2066, e[2]).update(2067, e[3])
}

/// Running P-parity sum for column `i` over the even-offset byte stream,
/// after `k` of the 24 strides: table rows 19..43 applied to the bytes at
/// offset 12 + 2i, striding by 86.
pub open spec fn p_acc0(s: Seq<u8>, i: int, k: nat) -> u16
    decreases k,
{
    if k == 0 {
        0u16
    } else {
        p_acc0(s, i, (k - 1) as nat) ^ qtab(19 + (k - 1), s[12 + 2 * i + 86 * (k - 1)])
    }
}

/// Running P-parity sum for column `i` over the odd-offset byte stream.
pub open spec fn p_acc1(s: Seq<u8>, i: int, k: nat) -> u16
    decreases k,
{
    if k == 0 {
        0u16
    } else {
        p_acc1(s, i, (k - 1) as nat) ^ qtab(19 + (k - 1), s[12 + 2 * i + 86 * (k - 1) + 1])
    }
}

/// The sector buffer after the first `n` P-parity columns have been
/// written: low halves of both sums at 2162 + 2t, high halves at 2076 + 2t.
pub open spec fn with_p_upto(s: Seq<u8>, n: nat) -> Seq<u8>
    decreases n,
{
    if n == 0 {
        s
    } else {
        let prev = with_p_upto(s, (n - 1) as nat);
        let t = (n - 1) as int;
        prev.update(2162 + 2 * t, (p_acc0(s, t, 24) & 0xff) as u8).update(
            2162 + 2 * t + 1,
            (p_acc1(s, t, 24) & 0xff) as u8,
        ).update(2076 + 2 * t, (p_acc0(s, t, 24) >> 8) as u8).update(
            2076 + 2 * t + 1,
            (p_acc1(s, t, 24) >> 8) as u8,
        )
    }
}

/// The sector buffer with all 43 P-parity columns written.
pub open spec fn with_p(s: Seq<u8>) -> Seq<u8> {
    with_p_upto(s, 43)
}

/// The Q-parity stride wraps back by 2236 bytes as soon as it would enter
/// the Q-parity output region at 2248.
pub open spec fn wrap_q(x: int) -> int {
    if x >= 2248 {
        x - 2236
    } else {
        x
    }
}

/// Input offset of step `k` of Q-parity diagonal `i`: start at 12 + 86i
/// and stride by 88 with the wraparound.
pub open spec fn q_idx(i: int, k: nat) -> int
    decreases k,
{
    if k == 0 {
        12 + 86 * i
    } else {
        wrap_q(q_idx(i, (k - 1) as nat) + 88)
    }
}

/// Running Q-parity sum for diagonal `i` over the even-offset byte stream,
/// after `k` of the 43 strides, using table rows 0..43 in order.
pub open spec fn q_acc0(s: Seq<u8>, i: int, k: nat) -> u16
    decreases k,
{
    if k == 0 {
        0u16
    } else {
        q_acc0(s, i, (k - 1) as nat) ^ qtab((k - 1) as int, s[q_idx(i, (k - 1) as nat)])
    }
}

/// Running Q-parity sum for diagonal `i` over the odd-offset byte stream.
pub open spec fn q_acc1(s: Seq<u8>, i: int, k: nat) -> u16
    decreases k,
{
    if k == 0 {
        0u16
    } else {
        q_acc1(s, i, (k - 1) as nat) ^ qtab((k - 1) as int, s[q_idx(i, (k - 1) as nat) + 1])
    }
}

/// The sector buffer after the first `n` Q-parity diagonals have been
/// written: low halves of both sums at 2300 + 2t, high halves at 2248 + 2t.
pub open spec fn with_q_upto(s: Seq<u8>, n: nat) -> Seq<u8>
    decreases n,
{
    if n == 0 {
        s
    } else {
        let prev = with_q_upto(s, (n - 1) as nat);
        let t = (n - 1) as int;
        prev.update(2300 + 2 * t, (q_acc0(s, t, 43) & 0xff) as u8).update(
            2300 + 2 * t + 1,
            (q_acc1(s, t, 43) & 0xff) as u8,
        ).update(2248 + 2 * t, (q_acc0(s, t, 43) >> 8) as u8).update(
            2248 + 2 * t + 1,
            (q_acc1(s, t, 43) >> 8) as u8,
        )
    }
}

/// The sector buffer with all 26 Q-parity diagonals written.
pub open spec fn with_q(s: Seq<u8>) -> Seq<u8> {
    with_q_upto(s, 26)
}

/// A complete sector buffer after the whole encoding pass: EDC first, then
/// P parity, then Q parity (whose input covers the P-parity region).
pub open spec fn encoded(s: Seq<u8>) -> Seq<u8> {
    with_q(with_p(with_edc(s)))
}

proof fn lemma_u32_mask8(x: u32)
    by (bit_vector)
    ensures
        x & 0xff < 256,
{
}

proof fn lemma_u32_le_parts(x: u32)
    by (bit_vector)
    ensures
        x & 0xff < 256,
        (x >> 8) & 0xff < 256,
        (x >> 16) & 0xff < 256,
        (x >> 24) & 0xff < 256,
{
}

proof fn lemma_u16_halves(x: u16)
    by (bit_vector)
    ensures
        x & 0xff < 256,
        x >> 8 < 256,
{
}

proof fn lemma_zero_bits()
    by (bit_vector)
    ensures
        0u32 ^ 0u32 == 0u32,
        0u32 & 0xff == 0u32,
        0u32 >> 8 == 0u32,
        0u32 >> 1 == 0u32,
        0u32 << 1 == 0u32,
        0u32 << 24 == 0u32,
        0u32 & 0x1 == 0u32,
        0u32 & 0x80000000 == 0u32,
{
}

/// Mirroring an all-zero value gives zero at every step.
proof fn lemma_mirror_state_zero(n: nat)
    ensures
        mirror_state(0u32, n).0 == 0u32,
        mirror_state(0u32, n).1 == 0u32,
    decreases n,
{
    lemma_zero_bits();
    if n > 0 {
        lemma_mirror_state_zero((n - 1) as nat);
    }
}

/// The CRC rounds keep an all-zero accumulator at zero.
proof fn lemma_crc_rounds_zero(n: nat)
    ensures
        crc_rounds(0u32, n) == 0u32,
    decreases n,
{
    lemma_zero_bits();
    if n > 0 {
        lemma_crc_rounds_zero((n - 1) as nat);
    }
}

/// Entry 0 of the reflected CRC table is zero.
proof fn lemma_crc_entry_zero()
    ensures
        crc_entry(0) == 0u32,
{
    lemma_zero_bits();
    lemma_mirror_state_zero(8);
    lemma_crc_rounds_zero(8);
    lemma_mirror_state_zero(32);
}

/// The EDC of an all-zero input is exactly zero, whatever its length.
pub proof fn lemma_edc_of_zeros(n: nat)
    ensures
        edc_seq(zero_seq(n)) == 0u32,
    decreases n,
{
    if n == 0 {
    } else {
        lemma_edc_of_zeros((n - 1) as nat);
        assert(zero_seq(n).drop_last() =~= zero_seq((n - 1) as nat));
        assert(zero_seq(n).last() == 0u8);
        lemma_zero_bits();
        lemma_crc_entry_zero();
        assert(edc_step(0u32, 0u8) == 0u32);
    }
}

/// The EDC is a pure function of the input bytes: equal inputs give equal
/// checksums.
pub proof fn lemma_edc_deterministic(a: Seq<u8>, b: Seq<u8>)
    requires
        a == b,
    ensures
        edc_seq(a) == edc_seq(b),
{
}

/// Reverse the lowest `bits` bits of `d`.
fn mirror_bits(d: u32, bits: usize) -> (r: u32)
    ensures
        r == mirror_bits_spec(d, bits as nat),
{
    let mut r: u32 = 0;
    let mut dd: u32 = d;
    let mut k: usize = 0;

    while k < bits
        invariant
            k <= bits,
            r == mirror_state(d, k as nat).0,
            dd == mirror_state(d, k as nat).1,
        decreases bits - k,
    {
        r = r << 1;
        if dd & 0x1 != 0 {
            r = r | 0x1;
        }
        dd = dd >> 1;
        k = k + 1;
    }

    r
}

/// Build the 256-entry reflected CRC table for the EDC polynomial.
pub(crate) fn init_crc_table() -> (t: Vec<u32>)
    ensures
        t@ == crc_table(),
{
    let mut table: Vec<u32> = Vec::new();

    let mut i: usize = 0;
    while i < 256
        invariant
            i <= 256,
            table@.len() == i,
            forall|j: int| 0 <= j < i ==> table@[j] == crc_entry(j as u8),
        decreases 256 - i,
    {
        let mut r = mirror_bits(i as u32, 8);
        r = r << 24;

        let ghost r0 = r;
        let mut round: usize = 0;
        while round < 8
            invariant
                round <= 8,
                r == crc_rounds(r0, round as nat),
            decreases 8 - round,
        {
            if r & 0x80000000 != 0 {
                r = (r << 1) ^ EDC_POLY;
            } else {
                r = r << 1;
            }
            round = round + 1;
        }

        r = mirror_bits(r, 32);
        table.push(r);
        i = i + 1;
    }

    proof {
        assert(table@ =~= crc_table());
    }
    table
}

/// Compute the running EDC over a byte slice through the reflected table.
fn edc_compute(table: &Vec<u32>, data: &[u8]) -> (r: u32)
    requires
        table@ == crc_table(),
    ensures
        r == edc_seq(data@),
{
    let mut crc: u32 = 0;
    let mut pos: usize = 0;

    while pos < data.len()
        invariant
            pos <= data@.len(),
            table@ == crc_table(),
            crc == edc_seq(data@.take(pos as int)),
        decreases data@.len() - pos,
    {
        let byte = data[pos];
        proof {
            lemma_u32_mask8(crc ^ byte as u32);
            assert(data@.take(pos + 1).drop_last() =~= data@.take(pos as int));
            assert(data@.take(pos + 1).last() == data@[pos as int]);
        }
        crc = table[((crc ^ byte as u32) & 0xff) as usize] ^ (crc >> 8);
        pos = pos + 1;
    }

    proof {
        assert(data@.take(data@.len() as int) =~= data@);
    }
    crc
}

/// Write the EDC over bytes 0..2064 into bytes 2064..2068, little-endian.
fn edc_fill(table: &Vec<u32>, sector: &mut Vec<u8>)
    requires
        table@ == crc_table(),
        old(sector)@.len() == 2352,
    ensures
        final(sector)@.len() == 2352,
        final(sector)@ == with_edc(old(sector)@),
{
    let ghost s0 = sector@;

    let crc = edc_compute(table, &sector.as_slice()[0..2064]);
    proof {
        assert(s0.subrange(0, 2064) =~= s0.take(2064));
        lemma_u32_le_parts(crc);
    }

    sector.set(2064, (crc & 0xff) as u8);
    sector.set(2065, ((crc >> 8) & 0xff) as u8);
    sector.set(2066, ((crc >> 16) & 0xff) as u8);
    sector.set(2067, ((crc >> 24) & 0xff) as u8);

    proof {
        assert(sector@ =~= with_edc(s0));
    }
}

/// Bytes outside the P-parity output region are untouched by the first `n`
/// P-parity columns.
proof fn lemma_with_p_upto_frame(s: Seq<u8>, n: nat)
    requires
        s.len() == 2352,
        n <= 43,
    ensures
        with_p_upto(s, n).len() == 2352,
        forall|j: int|
            0 <= j < 2352 && (j < 2076 || j >= 2162 + 2 * n) ==> with_p_upto(s, n)[j] == s[j],
    decreases n,
{
    if n > 0 {
        lemma_with_p_upto_frame(s, (n - 1) as nat);
    }
}

/// Bytes outside the Q-parity output region are untouched by the first `n`
/// Q-parity diagonals.
proof fn lemma_with_q_upto_frame(s: Seq<u8>, n: nat)
    requires
        s.len() == 2352,
        n <= 26,
    ensures
        with_q_upto(s, n).len() == 2352,
        forall|j: int|
            0 <= j < 2352 && (j < 2248 || j >= 2300 + 2 * n) ==> with_q_upto(s, n)[j] == s[j],
    decreases n,
{
    if n > 0 {
        lemma_with_q_upto_frame(s, (n - 1) as nat);
    }
}

/// The Q-parity stride stays inside the even offsets of the covered region
/// 12..2248 for every diagonal and step.
proof fn lemma_q_idx_bounds(i: int, k: nat)
    requires
        0 <= i < 26,
    ensures
        12 <= q_idx(i, k),
        q_idx(i, k) <= 2246,
        q_idx(i, k) % 2 == 0,
    decreases k,
{
    if k == 0 {
        assert(12 + 86 * i == 2 * (6 + 43 * i));
    } else {
        lemma_q_idx_bounds(i, (k - 1) as nat);
        let x = q_idx(i, (k - 1) as nat);
        assert(q_idx(i, k) == wrap_q(x + 88));
        assert((x + 88) % 2 == 0);
        if x + 88 >= 2248 {
            assert((x + 88 - 2236) % 2 == 0);
        }
    }
}

/// Write the 172 P-parity bytes computed from the buffer's bytes 12..2076.
fn p_fill(qcoef: &Vec<Vec<u16>>, sector: &mut Vec<u8>)
    requires
        qcoef_table_wf(qcoef@),
        old(sector)@.len() == 2352,
    ensures
        final(sector)@.len() == 2352,
        final(sector)@ == with_p(old(sector)@),
{
    let ghost s0 = sector@;

    let mut i: usize = 0;
    while i < 43
        invariant
            i <= 43,
            qcoef_table_wf(qcoef@),
            s0.len() == 2352,
            sector@.len() == 2352,
            sector@ == with_p_upto(s0, i as nat),
        decreases 43 - i,
    {
        proof {
            lemma_with_p_upto_frame(s0, i as nat);
        }

        let mut idx: usize = 12 + i * 2;
        let mut lsb: u16 = 0;
        let mut msb: u16 = 0;

        let mut k: usize = 0;
        while k < 24
            invariant
                k <= 24,
                i < 43,
                qcoef_table_wf(qcoef@),
                s0.len() == 2352,
                sector@ == with_p_upto(s0, i as nat),
                idx == 12 + 2 * (i as int) + 86 * (k as int),
                lsb == p_acc0(s0, i as int, k as nat),
                msb == p_acc1(s0, i as int, k as nat),
            decreases 24 - k,
        {
            proof {
                lemma_with_p_upto_frame(s0, i as nat);
            }
            let d0 = sector[idx];
            let d1 = sector[idx + 1];

            let row = &qcoef[19 + k];
            lsb = lsb ^ row[d0 as usize];
            msb = msb ^ row[d1 as usize];

            idx = idx + 86;
            k = k + 1;
        }

        proof {
            lemma_u16_halves(lsb);
            lemma_u16_halves(msb);
        }

        sector.set(2162 + i * 2, (lsb & 0xff) as u8);
        sector.set(2162 + i * 2 + 1, (msb & 0xff) as u8);
        sector.set(2076 + i * 2, (lsb >> 8) as u8);
        sector.set(2076 + i * 2 + 1, (msb >> 8) as u8);

        proof {
            assert(sector@ == with_p_upto(s0, (i + 1) as nat));
        }
        i = i + 1;
    }
}

/// Write the 104 Q-parity bytes computed from the buffer's bytes 12..2248,
/// the P-parity region included.
fn q_fill(qcoef: &Vec<Vec<u16>>, sector: &mut Vec<u8>)
    requires
        qcoef_table_wf(qcoef@),
        old(sector)@.len() == 2352,
    ensures
        final(sector)@.len() == 2352,
        final(sector)@ == with_q(old(sector)@),
{
    let ghost s0 = sector@;

    let mut i: usize = 0;
    while i < 26
        invariant
            i <= 26,
            qcoef_table_wf(qcoef@),
            s0.len() == 2352,
            sector@.len() == 2352,
            sector@ == with_q_upto(s0, i as nat),
        decreases 26 - i,
    {
        proof {
            lemma_with_q_upto_frame(s0, i as nat);
        }

        let mut idx: usize = 12 + i * 2 * 43;
        let mut lsb: u16 = 0;
        let mut msb: u16 = 0;

        let mut k: usize = 0;
        while k < 43
            invariant
                k <= 43,
                i < 26,
                qcoef_table_wf(qcoef@),
                s0.len() == 2352,
                sector@ == with_q_upto(s0, i as nat),
                idx == q_idx(i as int, k as nat),
                lsb == q_acc0(s0, i as int, k as nat),
                msb == q_acc1(s0, i as int, k as nat),
            decreases 43 - k,
        {
            proof {
                lemma_q_idx_bounds(i as int, k as nat);
                lemma_with_q_upto_frame(s0, i as nat);
            }
            let d0 = sector[idx];
            let d1 = sector[idx + 1];

            let row = &qcoef[k];
            lsb = lsb ^ row[d0 as usize];
            msb = msb ^ row[d1 as usize];

            idx = idx + 88;
            if idx >= 2248 {
                idx = idx - 2236;
            }
            k = k + 1;
        }

        proof {
            lemma_u16_halves(lsb);
            lemma_u16_halves(msb);
        }

        sector.set(2300 + i * 2, (lsb & 0xff) as u8);
        sector.set(2300 + i * 2 + 1, (msb & 0xff) as u8);
        sector.set(2248 + i * 2, (lsb >> 8) as u8);
        sector.set(2248 + i * 2 + 1, (msb >> 8) as u8);

        proof {
            assert(sector@ == with_q_upto(s0, (i + 1) as nat));
        }
        i = i + 1;
    }
}

/// All four lookup tables, built once and shared read-only by every
/// encoding thereafter.
pub struct Tables {
    pub crc: Vec<u32>,
    pub log: Vec<u8>,
    pub ilog: Vec<u8>,
    pub qcoef: Vec<Vec<u16>>,
}

impl Tables {
    /// Every table holds exactly the values its construction defines.
    pub open spec fn wf(self) -> bool {
        &&& self.crc@ == crc_table()
        &&& gf_tables_wf(self.log@, self.ilog@)
        &&& qcoef_table_wf(self.qcoef@)
    }

    /// Build all four tables from the fixed polynomial constants.
    pub fn new() -> (t: Tables)
        ensures
            t.wf(),
    {
        let crc = init_crc_table();
        let (log, ilog) = init_gf8_tables();
        let qcoef = init_gf8_q_coeffs_table(&log, &ilog);
        Tables { crc, log, ilog, qcoef }
    }
}

/// Compute the EDC of a byte slice.
pub fn calc_edc(data: &[u8]) -> (r: u32)
    ensures
        r == edc_seq(data@),
{
    let table = init_crc_table();
    edc_compute(&table, data)
}

/// Compute the EDC of a byte slice through prebuilt tables.
pub fn calc_edc_with(tables: &Tables, data: &[u8]) -> (r: u32)
    requires
        tables.wf(),
    ensures
        r == edc_seq(data@),
{
    edc_compute(&tables.crc, data)
}

/// Fill the EDC field of an assembled 2352-byte Mode 1 sector buffer.
pub fn calc_mode1_edc(sector: &mut Vec<u8>)
    requires
        old(sector)@.len() == 2352,
    ensures
        final(sector)@.len() == 2352,
        final(sector)@ == with_edc(old(sector)@),
{
    let table = init_crc_table();
    edc_fill(&table, sector)
}

/// Fill the EDC field through prebuilt tables.
pub fn calc_mode1_edc_with(tables: &Tables, sector: &mut Vec<u8>)
    requires
        tables.wf(),
        old(sector)@.len() == 2352,
    ensures
        final(sector)@.len() == 2352,
        final(sector)@ == with_edc(old(sector)@),
{
    edc_fill(&tables.crc, sector)
}

/// Fill the P-parity field of an assembled 2352-byte sector buffer.
pub fn calc_p_parity(sector: &mut Vec<u8>)
    requires
        old(sector)@.len() == 2352,
    ensures
        final(sector)@.len() == 2352,
        final(sector)@ == with_p(old(sector)@),
{
    let (log, ilog) = init_gf8_tables();
    let qcoef = init_gf8_q_coeffs_table(&log, &ilog);
    p_fill(&qcoef, sector)
}

/// Fill the P-parity field through prebuilt tables.
pub fn calc_p_parity_with(tables: &Tables, sector: &mut Vec<u8>)
    requires
        tables.wf(),
        old(sector)@.len() == 2352,
    ensures
        final(sector)@.len() == 2352,
        final(sector)@ == with_p(old(sector)@),
{
    p_fill(&tables.qcoef, sector)
}

/// Fill the Q-parity field of an assembled 2352-byte sector buffer.
pub fn calc_q_parity(sector: &mut Vec<u8>)
    requires
        old(sector)@.len() == 2352,
    ensures
        final(sector)@.len() == 2352,
        final(sector)@ == with_q(old(sector)@),
{
    let (log, ilog) = init_gf8_tables();
    let qcoef = init_gf8_q_coeffs_table(&log, &ilog);
    q_fill(&qcoef, sector)
}

/// Fill the Q-parity field through prebuilt tables.
pub fn calc_q_parity_with(tables: &Tables, sector: &mut Vec<u8>)
    requires
        tables.wf(),
        old(sector)@.len() == 2352,
    ensures
        final(sector)@.len() == 2352,
        final(sector)@ == with_q(old(sector)@),
{
    q_fill(&tables.qcoef, sector)
}

/// The encoding pass only writes the EDC, P-parity and Q-parity regions:
/// everything before byte 2064 and the reserved bytes 2068..2076 come out
/// unchanged, and the EDC field holds the checksum of the leading bytes.
pub proof fn lemma_encoded_points(s: Seq<u8>)
    requires
        s.len() == 2352,
    ensures
        encoded(s).len() == 2352,
        forall|j: int| 0 <= j < 2064 ==> encoded(s)[j] == s[j],
        forall|j: int| 2068 <= j < 2076 ==> encoded(s)[j] == s[j],
        encoded(s).subrange(2064, 2068) == le32(edc_seq(s.take(2064))),
{
    let e = with_edc(s);
    let p = with_p(e);
    let q = with_q(p);
    lemma_with_p_upto_frame(e, 43);
    lemma_with_q_upto_frame(p, 26);
    assert forall|j: int| 0 <= j < 2064 implies q[j] == s[j] by {
        assert(e[j] == s[j]);
    }
    assert forall|j: int| 2068 <= j < 2076 implies q[j] == s[j] by {
        assert(e[j] == s[j]);
    }
    assert forall|j: int| 2064 <= j < 2068 implies q[j] == e[j] by {}
    let le = le32(edc_seq(s.take(2064)));
    assert(e[2064] == le[0] && e[2065] == le[1] && e[2066] == le[2] && e[2067] == le[3]);
    assert(q.subrange(2064, 2068) =~= le);
}

} // verus!
