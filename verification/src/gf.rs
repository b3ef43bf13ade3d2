//! GF(256) arithmetic tables: the discrete-log and antilog tables for the
//! fixed primitive polynomial, field division through them, and the
//! precomputed products of every byte with the two Reed-Solomon generator
//! coefficient vectors used by the P and Q parity passes.

use vstd::prelude::*;

verus! {

/// Primitive polynomial of GF(256): x^8 + x^4 + x^3 + x^2 + 1.
pub const GF8_PRIM_POLY: u16 = 0x11d;

/// One multiplication by the field generator: shift left, and reduce by the
/// primitive polynomial whenever the ninth bit becomes set.
pub open spec fn gf_step(b: u16) -> u16 {
    let s = b << 1;
    if s & 0x100 != 0 {
        s ^ GF8_PRIM_POLY
    } else {
        s
    }
}

/// The generator raised to the n-th power, as enumerated by repeated
/// `gf_step` applications starting from 1.
pub open spec fn gf_b(n: nat) -> u16
    decreases n,
{
    if n == 0 {
        1u16
    } else {
        gf_step(gf_b((n - 1) as nat))
    }
}

/// The log table after the first `n` enumeration steps: entry `gf_b(k)`
/// holds `k` for every `k < n`, and every entry not yet written holds 0.
pub open spec fn gf_log_prefix(n: nat) -> Seq<u8>
    decreases n,
{
    if n == 0 {
        Seq::new(256, |i: int| 0u8)
    } else {
        gf_log_prefix((n - 1) as nat).update(gf_b((n - 1) as nat) as int, (n - 1) as u8)
    }
}

/// The antilog table after the first `n` enumeration steps: entry `k` holds
/// `gf_b(k)` for every `k < n`, and every entry not yet written holds 0.
pub open spec fn gf_ilog_prefix(n: nat) -> Seq<u8>
    decreases n,
{
    if n == 0 {
        Seq::new(256, |i: int| 0u8)
    } else {
        gf_ilog_prefix((n - 1) as nat).update((n - 1) as int, gf_b((n - 1) as nat) as u8)
    }
}

/// The complete GF(256) log table: entry 0 is by convention never written.
pub open spec fn gf_log_table() -> Seq<u8> {
    gf_log_prefix(255)
}

/// The complete GF(256) antilog table: entry 255 is by convention never
/// written.
pub open spec fn gf_ilog_table() -> Seq<u8> {
    gf_ilog_prefix(255)
}

/// Field division through the log and antilog tables. Division by zero can
/// never arise from the fixed table-construction constants; it is given the
/// value 0 so that the definition is total.
pub open spec fn gf_div(a: u8, b: u8) -> u8 {
    if b == 0 {
        0u8
    } else if a == 0 {
        0u8
    } else {
        let d = gf_log_table()[a as int] - gf_log_table()[b as int];
        let e = if d < 0 {
            d + 255
        } else {
            d
        };
        gf_ilog_table()[e]
    }
}

/// Row 1 of the parity-check matrix after adding row 0: the generator power
/// for column j, plus the all-ones row.
pub open spec fn q1_raw(j: int) -> u8 {
    gf_ilog_table()[44 - j] ^ 1u8
}

/// Column j of the first generator coefficient vector, normalized by the
/// check-symbol entry of its own row.
pub open spec fn q1_coeff(j: int) -> u8 {
    gf_div(q1_raw(j), q1_raw(43))
}

/// Row 0 of the parity-check matrix after adding row 1 divided by the
/// generator.
pub open spec fn q0_raw(j: int) -> u8 {
    1u8 ^ gf_div(gf_ilog_table()[44 - j], gf_ilog_table()[1])
}

/// Column j of the second generator coefficient vector, normalized by the
/// check-symbol entry of its own row.
pub open spec fn q0_coeff(j: int) -> u8 {
    gf_div(q0_raw(j), q0_raw(44))
}

/// Field product through one log addition modulo 255 and one antilog
/// lookup, exactly as the coefficient table builder computes it.
pub open spec fn gf_mul_lookup(v: u8, c: u8) -> u8 {
    let s = gf_log_table()[v as int] + gf_log_table()[c as int];
    let e = if s >= 255 {
        s - 255
    } else {
        s
    };
    gf_ilog_table()[e]
}

/// Entry of the 43x256 parity-coefficient table: the products of byte `v`
/// with both generator coefficient vectors of column `row`, packed as one
/// 16-bit value (low byte from vector 0, high byte from vector 1).
pub open spec fn qtab(row: int, v: u8) -> u16 {
    if v == 0 {
        0u16
    } else {
        (gf_mul_lookup(v, q0_coeff(row)) as u16) | ((gf_mul_lookup(v, q1_coeff(row)) as u16)
            << 8)
    }
}

/// The generator enumeration stays inside one byte: reduction clears the
/// ninth bit as soon as it is set.
proof fn lemma_gf_step_in_range(b: u16)
    by (bit_vector)
    requires
        b < 256,
    ensures
        gf_step(b) < 256,
{
}

/// The log and antilog tables hold exactly the values that the group
/// enumeration defines.
pub open spec fn gf_tables_wf(log_table: Seq<u8>, ilog_table: Seq<u8>) -> bool {
    &&& log_table == gf_log_table()
    &&& ilog_table == gf_ilog_table()
    &&& log_table.len() == 256
    &&& ilog_table.len() == 256
}

/// Enumerate the multiplicative group of GF(256): record the discrete log
/// of each generator power and the power for each log value.
pub(crate) fn init_gf8_tables() -> (r: (Vec<u8>, Vec<u8>))
    ensures
        gf_tables_wf(r.0@, r.1@),
{
    let mut log_table: Vec<u8> = Vec::new();
    let mut ilog_table: Vec<u8> = Vec::new();
    let mut i: usize = 0;
    while i < 256
        invariant
            i <= 256,
            log_table@.len() == i,
            ilog_table@.len() == i,
            forall|j: int| 0 <= j < i ==> log_table@[j] == 0u8,
            forall|j: int| 0 <= j < i ==> ilog_table@[j] == 0u8,
        decreases 256 - i,
    {
        log_table.push(0);
        ilog_table.push(0);
        i = i + 1;
    }
    proof {
        assert(log_table@ =~= gf_log_prefix(0));
        assert(ilog_table@ =~= gf_ilog_prefix(0));
    }

    let mut b: u16 = 1;
    let mut log_val: u8 = 0;
    while log_val < 255
        invariant
            log_val <= 255,
            b == gf_b(log_val as nat),
            b < 256,
            log_table@.len() == 256,
            ilog_table@.len() == 256,
            log_table@ == gf_log_prefix(log_val as nat),
            ilog_table@ == gf_ilog_prefix(log_val as nat),
        decreases 255 - log_val,
    {
        log_table.set(b as usize, log_val);
        ilog_table.set(log_val as usize, b as u8);

        proof {
            lemma_gf_step_in_range(b);
        }
        b = b << 1;
        if b & 0x100 != 0 {
            b = b ^ GF8_PRIM_POLY;
        }

        log_val = log_val + 1;
    }

    (log_table, ilog_table)
}

/// Field addition is the bytewise exclusive or.
pub(crate) fn gf8_add(a: u8, b: u8) -> (r: u8)
    ensures
        r == (a ^ b),
{
    a ^ b
}

/// Field division through the tables. The zero-divisor branch is
/// unreachable from the fixed constants used during table construction and
/// mirrors the total spec definition.
pub(crate) fn gf8_div(log_table: &Vec<u8>, ilog_table: &Vec<u8>, a: u8, b: u8) -> (r: u8)
    requires
        gf_tables_wf(log_table@, ilog_table@),
    ensures
        r == gf_div(a, b),
{
    if b == 0 {
        return 0;
    }
    if a == 0 {
        return 0;
    }

    let mut sum: i16 = log_table[a as usize] as i16 - log_table[b as usize] as i16;
    if sum < 0 {
        sum = sum + 255;
    }

    ilog_table[sum as usize]
}

/// Shape and contents of the 43x256 parity-coefficient table.
pub open spec fn qcoef_table_wf(t: Seq<Vec<u16>>) -> bool {
    &&& t.len() == 43
    &&& forall|j: int| 0 <= j < 43 ==> (#[trigger] t[j])@.len() == 256
    &&& forall|j: int, v: int|
        0 <= j < 43 && 0 <= v < 256 ==> (#[trigger] t[j]@[v]) == qtab(j, v as u8)
}

/// Derive the two generator coefficient vectors by solving the 2x2 parity
/// equation system per column, then precompute the packed products of every
/// byte value with both vectors for the 43 data-symbol columns.
pub(crate) fn init_gf8_q_coeffs_table(log_table: &Vec<u8>, ilog_table: &Vec<u8>) -> (t: Vec<
    Vec<u16>,
>)
    requires
        gf_tables_wf(log_table@, ilog_table@),
    ensures
        qcoef_table_wf(t@),
{
    // Row 1 of the parity-check matrix: generator powers a^44 .. a^0.
    let mut help1: Vec<u8> = Vec::new();
    let mut j: usize = 0;
    while j < 45
        invariant
            j <= 45,
            gf_tables_wf(log_table@, ilog_table@),
            help1@.len() == j,
            forall|k: int| 0 <= k < j ==> help1@[k] == gf_ilog_table()[44 - k],
        decreases 45 - j,
    {
        help1.push(ilog_table[44 - j]);
        j = j + 1;
    }

    // e1' = e1 + e0, then normalize by the check-symbol entry e1'[43].
    let mut q1_vec: Vec<u8> = Vec::new();
    j = 0;
    while j < 45
        invariant
            j <= 45,
            gf_tables_wf(log_table@, ilog_table@),
            help1@.len() == 45,
            forall|k: int| 0 <= k < 45 ==> help1@[k] == gf_ilog_table()[44 - k],
            q1_vec@.len() == j,
            forall|k: int| 0 <= k < j ==> q1_vec@[k] == q1_raw(k),
        decreases 45 - j,
    {
        q1_vec.push(gf8_add(help1[j], 1));
        j = j + 1;
    }
    let d1 = q1_vec[43];
    let mut q1_norm: Vec<u8> = Vec::new();
    j = 0;
    while j < 45
        invariant
            j <= 45,
            gf_tables_wf(log_table@, ilog_table@),
            q1_vec@.len() == 45,
            forall|k: int| 0 <= k < 45 ==> q1_vec@[k] == q1_raw(k),
            d1 == q1_raw(43),
            q1_norm@.len() == j,
            forall|k: int| 0 <= k < j ==> q1_norm@[k] == q1_coeff(k),
        decreases 45 - j,
    {
        q1_norm.push(gf8_div(log_table, ilog_table, q1_vec[j], d1));
        j = j + 1;
    }

    // e0' = e0 + e1 / a^1, then normalize by the check-symbol entry e0'[44].
    let mut q0_vec: Vec<u8> = Vec::new();
    j = 0;
    while j < 45
        invariant
            j <= 45,
            gf_tables_wf(log_table@, ilog_table@),
            help1@.len() == 45,
            forall|k: int| 0 <= k < 45 ==> help1@[k] == gf_ilog_table()[44 - k],
            q0_vec@.len() == j,
            forall|k: int| 0 <= k < j ==> q0_vec@[k] == q0_raw(k),
        decreases 45 - j,
    {
        q0_vec.push(gf8_add(1, gf8_div(log_table, ilog_table, help1[j], ilog_table[1])));
        j = j + 1;
    }
    let d0 = q0_vec[44];
    let mut q0_norm: Vec<u8> = Vec::new();
    j = 0;
    while j < 45
        invariant
            j <= 45,
            gf_tables_wf(log_table@, ilog_table@),
            q0_vec@.len() == 45,
            forall|k: int| 0 <= k < 45 ==> q0_vec@[k] == q0_raw(k),
            d0 == q0_raw(44),
            q0_norm@.len() == j,
            forall|k: int| 0 <= k < j ==> q0_norm@[k] == q0_coeff(k),
        decreases 45 - j,
    {
        q0_norm.push(gf8_div(log_table, ilog_table, q0_vec[j], d0));
        j = j + 1;
    }

    // Products of every byte value with both coefficient vectors, packed as
    // one 16-bit entry per byte, for the 43 data-symbol columns.
    let mut table: Vec<Vec<u16>> = Vec::new();
    j = 0;
    while j < 43
        invariant
            j <= 43,
            gf_tables_wf(log_table@, ilog_table@),
            q0_norm@.len() == 45,
            forall|k: int| 0 <= k < 45 ==> q0_norm@[k] == q0_coeff(k),
            q1_norm@.len() == 45,
            forall|k: int| 0 <= k < 45 ==> q1_norm@[k] == q1_coeff(k),
            table@.len() == j,
            forall|k: int| 0 <= k < j ==> (#[trigger] table@[k])@.len() == 256,
            forall|k: int, v: int|
                0 <= k < j && 0 <= v < 256 ==> (#[trigger] table@[k]@[v]) == qtab(k, v as u8),
        decreases 43 - j,
    {
        let mut row: Vec<u16> = Vec::new();
        row.push(0);

        let mut i: usize = 1;
        while i < 256
            invariant
                1 <= i <= 256,
                gf_tables_wf(log_table@, ilog_table@),
                q0_norm@.len() == 45,
                forall|k: int| 0 <= k < 45 ==> q0_norm@[k] == q0_coeff(k),
                q1_norm@.len() == 45,
                forall|k: int| 0 <= k < 45 ==> q1_norm@[k] == q1_coeff(k),
                j < 43,
                row@.len() == i,
                forall|v: int| 0 <= v < i ==> row@[v] == qtab(j as int, v as u8),
            decreases 256 - i,
        {
            let mut c: u16 = log_table[i] as u16 + log_table[q0_norm[j] as usize] as u16;
            if c >= 255 {
                c = c - 255;
            }
            let mut entry: u16 = ilog_table[c as usize] as u16;

            let mut c2: u16 = log_table[i] as u16 + log_table[q1_norm[j] as usize] as u16;
            if c2 >= 255 {
                c2 = c2 - 255;
            }
            entry = entry | ((ilog_table[c2 as usize] as u16) << 8);

            row.push(entry);
            i = i + 1;
        }

        table.push(row);
        j = j + 1;
    }

    table
}

} // verus!
