//! CRC-8 frame check sequence.
//!
//! Polynomial x^8 + x^2 + x + 1 (0x07), reflected (0xE0), initial value
//! 0xFF. The transmitted FCS is the bitwise NOT of the running CRC
//! (`0xFF - crc`).
use vstd::prelude::*;

verus! {

/// Initial value of the running CRC.
pub const INIT: u8 = 0xFF;

/// Residue left by running the CRC over a header followed by its correct FCS.
pub const GOOD_FCS: u8 = 0xCF;

/// One shift of the reflected CRC register.
pub open spec fn crc_round(c: u8) -> u8 {
    if c & 0x01 != 0 {
        (c >> 1) ^ 0xE0
    } else {
        c >> 1
    }
}

/// `n` shifts of the reflected CRC register.
pub open spec fn crc_rounds(c: u8, n: nat) -> u8
    decreases n,
{
    if n == 0 {
        c
    } else {
        crc_round(crc_rounds(c, (n - 1) as nat))
    }
}

/// Entry `x` of the CRC table: eight shifts of `x`.
pub open spec fn crc_table_entry(x: u8) -> u8 {
    crc_rounds(x, 8)
}

/// The running CRC after absorbing one more byte.
pub open spec fn crc_update(crc: u8, byte: u8) -> u8 {
    crc_table_entry(crc ^ byte)
}

/// The running CRC of a byte sequence, starting from `INIT`.
pub open spec fn crc_run(bytes: Seq<u8>) -> u8
    decreases bytes.len(),
{
    if bytes.len() == 0 {
        INIT
    } else {
        crc_update(crc_run(bytes.drop_last()), bytes.last())
    }
}

/// The on-wire FCS of a header.
pub open spec fn fcs_of(header: Seq<u8>) -> u8 {
    (0xFF - crc_run(header)) as u8
}

spec fn eight_rounds(x: u8) -> u8 {
    crc_round(crc_round(crc_round(crc_round(crc_round(crc_round(crc_round(crc_round(x))))))))
}

proof fn lemma_entry_unrolled(x: u8)
    ensures
        crc_table_entry(x) == eight_rounds(x),
{
    reveal_with_fuel(crc_rounds, 9);
}

/// The table entry is 0xCF exactly at 0xFF: the eight shifts are a
/// permutation of the byte values.
proof fn lemma_entry_good_residue(x: u8)
    ensures
        (crc_table_entry(x) == GOOD_FCS) == (x == 0xFF),
{
    lemma_entry_unrolled(x);
    assert((eight_rounds(x) == 0xCF) == (x == 0xFF)) by (bit_vector);
}

fn crc_round_exec(c: u8) -> (r: u8)
    ensures
        r == crc_round(c),
{
    if c & 0x01 != 0 {
        (c >> 1) ^ 0xE0
    } else {
        c >> 1
    }
}

fn table_entry(x: u8) -> (r: u8)
    ensures
        r == crc_table_entry(x),
{
    let mut crc: u8 = x;
    let mut j: u8 = 0;
    while j < 8
        invariant
            j <= 8,
            crc == crc_rounds(x, j as nat),
        decreases 8 - j,
    {
        crc = crc_round_exec(crc);
        j += 1;
    }
    crc
}

/// Build the reflected CRC-8 lookup table for poly 0xE0.
pub fn build_table() -> (t: [u8; 256])
    ensures
        forall|i: int| 0 <= i < 256 ==> #[trigger] t@[i] == crc_table_entry(i as u8),
{
    let mut t: [u8; 256] = [0u8; 256];
    let mut i: usize = 0;
    while i < 256
        invariant
            i <= 256,
            t@.len() == 256,
            forall|k: int| 0 <= k < i ==> #[trigger] t@[k] == crc_table_entry(k as u8),
        decreases 256 - i,
    {
        let e = table_entry(i as u8);
        t[i] = e;
        i += 1;
    }
    t
}

/// Update the running CRC with one byte.
pub fn update(crc: u8, byte: u8) -> (r: u8)
    ensures
        r == crc_update(crc, byte),
{
    table_entry(crc ^ byte)
}

/// Compute the CRC across a slice (without inverting yet).
pub fn run(bytes: &[u8]) -> (r: u8)
    ensures
        r == crc_run(bytes@),
{
    let mut crc: u8 = INIT;
    let mut i: usize = 0;
    while i < bytes.len()
        invariant
            i <= bytes@.len(),
            crc == crc_run(bytes@.take(i as int)),
        decreases bytes@.len() - i,
    {
        assert(bytes@.take(i as int + 1).drop_last() =~= bytes@.take(i as int));
        crc = update(crc, bytes[i]);
        i += 1;
    }
    assert(bytes@.take(i as int) =~= bytes@);
    crc
}

/// Compute the on-wire FCS (`0xFF - crc`) for the supplied header bytes.
///
/// The caller passes the Address, Control and Length octets. The info
/// bytes are not covered by the FCS for SABM/UA/DM/DISC/UIH frames.
pub fn fcs(header: &[u8]) -> (r: u8)
    ensures
        r == fcs_of(header@),
{
    0xFF - run(header)
}

/// Validate a received FCS against the header bytes it covers.
///
/// Running the CRC over the header and then the received FCS leaves the
/// residue 0xCF exactly when the FCS is the right one.
pub fn check(header: &[u8], received_fcs: u8) -> (r: bool)
    ensures
        r == (crc_update(crc_run(header@), received_fcs) == GOOD_FCS),
        r == (received_fcs == fcs_of(header@)),
{
    let mut crc = run(header);
    let ghost c = crc;
    crc = update(crc, received_fcs);
    proof {
        lemma_entry_good_residue(c ^ received_fcs);
        assert((c ^ received_fcs == 0xFF) == (received_fcs == (0xFF - c) as u8)) by (bit_vector);
    }
    crc == GOOD_FCS
}

/// A header followed by its own FCS always passes the check, and no other
/// FCS value does.
pub proof fn lemma_fcs_checks(header: Seq<u8>, f: u8)
    ensures
        crc_update(crc_run(header), fcs_of(header)) == GOOD_FCS,
        (crc_update(crc_run(header), f) == GOOD_FCS) == (f == fcs_of(header)),
{
    let c = crc_run(header);
    lemma_entry_good_residue(c ^ f);
    lemma_entry_good_residue(c ^ fcs_of(header));
    assert((c ^ f == 0xFF) == (f == (0xFF - c) as u8)) by (bit_vector);
    assert(c ^ ((0xFF - c) as u8) == 0xFF) by (bit_vector);
}

} // verus!
