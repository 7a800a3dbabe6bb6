//! Address octet.
//!
//! Layout (basic mode, single-byte address, EA = 1):
//!
//! ```text
//!  bit 7 6 5 4 3 2 | 1   | 0
//!       DLCI       | C/R | EA
//! ```
use vstd::prelude::*;

verus! {

/// Direction-aware role of a frame relative to the link.
///
/// Only the initiator role is implemented (the host is always the TE, the
/// modem is the responder), so the C/R bit follows the initiator column of
/// the specification table.
#[derive(Copy, Clone, Debug, PartialEq, Eq, Structural)]
pub enum Role {
    /// Frame is a command (initiator to responder).
    Command,
    /// Frame is a response (responder to initiator).
    Response,
}

#[derive(Copy, Clone, Debug, PartialEq, Eq, Structural)]
pub struct Address {
    pub dlci: u8,
    pub cr: bool,
    pub ea: bool,
}

/// Numeric value of a flag bit.
pub open spec fn bit(b: bool) -> int {
    if b { 1 } else { 0 }
}

/// The octet that encodes `a`: DLCI (taken modulo 64) in bits 7..2, C/R in
/// bit 1, EA in bit 0.
pub open spec fn address_octet(a: Address) -> int {
    (a.dlci % 64) * 4 + 2 * bit(a.cr) + bit(a.ea)
}

/// The address an octet decodes to, or `None` when its EA bit is clear.
pub open spec fn address_of_octet(b: u8) -> Option<Address> {
    if b % 2 == 0 {
        None
    } else {
        Some(Address { dlci: b / 4, cr: (b / 2) % 2 == 1, ea: true })
    }
}

/// An address that the single-octet form can carry.
pub open spec fn address_wf(a: Address) -> bool {
    a.dlci < 64 && a.ea
}

impl Address {
    /// Build the address of a frame the host emits.
    ///
    /// A command from the initiator carries C/R = 1, a response C/R = 0.
    pub fn outgoing(dlci: u8, role: Role) -> (a: Self)
        requires
            dlci < 64,
        ensures
            a.dlci == dlci,
            a.cr == (role == Role::Command),
            a.ea,
            address_wf(a),
    {
        Self { dlci, cr: matches!(role, Role::Command), ea: true }
    }

    /// Encode to a single octet.
    pub fn to_byte(self) -> (b: u8)
        ensures
            b == address_octet(self),
    {
        let d: u8 = self.dlci;
        let c: u8 = if self.cr { 1 } else { 0 };
        let e: u8 = if self.ea { 1 } else { 0 };
        let r: u8 = ((d & 0x3F) << 2) | (c << 1) | e;
        assert(c <= 1 && e <= 1 ==> ((d & 0x3F) << 2) | (c << 1) | e == (d % 64) * 4 + 2 * c + e)
            by (bit_vector);
        r
    }

    /// Parse an address octet. Returns `None` when the EA bit is 0: the
    /// extended (multi-octet) address is not supported.
    pub fn from_byte(b: u8) -> (r: Option<Self>)
        ensures
            r == address_of_octet(b),
    {
        if b & 0x01 == 0 {
            assert(b & 0x01 == 0 ==> b % 2 == 0) by (bit_vector);
            return None;
        }
        assert(b & 0x01 != 0 ==> b % 2 == 1) by (bit_vector);
        assert(((b & 0x02) != 0) == ((b / 2) % 2 == 1)) by (bit_vector);
        assert((b >> 2) & 0x3F == b / 4) by (bit_vector);
        Some(Self { ea: true, cr: (b & 0x02) != 0, dlci: (b >> 2) & 0x3F })
    }
}

/// Decoding the octet of a well-formed address gives that address back.
pub proof fn lemma_address_round_trip(a: Address)
    requires
        address_wf(a),
    ensures
        0 <= address_octet(a) < 256,
        address_of_octet(address_octet(a) as u8) == Some(a),
{
    let d = a.dlci;
    let c = bit(a.cr);
    assert(d % 64 == d);
    assert(0 <= address_octet(a) < 256);
    let o = address_octet(a) as u8;
    assert(o as int == d * 4 + 2 * c + 1);
    assert(o / 4 == d);
    assert((o / 2) % 2 == c);
}

/// Every octet with the EA bit set is the encoding of the address it decodes to.
pub proof fn lemma_octet_round_trip(b: u8)
    requires
        b % 2 == 1,
    ensures
        address_of_octet(b) matches Some(a) && address_wf(a) && address_octet(a) == b,
{
    let a = address_of_octet(b).unwrap();
    assert(a.dlci < 64);
    assert(a.dlci % 64 == a.dlci);
}

} // verus!
