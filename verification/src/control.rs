//! Control octet and the small set of frame kinds exchanged.
//!
//! The P/F bit is bit 4 (mask 0x10): 0 in the base value, 1 in the `_PF`
//! variant.
use vstd::prelude::*;

verus! {

pub const SABM: u8 = 0x2F;
pub const SABM_PF: u8 = 0x3F;
pub const UA: u8 = 0x63;
pub const UA_PF: u8 = 0x73;
pub const DM: u8 = 0x0F;
pub const DM_PF: u8 = 0x1F;
pub const DISC: u8 = 0x43;
pub const DISC_PF: u8 = 0x53;
pub const UIH: u8 = 0xEF;
pub const UIH_PF: u8 = 0xFF;

/// Mask for the Poll/Final bit inside the control octet.
pub const PF_MASK: u8 = 0x10;

/// A control octet with its P/F bit cleared.
pub open spec fn opcode_of(ctrl: u8) -> u8 {
    ctrl & !PF_MASK
}

/// Strip the P/F bit so the octet can be matched against the canonical opcodes.
pub fn opcode(ctrl: u8) -> (r: u8)
    ensures
        r == opcode_of(ctrl),
        r == (if ctrl & PF_MASK != 0 { (ctrl - 16) as u8 } else { ctrl }),
{
    assert((ctrl & !0x10u8) == (if ctrl & 0x10 != 0 { (ctrl - 16) as u8 } else { ctrl }))
        by (bit_vector);
    ctrl & !PF_MASK
}

/// Whether the P/F bit is set in this control octet.
pub fn pf_set(ctrl: u8) -> (r: bool)
    ensures
        r == (ctrl & PF_MASK != 0),
{
    ctrl & PF_MASK != 0
}

/// High-level classification of a frame.
///
/// SABM/UA/DM/DISC are the handshake control frames and UIH carries data.
/// UIH with P/F set is treated as UIH: in basic mode the bit is
/// informational only.
#[derive(Copy, Clone, Debug, PartialEq, Eq, Structural)]
pub enum FrameKind {
    Sabm,
    Ua,
    Dm,
    Disc,
    Uih,
}

/// The canonical opcode (P/F clear) of each kind.
pub open spec fn kind_opcode(k: FrameKind) -> u8 {
    match k {
        FrameKind::Sabm => SABM,
        FrameKind::Ua => UA,
        FrameKind::Dm => DM,
        FrameKind::Disc => DISC,
        FrameKind::Uih => UIH,
    }
}

/// The kind of a control octet, ignoring its P/F bit, or `None` when the
/// opcode is none of the five supported ones.
pub open spec fn kind_of_ctrl(ctrl: u8) -> Option<FrameKind> {
    let op = opcode_of(ctrl);
    if op == SABM {
        Some(FrameKind::Sabm)
    } else if op == UA {
        Some(FrameKind::Ua)
    } else if op == DM {
        Some(FrameKind::Dm)
    } else if op == DISC {
        Some(FrameKind::Disc)
    } else if op == UIH {
        Some(FrameKind::Uih)
    } else {
        None
    }
}

/// The control octet of kind `k` with P/F bit `pf`.
pub open spec fn ctrl_octet(k: FrameKind, pf: bool) -> u8 {
    if pf {
        kind_opcode(k) | PF_MASK
    } else {
        kind_opcode(k)
    }
}

impl FrameKind {
    /// Map a raw control octet to a kind, ignoring the P/F bit.
    pub fn from_ctrl(ctrl: u8) -> (r: Option<Self>)
        ensures
            r == kind_of_ctrl(ctrl),
    {
        let op = opcode(ctrl);
        if op == SABM {
            Some(Self::Sabm)
        } else if op == UA {
            Some(Self::Ua)
        } else if op == DM {
            Some(Self::Dm)
        } else if op == DISC {
            Some(Self::Disc)
        } else if op == UIH {
            Some(Self::Uih)
        } else {
            None
        }
    }

    /// Build the control octet of this kind with the supplied P/F bit.
    pub fn to_ctrl(self, pf: bool) -> (r: u8)
        ensures
            r == ctrl_octet(self, pf),
    {
        let base = match self {
            Self::Sabm => SABM,
            Self::Ua => UA,
            Self::Dm => DM,
            Self::Disc => DISC,
            Self::Uih => UIH,
        };
        if pf {
            base | PF_MASK
        } else {
            base
        }
    }
}

/// Kind and P/F bit of a control octet, as used by the encode path.
#[derive(Copy, Clone, Debug, PartialEq, Eq, Structural)]
pub struct Control {
    pub kind: FrameKind,
    pub pf: bool,
}

impl Control {
    pub fn new(kind: FrameKind, pf: bool) -> (c: Self)
        ensures
            c.kind == kind,
            c.pf == pf,
    {
        Self { kind, pf }
    }

    pub fn to_byte(self) -> (r: u8)
        ensures
            r == ctrl_octet(self.kind, self.pf),
    {
        self.kind.to_ctrl(self.pf)
    }
}

/// Each `_PF` constant is its base opcode with the P/F bit set.
pub proof fn lemma_pf_constants()
    ensures
        SABM_PF == SABM | PF_MASK,
        UA_PF == UA | PF_MASK,
        DM_PF == DM | PF_MASK,
        DISC_PF == DISC | PF_MASK,
        UIH_PF == UIH | PF_MASK,
{
    assert(0x3Fu8 == 0x2Fu8 | 0x10u8) by (bit_vector);
    assert(0x73u8 == 0x63u8 | 0x10u8) by (bit_vector);
    assert(0x1Fu8 == 0x0Fu8 | 0x10u8) by (bit_vector);
    assert(0x53u8 == 0x43u8 | 0x10u8) by (bit_vector);
    assert(0xFFu8 == 0xEFu8 | 0x10u8) by (bit_vector);
}

/// Reading back a control octet built from a kind and a P/F bit gives that
/// kind and that P/F bit.
pub proof fn lemma_ctrl_round_trip(k: FrameKind, pf: bool)
    ensures
        kind_of_ctrl(ctrl_octet(k, pf)) == Some(k),
        (ctrl_octet(k, pf) & PF_MASK != 0) == pf,
{
    let b = kind_opcode(k);
    assert(b == 0x2F || b == 0x63 || b == 0x0F || b == 0x43 || b == 0xEF);
    assert((b == 0x2F || b == 0x63 || b == 0x0F || b == 0x43 || b == 0xEF) ==> (b | 0x10) & !0x10u8
        == b && (b | 0x10) & 0x10 != 0 && b & !0x10u8 == b && b & 0x10 == 0) by (bit_vector);
}

} // verus!
