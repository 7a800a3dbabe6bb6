//! Frame encoder and streaming byte-oriented decoder for the basic-mode
//! wire format.
//!
//! Wire layout:
//!
//! ```text
//! Flag(0xF9) | Address | Control | Length | Info... | FCS | Flag(0xF9)
//!     1B         1B        1B        1B     0..=127B   1B     1B
//! ```
//!
//! The two-byte length form (EA = 0) is rejected on decode: the chosen MTU
//! (`MAX_INFO_LEN` = 127) keeps every frame to a single length octet.
use vstd::prelude::*;

use crate::address::{address_octet, address_of_octet, Address, Role};
use crate::control::{self, ctrl_octet, kind_of_ctrl, Control, FrameKind, PF_MASK};
use crate::info_buf::{info_as_slice, info_clear, info_contents, info_len, info_new, info_push};
use crate::fcs::{self, fcs_of};
use crate::{FLAG, MAX_INFO_LEN};

verus! {

#[derive(Copy, Clone, Debug, PartialEq, Eq, Structural)]
pub enum EncodeError {
    InfoTooLong,
    OutputTooSmall,
}

#[derive(Copy, Clone, Debug, PartialEq, Eq, Structural)]
pub enum DecodeError {
    BadAddress,
    BadControl,
    BadFcs,
    /// Two-byte length form (EA = 0) is not supported.
    TwoByteLengthUnsupported,
    /// Closing flag missing where one was expected.
    MissingEndFlag,
}

/// What the encoder takes as input.
#[derive(Copy, Clone, Debug)]
pub struct Frame<'a> {
    pub dlci: u8,
    pub role: Role,
    pub kind: FrameKind,
    pub pf: bool,
    pub info: &'a [u8],
}

impl<'a> Frame<'a> {
    /// SABM with PF = 1 and no info: the standard channel-open command
    /// from the host.
    pub fn sabm(dlci: u8) -> (f: Self)
        ensures
            f.dlci == dlci,
            f.role == Role::Command,
            f.kind == FrameKind::Sabm,
            f.pf,
            f.info@ == Seq::<u8>::empty(),
    {
        Self { dlci, role: Role::Command, kind: FrameKind::Sabm, pf: true, info: empty_info() }
    }

    /// DISC with PF = 1: the standard channel-close command from the host.
    pub fn disc(dlci: u8) -> (f: Self)
        ensures
            f.dlci == dlci,
            f.role == Role::Command,
            f.kind == FrameKind::Disc,
            f.pf,
            f.info@ == Seq::<u8>::empty(),
    {
        Self { dlci, role: Role::Command, kind: FrameKind::Disc, pf: true, info: empty_info() }
    }

    /// UIH (data) frame from the host, sent as a command.
    pub fn uih(dlci: u8, info: &'a [u8]) -> (f: Self)
        ensures
            f.dlci == dlci,
            f.role == Role::Command,
            f.kind == FrameKind::Uih,
            !f.pf,
            f.info@ == info@,
    {
        Self { dlci, role: Role::Command, kind: FrameKind::Uih, pf: false, info }
    }
}

fn empty_info<'a>() -> (s: &'a [u8])
    ensures
        s@ == Seq::<u8>::empty(),
{
    let e: &'a [u8] = &[];
    assert(e@ =~= Seq::<u8>::empty());
    e
}

/// Wire size of one frame for the supplied payload length.
pub open spec fn wire_len_of(info_len: int) -> int {
    // flag + addr + ctrl + len + info + fcs + flag
    info_len + 6
}

/// Wire size of one frame for the supplied payload length.
pub fn wire_len(info_len: usize) -> (n: usize)
    requires
        info_len <= usize::MAX - 6,
    ensures
        n == wire_len_of(info_len as int),
{
    1 + 1 + 1 + 1 + info_len + 1 + 1
}

/// A frame the encoder accepts: a 6-bit DLCI and at most `MAX_INFO_LEN`
/// info bytes.
pub open spec fn frame_wf(f: Frame) -> bool {
    f.dlci < 64 && f.info@.len() <= MAX_INFO_LEN
}

/// Address, Control and Length octets of a frame: the bytes the FCS covers.
pub open spec fn frame_header(f: Frame) -> Seq<u8> {
    seq![
        address_octet(Address { dlci: f.dlci, cr: f.role == Role::Command, ea: true }) as u8,
        ctrl_octet(f.kind, f.pf),
        (f.info@.len() * 2 + 1) as u8,
    ]
}

/// The complete wire image of a frame, opening and closing flags included.
pub open spec fn frame_wire(f: Frame) -> Seq<u8> {
    seq![FLAG] + frame_header(f) + f.info@ + seq![fcs_of(frame_header(f)), FLAG]
}

/// Encode `frame` into `out`. Returns the number of bytes written.
///
/// On success the wire image fills the front of `out` and the rest of `out`
/// is left as it was; on error `out` is untouched.
pub fn encode(frame: &Frame<'_>, out: &mut [u8]) -> (r: Result<usize, EncodeError>)
    requires
        frame.dlci < 64,
    ensures
        frame.info@.len() > MAX_INFO_LEN ==> r == Err::<usize, EncodeError>(EncodeError::InfoTooLong),
        frame.info@.len() <= MAX_INFO_LEN && old(out)@.len() < wire_len_of(frame.info@.len() as int)
            ==> r == Err::<usize, EncodeError>(EncodeError::OutputTooSmall),
        r is Err ==> final(out)@ == old(out)@,
        frame.info@.len() <= MAX_INFO_LEN && old(out)@.len() >= wire_len_of(frame.info@.len() as int)
            ==> r is Ok,
        r matches Ok(n) ==> {
            &&& n == wire_len_of(frame.info@.len() as int)
            &&& n == frame_wire(*frame).len()
            &&& final(out)@ == frame_wire(*frame) + old(out)@.skip(n as int)
        },
{
    if frame.info.len() > MAX_INFO_LEN {
        return Err(EncodeError::InfoTooLong);
    }
    let needed = wire_len(frame.info.len());
    if out.len() < needed {
        return Err(EncodeError::OutputTooSmall);
    }
    let ilen = frame.info.len();
    let addr = Address::outgoing(frame.dlci, frame.role).to_byte();
    let ctrl = Control::new(frame.kind, frame.pf).to_byte();
    let ilen8: u8 = ilen as u8;
    let len: u8 = (ilen8 << 1) | 1;
    assert(ilen8 < 128 ==> (ilen8 << 1) | 1 == ilen8 * 2 + 1) by (bit_vector);
    let ghost old_out = out@;
    out[0] = FLAG;
    out[1] = addr;
    out[2] = ctrl;
    out[3] = len;
    let info_end = 4 + ilen;
    let mut i: usize = 0;
    while i < ilen
        invariant
            i <= ilen,
            ilen == frame.info@.len(),
            ilen <= MAX_INFO_LEN,
            info_end == 4 + ilen,
            out@.len() == old_out.len(),
            old_out.len() >= ilen + 6,
            out@[0] == FLAG,
            out@[1] == addr,
            out@[2] == ctrl,
            out@[3] == len,
            forall|k: int| 0 <= k < i ==> #[trigger] out@[4 + k] == frame.info@[k],
            forall|k: int| info_end <= k < old_out.len() ==> #[trigger] out@[k] == old_out[k],
        decreases ilen - i,
    {
        out[4 + i] = frame.info[i];
        i += 1;
    }
    let header: [u8; 3] = [addr, ctrl, len];
    let f = fcs::fcs(&header);
    out[info_end] = f;
    out[info_end + 1] = FLAG;
    proof {
        let hdr = frame_header(*frame);
        assert(header@ =~= hdr);
        let w = frame_wire(*frame);
        let expect = w + old_out.skip(needed as int);
        assert(w.len() == needed);
        assert forall|k: int| 0 <= k < out@.len() implies #[trigger] out@[k] == expect[k] by {
            if 4 <= k < info_end {
                assert(out@[4 + (k - 4)] == frame.info@[k - 4]);
            }
        }
        assert(out@ =~= expect);
    }
    Ok(needed)
}

/// Borrowed view of a decoded frame. Its lifetime is tied to the borrow of
/// the decoder that produced it: the caller consumes the view before
/// feeding more bytes.
#[derive(Debug)]
pub struct FrameView<'a> {
    pub address: Address,
    pub control: Control,
    pub info: &'a [u8],
}

impl<'a> FrameView<'a> {
    pub fn dlci(&self) -> (d: u8)
        ensures
            d == self.address.dlci,
    {
        self.address.dlci
    }

    pub fn kind(&self) -> (k: FrameKind)
        ensures
            k == self.control.kind,
    {
        self.control.kind
    }
}

/// Where the decoder stands inside the wire layout.
#[derive(Copy, Clone, Debug, PartialEq, Eq, Structural)]
pub enum State {
    /// Looking for the first opening flag.
    Hunt,
    /// Last byte was a flag; the next non-flag byte is the address.
    Addr,
    Ctrl,
    Len,
    Info,
    Fcs,
    End,
}

/// The decoder as a mathematical value.
#[verifier::ext_equal]
pub struct DecoderModel {
    pub state: State,
    pub addr: u8,
    pub ctrl: u8,
    pub len_byte: u8,
    pub info_len: u8,
    pub info: Seq<u8>,
}

/// A decoded frame as a mathematical value.
#[verifier::ext_equal]
pub struct FrameModel {
    pub address: Address,
    pub control: Control,
    pub info: Seq<u8>,
}

/// What one fed byte produces.
#[verifier::ext_equal]
pub enum FeedOutcome {
    /// Byte consumed, frame still in progress.
    Pending,
    /// A complete frame.
    Decoded(FrameModel),
    /// A framing error; the decoder went back to hunting for a flag.
    Failed(DecodeError),
}

/// The decoder a fresh `FrameDecoder::new` stands for.
pub open spec fn initial_model() -> DecoderModel {
    DecoderModel { state: State::Hunt, addr: 0, ctrl: 0, len_byte: 0, info_len: 0, info: Seq::empty() }
}

/// The facts the decoder keeps between bytes.
pub open spec fn model_wf(m: DecoderModel) -> bool {
    &&& m.info.len() <= MAX_INFO_LEN
    &&& (m.state is Ctrl || m.state is Len || m.state is Info || m.state is Fcs || m.state is End)
        ==> m.addr % 2 == 1
    &&& (m.state is Len || m.state is Info || m.state is Fcs || m.state is End)
        ==> kind_of_ctrl(m.ctrl) is Some
    &&& (m.state is Info || m.state is Fcs || m.state is End) ==> {
        &&& m.len_byte % 2 == 1
        &&& m.info_len == m.len_byte / 2
    }
    &&& m.state is Info ==> m.info.len() < m.info_len
    &&& (m.state is Fcs || m.state is End) ==> m.info.len() == m.info_len
}

/// The decoder after a framing error: hunting, with an empty payload.
pub open spec fn reset_model(m: DecoderModel) -> DecoderModel {
    DecoderModel { state: State::Hunt, info: Seq::empty(), ..m }
}

/// The frame held by a decoder that has seen a whole frame.
pub open spec fn frame_of(m: DecoderModel) -> FrameModel {
    FrameModel {
        address: address_of_octet(m.addr).unwrap(),
        control: Control { kind: kind_of_ctrl(m.ctrl).unwrap(), pf: m.ctrl & PF_MASK != 0 },
        info: m.info,
    }
}

/// The header bytes the FCS of the frame in progress covers.
pub open spec fn model_header(m: DecoderModel) -> Seq<u8> {
    seq![m.addr, m.ctrl, m.len_byte]
}

/// One byte of input: the next decoder and what the byte produced.
pub open spec fn step(m: DecoderModel, b: u8) -> (DecoderModel, FeedOutcome) {
    match m.state {
        State::Hunt => {
            if b == FLAG {
                (DecoderModel { state: State::Addr, ..m }, FeedOutcome::Pending)
            } else {
                (m, FeedOutcome::Pending)
            }
        },
        State::Addr => {
            if b == FLAG {
                (m, FeedOutcome::Pending)
            } else if b % 2 == 0 {
                (reset_model(m), FeedOutcome::Failed(DecodeError::BadAddress))
            } else {
                (DecoderModel { state: State::Ctrl, addr: b, ..m }, FeedOutcome::Pending)
            }
        },
        State::Ctrl => {
            if kind_of_ctrl(b) is None {
                (reset_model(m), FeedOutcome::Failed(DecodeError::BadControl))
            } else {
                (DecoderModel { state: State::Len, ctrl: b, ..m }, FeedOutcome::Pending)
            }
        },
        State::Len => {
            if b % 2 == 0 {
                (reset_model(m), FeedOutcome::Failed(DecodeError::TwoByteLengthUnsupported))
            } else {
                (
                    DecoderModel {
                        state: if b / 2 == 0 { State::Fcs } else { State::Info },
                        len_byte: b,
                        info_len: b / 2,
                        info: Seq::empty(),
                        ..m
                    },
                    FeedOutcome::Pending,
                )
            }
        },
        State::Info => {
            let info = if m.info.len() < MAX_INFO_LEN { m.info.push(b) } else { m.info };
            (
                DecoderModel {
                    state: if info.len() == m.info_len { State::Fcs } else { State::Info },
                    info,
                    ..m
                },
                FeedOutcome::Pending,
            )
        },
        State::Fcs => {
            if b != fcs_of(model_header(m)) {
                (reset_model(m), FeedOutcome::Failed(DecodeError::BadFcs))
            } else {
                (DecoderModel { state: State::End, ..m }, FeedOutcome::Pending)
            }
        },
        State::End => {
            if b != FLAG {
                (reset_model(m), FeedOutcome::Failed(DecodeError::MissingEndFlag))
            } else {
                (DecoderModel { state: State::Addr, ..m }, FeedOutcome::Decoded(frame_of(m)))
            }
        },
    }
}

/// What a call of `FrameDecoder::feed` returned, as a `FeedOutcome`.
pub open spec fn outcome_of(r: Result<Option<FrameView>, DecodeError>) -> FeedOutcome {
    match r {
        Ok(None) => FeedOutcome::Pending,
        Ok(Some(v)) => FeedOutcome::Decoded(
            FrameModel { address: v.address, control: v.control, info: v.info@ },
        ),
        Err(e) => FeedOutcome::Failed(e),
    }
}

pub struct FrameDecoder {
    state: State,
    addr: u8,
    ctrl: u8,
    len_byte: u8,
    info_len: u8,
    info: heapless::Vec<u8, MAX_INFO_LEN>,
}

impl View for FrameDecoder {
    type V = DecoderModel;

    closed spec fn view(&self) -> DecoderModel {
        DecoderModel {
            state: self.state,
            addr: self.addr,
            ctrl: self.ctrl,
            len_byte: self.len_byte,
            info_len: self.info_len,
            info: info_contents(self.info),
        }
    }
}

impl Default for FrameDecoder {
    fn default() -> (d: Self)
        ensures
            d@ == initial_model(),
            d.wf(),
    {
        Self::new()
    }
}

impl FrameDecoder {
    /// The invariant every decoder keeps between bytes.
    pub open spec fn wf(&self) -> bool {
        model_wf(self@)
    }

    pub fn new() -> (d: Self)
        ensures
            d@ == initial_model(),
            d.wf(),
    {
        Self { state: State::Hunt, addr: 0, ctrl: 0, len_byte: 0, info_len: 0, info: info_new() }
    }

    /// Feed one byte from the wire. Returns:
    /// * `Ok(None)`: byte consumed, frame still in progress;
    /// * `Ok(Some(frame))`: a complete frame is available;
    /// * `Err(_)`: framing error; the decoder resyncs to Hunt and the next flag.
    pub fn feed(&mut self, b: u8) -> (r: Result<Option<FrameView<'_>>, DecodeError>)
        requires
            old(self).wf(),
        ensures
            final(self).wf(),
            final(self)@ == step(old(self)@, b).0,
            outcome_of(r) == step(old(self)@, b).1,
    {
        match self.state {
            State::Hunt => {
                if b == FLAG {
                    self.state = State::Addr;
                }
                Ok(None)
            },
            State::Addr => {
                if b == FLAG {
                    return Ok(None);
                }
                if b & 0x01 == 0 {
                    assert(b & 0x01 == 0 ==> b % 2 == 0) by (bit_vector);
                    self.reset_to_hunt();
                    return Err(DecodeError::BadAddress);
                }
                assert(b & 0x01 != 0 ==> b % 2 == 1) by (bit_vector);
                self.addr = b;
                self.state = State::Ctrl;
                Ok(None)
            },
            State::Ctrl => {
                if FrameKind::from_ctrl(b).is_none() {
                    self.reset_to_hunt();
                    return Err(DecodeError::BadControl);
                }
                self.ctrl = b;
                self.state = State::Len;
                Ok(None)
            },
            State::Len => {
                if b & 0x01 == 0 {
                    assert(b & 0x01 == 0 ==> b % 2 == 0) by (bit_vector);
                    self.reset_to_hunt();
                    return Err(DecodeError::TwoByteLengthUnsupported);
                }
                assert(b & 0x01 != 0 ==> b % 2 == 1) by (bit_vector);
                assert(b >> 1 == b / 2) by (bit_vector);
                self.len_byte = b;
                self.info_len = b >> 1;
                info_clear(&mut self.info);
                self.state = if self.info_len == 0 {
                    State::Fcs
                } else {
                    State::Info
                };
                Ok(None)
            },
            State::Info => {
                let _ = info_push(&mut self.info, b);
                if info_len(&self.info) == self.info_len as usize {
                    self.state = State::Fcs;
                }
                Ok(None)
            },
            State::Fcs => {
                let header: [u8; 3] = [self.addr, self.ctrl, self.len_byte];
                proof {
                    assert(header@ =~= model_header(self@));
                }
                if !fcs::check(&header, b) {
                    self.reset_to_hunt();
                    return Err(DecodeError::BadFcs);
                }
                self.state = State::End;
                Ok(None)
            },
            State::End => {
                if b != FLAG {
                    self.reset_to_hunt();
                    return Err(DecodeError::MissingEndFlag);
                }
                // The closing flag may also be the next frame's opening flag.
                self.state = State::Addr;
                Ok(Some(self.frame_view()))
            },
        }
    }

    fn reset_to_hunt(&mut self)
        ensures
            final(self)@ == reset_model(old(self)@),
    {
        self.state = State::Hunt;
        info_clear(&mut self.info);
    }

    fn frame_view(&self) -> (v: FrameView<'_>)
        requires
            self.addr % 2 == 1,
            kind_of_ctrl(self.ctrl) is Some,
        ensures
            v.address == frame_of(self@).address,
            v.control == frame_of(self@).control,
            v.info@ == frame_of(self@).info,
    {
        let address = match Address::from_byte(self.addr) {
            Some(a) => a,
            None => {
                assert(false);
                Address { dlci: 0, cr: false, ea: false }
            },
        };
        let kind = match FrameKind::from_ctrl(self.ctrl) {
            Some(k) => k,
            None => {
                assert(false);
                FrameKind::Uih
            },
        };
        let pf = control::pf_set(self.ctrl);
        FrameView { address, control: Control { kind, pf }, info: info_as_slice(&self.info) }
    }
}


} // verus!
