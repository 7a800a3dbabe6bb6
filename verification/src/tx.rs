//! Transmit-side requests: what the producers queue for the single task
//! that owns the UART transmitter, and the frame each request becomes.
use vstd::prelude::*;

use crate::address::Role;
use crate::control::FrameKind;
use crate::frame::Frame;
use crate::info_buf::{info_as_slice, info_contents, info_extend, info_new};
use crate::MAX_INFO_LEN;

verus! {

/// Message accepted by the transmit task. The payload is owned: a writer
/// copies its slice in before queueing, so its own buffer is free as soon
/// as the request is queued.
pub enum TxReq {
    /// Data on a DLC, always sent as a UIH command frame from the host.
    Data { dlci: u8, info: heapless::Vec<u8, MAX_INFO_LEN> },
    /// SABM channel-open command; the caller awaits the matching UA.
    Sabm(u8),
    /// DISC channel-close command.
    Disc(u8),
}

/// The frame a request is sent as.
pub fn request_frame(req: &TxReq) -> (f: Frame<'_>)
    ensures
        f.role == Role::Command,
        match *req {
            TxReq::Data { dlci, info } => {
                &&& f.dlci == dlci
                &&& f.kind == FrameKind::Uih
                &&& !f.pf
                &&& f.info@ == info_contents(info)
            },
            TxReq::Sabm(dlci) => {
                &&& f.dlci == dlci
                &&& f.kind == FrameKind::Sabm
                &&& f.pf
                &&& f.info@.len() == 0
            },
            TxReq::Disc(dlci) => {
                &&& f.dlci == dlci
                &&& f.kind == FrameKind::Disc
                &&& f.pf
                &&& f.info@.len() == 0
            },
        },
{
    match req {
        TxReq::Data { dlci, info } => Frame::uih(*dlci, info_as_slice(info)),
        TxReq::Sabm(dlci) => Frame::sabm(*dlci),
        TxReq::Disc(dlci) => Frame::disc(*dlci),
    }
}

/// A data request carrying `chunk` on `dlci`.
pub fn data_request(dlci: u8, chunk: &[u8]) -> (r: TxReq)
    requires
        chunk@.len() <= MAX_INFO_LEN,
    ensures
        r matches TxReq::Data { dlci: d, info } && d == dlci && info_contents(info) == chunk@,
{
    let mut info = info_new();
    let _ = info_extend(&mut info, chunk);
    assert(Seq::<u8>::empty() + chunk@ =~= chunk@);
    TxReq::Data { dlci, info }
}

/// End of the chunk of a `len`-byte write that starts at `start`: writes
/// are cut into pieces of at most `MAX_INFO_LEN` bytes.
pub fn chunk_end(len: usize, start: usize) -> (end: usize)
    requires
        start < len,
    ensures
        end == (if len - start <= MAX_INFO_LEN { len as int } else { start + MAX_INFO_LEN }),
        start < end <= len,
        end - start <= MAX_INFO_LEN,
{
    if len - start <= MAX_INFO_LEN {
        len
    } else {
        start + MAX_INFO_LEN
    }
}

} // verus!
