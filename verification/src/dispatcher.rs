//! Receive-side routing: where a decoded frame goes.
//!
//! UIH data on DLC1 (AT) and DLC2 (PPP) goes to that channel's byte
//! stream; UA, DM and DISC become control events for the bring-up code.
use vstd::prelude::*;

use crate::control::FrameKind;

verus! {

/// Events emitted by the dispatcher for the bring-up / supervisor code.
#[derive(Copy, Clone, Debug, PartialEq, Eq, Structural)]
pub enum ControlEvt {
    /// Peer accepted our SABM on this DLCI (UA received).
    UaReceived(u8),
    /// Peer reported the DLC as disconnected.
    DmReceived(u8),
    /// Peer initiated DISC on this DLCI.
    DiscReceived(u8),
}

/// Where a decoded frame goes.
#[derive(Copy, Clone, Debug, PartialEq, Eq, Structural)]
pub enum Route {
    /// Payload to the AT channel's byte stream (DLC1).
    Dlc1Data,
    /// Payload to the PPP channel's byte stream (DLC2).
    Dlc2Data,
    /// Payload on the multiplexer control channel (DLC0), which is logged only.
    ControlData,
    /// A control event for the bring-up code.
    Event(ControlEvt),
    /// SABM from the modem: the peer opening a channel, which the host
    /// never expects as initiator.
    UnexpectedSabm,
    /// Data on a channel that is not configured.
    Unconfigured,
}

/// Where a frame with this DLCI and kind goes.
pub open spec fn route_of(dlci: u8, kind: FrameKind) -> Route {
    match kind {
        FrameKind::Uih => {
            if dlci == 1 {
                Route::Dlc1Data
            } else if dlci == 2 {
                Route::Dlc2Data
            } else if dlci == 0 {
                Route::ControlData
            } else {
                Route::Unconfigured
            }
        },
        FrameKind::Ua => Route::Event(ControlEvt::UaReceived(dlci)),
        FrameKind::Dm => Route::Event(ControlEvt::DmReceived(dlci)),
        FrameKind::Disc => Route::Event(ControlEvt::DiscReceived(dlci)),
        FrameKind::Sabm => Route::UnexpectedSabm,
    }
}

/// Decide where a decoded frame goes.
pub fn route(dlci: u8, kind: FrameKind) -> (r: Route)
    ensures
        r == route_of(dlci, kind),
{
    match (dlci, kind) {
        (1, FrameKind::Uih) => Route::Dlc1Data,
        (2, FrameKind::Uih) => Route::Dlc2Data,
        (0, FrameKind::Uih) => Route::ControlData,
        (_, FrameKind::Ua) => Route::Event(ControlEvt::UaReceived(dlci)),
        (_, FrameKind::Dm) => Route::Event(ControlEvt::DmReceived(dlci)),
        (_, FrameKind::Disc) => Route::Event(ControlEvt::DiscReceived(dlci)),
        (_, FrameKind::Sabm) => Route::UnexpectedSabm,
        (_, FrameKind::Uih) => Route::Unconfigured,
    }
}

} // verus!
