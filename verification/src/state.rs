//! Per-DLC channel state from the host (initiator) perspective.
//!
//! A channel is brought up with a SABM/UA exchange and torn down with
//! DISC/UA. Responder semantics are not implemented (the modem is the
//! responder), so transitions are one-directional.
use vstd::prelude::*;

verus! {

#[derive(Copy, Clone, Debug, PartialEq, Eq, Structural)]
pub enum DlcState {
    Closed,
    /// SABM sent, waiting for UA from the peer.
    Opening,
    Open,
    /// DISC sent, waiting for UA from the peer.
    Closing,
}

impl DlcState {
    pub fn on_sabm_sent(self) -> (r: Self)
        ensures
            r == (if self == DlcState::Closed { DlcState::Opening } else { self }),
    {
        match self {
            Self::Closed => Self::Opening,
            other => other,
        }
    }

    pub fn on_disc_sent(self) -> (r: Self)
        ensures
            r == (if self == DlcState::Open { DlcState::Closing } else { self }),
    {
        match self {
            Self::Open => Self::Closing,
            other => other,
        }
    }

    pub fn on_ua_received(self) -> (r: Self)
        ensures
            r == (match self {
                DlcState::Opening => DlcState::Open,
                DlcState::Closing => DlcState::Closed,
                other => other,
            }),
    {
        match self {
            Self::Opening => Self::Open,
            Self::Closing => Self::Closed,
            other => other,
        }
    }

    /// DM (Disconnected Mode) from the peer always lands the channel in Closed.
    pub fn on_dm_received(self) -> (r: Self)
        ensures
            r == DlcState::Closed,
    {
        Self::Closed
    }

    pub fn is_open(self) -> (r: bool)
        ensures
            r == (self == DlcState::Open),
    {
        matches!(self, Self::Open)
    }
}

} // verus!
