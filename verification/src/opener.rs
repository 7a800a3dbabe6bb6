//! Opening a DLC: send SABM, wait for the peer's answer, retry a bounded
//! number of times.
use vstd::prelude::*;

use crate::dispatcher::ControlEvt;

verus! {

/// Why the multiplexer could not be brought up.
#[derive(Copy, Clone, Debug, PartialEq, Eq, Structural)]
pub enum StartError {
    /// Peer didn't acknowledge SABM within the timeout for this DLCI.
    SabmTimeout(u8),
    /// Peer rejected the channel (DM in response to SABM).
    Rejected(u8),
}

/// Number of SABM attempts before giving up on a channel.
pub const SABM_RETRIES: u8 = 3;

/// What to do next while opening a channel.
#[derive(Copy, Clone, Debug, PartialEq, Eq)]
pub enum OpenAction {
    /// Send (again) a SABM for the channel and wait for one answer.
    SendSabm,
    /// Opening is over.
    Done(Result<(), StartError>),
}

/// How one awaited answer (`None`: the wait timed out) settles the opening
/// of `dlci`, if it does: UA on that DLCI opens it, DM on it rejects it;
/// events on other channels, DISC, and timeouts settle nothing.
pub open spec fn settle_of(dlci: u8, reply: Option<ControlEvt>) -> Option<Result<(), StartError>> {
    match reply {
        Some(ControlEvt::UaReceived(d)) => if d == dlci { Some(Ok(())) } else { None },
        Some(ControlEvt::DmReceived(d)) => if d == dlci {
            Some(Err(StartError::Rejected(dlci)))
        } else {
            None
        },
        _ => None,
    }
}

/// The opening of one DLC, from the first SABM to its outcome.
pub struct DlcOpener {
    dlci: u8,
    sent: u8,
}

impl DlcOpener {
    /// The channel being opened.
    pub closed spec fn spec_dlci(&self) -> u8 {
        self.dlci
    }

    /// SABMs sent so far.
    pub closed spec fn spec_sent(&self) -> u8 {
        self.sent
    }

    pub fn new(dlci: u8) -> (o: Self)
        ensures
            o.spec_dlci() == dlci,
            o.spec_sent() == 0,
    {
        Self { dlci, sent: 0 }
    }

    pub fn dlci(&self) -> (d: u8)
        ensures
            d == self.spec_dlci(),
    {
        self.dlci
    }

    /// The next step after an answer (or a timeout, `None`) to the last
    /// SABM, or at the start (with no SABM sent yet, `reply` is ignored
    /// unless it settles the channel). A settled channel is done; otherwise
    /// another SABM goes out while fewer than `SABM_RETRIES` have been sent,
    /// and after that the opening fails with a timeout.
    pub fn step(&mut self, reply: Option<ControlEvt>) -> (a: OpenAction)
        ensures
            final(self).spec_dlci() == old(self).spec_dlci(),
            old(self).spec_sent() <= SABM_RETRIES ==> final(self).spec_sent() <= SABM_RETRIES,
            settle_of(old(self).spec_dlci(), reply) matches Some(r) ==> a == OpenAction::Done(r)
                && final(self).spec_sent() == old(self).spec_sent(),
            settle_of(old(self).spec_dlci(), reply) is None && old(self).spec_sent() < SABM_RETRIES
                ==> a == OpenAction::SendSabm && final(self).spec_sent() == old(self).spec_sent() + 1,
            settle_of(old(self).spec_dlci(), reply) is None && old(self).spec_sent() >= SABM_RETRIES
                ==> a == OpenAction::Done(Err(StartError::SabmTimeout(old(self).spec_dlci())))
                && final(self).spec_sent() == old(self).spec_sent(),
    {
        match reply {
            Some(ControlEvt::UaReceived(d)) => {
                if d == self.dlci {
                    return OpenAction::Done(Ok(()));
                }
            },
            Some(ControlEvt::DmReceived(d)) => {
                if d == self.dlci {
                    return OpenAction::Done(Err(StartError::Rejected(self.dlci)));
                }
            },
            _ => {},
        }
        if self.sent < SABM_RETRIES {
            self.sent = self.sent + 1;
            OpenAction::SendSabm
        } else {
            OpenAction::Done(Err(StartError::SabmTimeout(self.dlci)))
        }
    }
}

} // verus!
