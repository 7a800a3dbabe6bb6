//! 3GPP TS 27.010 basic-mode multiplexer framing, with the small pieces of
//! modem bring-up logic that sit on top of it.
//!
//! The framing core parses and emits frames as byte buffers and holds no I/O.
//! Only the subset needed for SIM800L bring-up and PPP is implemented: basic
//! mode, single-byte length (MTU = 127), no advanced options, no convergence
//! layer, no software flow control negotiation.
pub mod address;
pub mod bringup;
pub mod buffered;
pub mod config;
pub mod control;
pub mod dispatcher;
pub mod fcs;
pub mod frame;
pub mod info_buf;
pub mod opener;
pub mod ip5306;
pub mod roundtrip;
pub mod script;
pub mod state;
pub mod status;
pub mod text;
pub mod tx;

pub use address::Address;
pub use control::{Control, FrameKind};
pub use frame::{DecodeError, EncodeError, Frame, FrameDecoder, FrameView};

use vstd::prelude::*;

verus! {

/// Frame delimiter ("flag"), value 0xF9.
pub const FLAG: u8 = 0xF9;

/// Maximum payload length in basic mode with a single-byte length field.
pub const MAX_INFO_LEN: usize = 127;

/// DLCI 0 carries the multiplexer control channel.
pub const DLCI_CONTROL: u8 = 0;

} // verus!
