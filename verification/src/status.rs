//! The periodic status poll on the AT channel: when the reply to a query
//! is complete.
use vstd::prelude::*;

use crate::text::{contains, has_prefix, has_substring, starts_with};

verus! {

/// State of the text received so far for one status query.
#[derive(Copy, Clone, Debug, PartialEq, Eq, Structural)]
pub enum PollVerdict {
    /// An `OK` line arrived: the query succeeded.
    Done,
    /// An `ERROR` line arrived: the query failed.
    Failed,
    /// Neither yet: keep reading.
    Pending,
}

/// `\nOK`
pub open spec fn text_nl_ok() -> Seq<u8> {
    seq![0x0A, 0x4F, 0x4B]
}

/// `\nERROR`
pub open spec fn text_nl_error() -> Seq<u8> {
    seq![0x0A, 0x45, 0x52, 0x52, 0x4F, 0x52]
}

/// The verdict on the text received so far: `OK` at its start or after a
/// line feed ends the query well; otherwise `ERROR` there ends it badly.
pub open spec fn poll_verdict_of(acc: Seq<u8>) -> PollVerdict {
    if has_substring(acc, text_nl_ok()) || has_prefix(acc, text_nl_ok().drop_first()) {
        PollVerdict::Done
    } else if has_substring(acc, text_nl_error()) || has_prefix(acc, text_nl_error().drop_first()) {
        PollVerdict::Failed
    } else {
        PollVerdict::Pending
    }
}

/// Judge the text accumulated for one status query.
pub fn poll_verdict(acc: &[u8]) -> (v: PollVerdict)
    ensures
        v == poll_verdict_of(acc@),
{
    let nl_ok: [u8; 3] = [0x0A, 0x4F, 0x4B];
    let ok: [u8; 2] = [0x4F, 0x4B];
    let nl_err: [u8; 6] = [0x0A, 0x45, 0x52, 0x52, 0x4F, 0x52];
    let err: [u8; 5] = [0x45, 0x52, 0x52, 0x4F, 0x52];
    assert(nl_ok@ =~= text_nl_ok());
    assert(ok@ =~= text_nl_ok().drop_first());
    assert(nl_err@ =~= text_nl_error());
    assert(err@ =~= text_nl_error().drop_first());
    if contains(acc, &nl_ok) || starts_with(acc, &ok) {
        PollVerdict::Done
    } else if contains(acc, &nl_err) || starts_with(acc, &err) {
        PollVerdict::Failed
    } else {
        PollVerdict::Pending
    }
}

} // verus!
