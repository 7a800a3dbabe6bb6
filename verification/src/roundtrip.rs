//! What the decoder makes of a byte stream, and the laws tying it to the
//! encoder.
use vstd::prelude::*;

use crate::address::{address_octet, lemma_address_round_trip, Address, Role};
use crate::control::{lemma_ctrl_round_trip, Control};
use crate::frame::{
    DecodeError, frame_header, frame_wf, frame_wire, model_header, step, DecoderModel, FeedOutcome, Frame,
    FrameModel, State,
};
use crate::fcs::fcs_of;
use crate::{FLAG, MAX_INFO_LEN};

verus! {

/// Feed a whole byte sequence: the final decoder and the outcome of every byte.
pub open spec fn feed_all(m: DecoderModel, bytes: Seq<u8>) -> (DecoderModel, Seq<FeedOutcome>)
    decreases bytes.len(),
{
    if bytes.len() == 0 {
        (m, Seq::empty())
    } else {
        let (m1, o) = step(m, bytes[0]);
        let (m2, os) = feed_all(m1, bytes.drop_first());
        (m2, seq![o] + os)
    }
}

/// Every outcome is `Pending`.
pub open spec fn all_pending(outs: Seq<FeedOutcome>) -> bool {
    forall|i: int| 0 <= i < outs.len() ==> #[trigger] outs[i] is Pending
}

/// The frame the decoder should report for an encoded frame.
pub open spec fn frame_model(f: Frame) -> FrameModel {
    FrameModel {
        address: Address { dlci: f.dlci, cr: f.role == Role::Command, ea: true },
        control: Control { kind: f.kind, pf: f.pf },
        info: f.info@,
    }
}

/// The outcomes of a stream that decodes to exactly one frame at its last byte.
pub open spec fn decodes_once(outs: Seq<FeedOutcome>, fm: FrameModel) -> bool {
    &&& outs.len() > 0
    &&& all_pending(outs.drop_last())
    &&& outs.last() == FeedOutcome::Decoded(fm)
}

/// A frame whose wire image the decoder reads back. Its address octet
/// must differ from the flag: the address of DLCI 62 sent as a response
/// is 0xF9 and would be read as inter-frame fill.
pub open spec fn frame_decodable(f: Frame) -> bool {
    &&& frame_wf(f)
    &&& address_octet(Address { dlci: f.dlci, cr: f.role == Role::Command, ea: true }) != FLAG
}

proof fn lemma_feed_all_concat(m: DecoderModel, a: Seq<u8>, b: Seq<u8>)
    ensures
        feed_all(m, a + b) == (
            feed_all(feed_all(m, a).0, b).0,
            feed_all(m, a).1 + feed_all(feed_all(m, a).0, b).1,
        ),
    decreases a.len(),
{
    if a.len() == 0 {
        assert(a + b =~= b);
        assert(feed_all(m, a).1 + feed_all(m, b).1 =~= feed_all(m, b).1);
    } else {
        let m1 = step(m, a[0]).0;
        assert((a + b).drop_first() =~= a.drop_first() + b);
        assert((a + b)[0] == a[0]);
        lemma_feed_all_concat(m1, a.drop_first(), b);
        let x = feed_all(m1, a.drop_first());
        let y = feed_all(x.0, b);
        assert(seq![step(m, a[0]).1] + (x.1 + y.1) =~= (seq![step(m, a[0]).1] + x.1) + y.1);
    }
}

proof fn lemma_feed_all_one(m: DecoderModel, b: u8)
    ensures
        feed_all(m, seq![b]) == (step(m, b).0, seq![step(m, b).1]),
{
    let s = seq![b];
    let e = Seq::<u8>::empty();
    assert(s.drop_first() =~= e);
    assert(s[0] == b);
    let m1 = step(m, b).0;
    assert(feed_all(m1, e) == (m1, Seq::<FeedOutcome>::empty()));
    assert(seq![step(m, b).1] + Seq::<FeedOutcome>::empty() =~= seq![step(m, b).1]);
}

/// Feeding payload bytes in the Info state fills the payload and reaches
/// the FCS state once `info_len` bytes are in.
proof fn lemma_feed_info(m: DecoderModel, q: Seq<u8>)
    requires
        (m.state is Info),
        m.info_len <= MAX_INFO_LEN,
        m.info.len() < m.info_len,
        m.info.len() + q.len() == m.info_len,
    ensures
        feed_all(m, q).0 == (DecoderModel { state: State::Fcs, info: m.info + q, ..m }),
        feed_all(m, q).1.len() == q.len(),
        all_pending(feed_all(m, q).1),
    decreases q.len(),
{
    let m1 = step(m, q[0]).0;
    assert(m.info.len() < MAX_INFO_LEN);
    assert(m1.info == m.info.push(q[0]));
    if q.len() == 1 {
        assert(q.drop_first() =~= Seq::<u8>::empty());
        assert(feed_all(m1, q.drop_first()) == (m1, Seq::<FeedOutcome>::empty()));
        assert(m.info.push(q[0]) =~= m.info + q);
        assert(feed_all(m, q).1 =~= seq![FeedOutcome::Pending]);
    } else {
        lemma_feed_info(m1, q.drop_first());
        assert(m.info.push(q[0]) + q.drop_first() =~= m.info + q);
        let os = feed_all(m1, q.drop_first()).1;
        assert(feed_all(m, q).1 =~= seq![FeedOutcome::Pending] + os);
        assert forall|i: int| 0 <= i < feed_all(m, q).1.len() implies #[trigger] feed_all(m, q).1[i] is Pending by {
            if i > 0 {
                assert(feed_all(m, q).1[i] == os[i - 1]);
            }
        }
    }
}

/// From the state right after a flag, the rest of a frame's wire image
/// decodes to that frame and leaves the decoder ready for the next one.
proof fn lemma_feed_body(m: DecoderModel, f: Frame)
    requires
        (m.state is Addr),
        frame_decodable(f),
    ensures
        decodes_once(feed_all(m, frame_wire(f).drop_first()).1, frame_model(f)),
        feed_all(m, frame_wire(f).drop_first()).1.len() == frame_wire(f).len() - 1,
        (feed_all(m, frame_wire(f).drop_first()).0.state is Addr),
{
    let a = Address { dlci: f.dlci, cr: f.role == Role::Command, ea: true };
    lemma_address_round_trip(a);
    lemma_ctrl_round_trip(f.kind, f.pf);
    let h = frame_header(f);
    let n = f.info@.len();
    let ab = h[0];
    let cb = h[1];
    let lb = h[2];
    assert(lb as int == n * 2 + 1);
    assert(lb % 2 == 1);
    assert(lb / 2 == n);
    let tail = seq![fcs_of(h), FLAG];
    let body = frame_wire(f).drop_first();
    assert(body =~= seq![ab] + (seq![cb] + (seq![lb] + (f.info@ + tail))));

    // address, control, length octets
    let m1 = step(m, ab).0;
    assert(m1 == DecoderModel { state: State::Ctrl, addr: ab, ..m });
    let m2 = step(m1, cb).0;
    assert(m2 == DecoderModel { state: State::Len, ctrl: cb, ..m1 });
    let m3 = step(m2, lb).0;
    lemma_feed_all_one(m, ab);
    lemma_feed_all_one(m1, cb);
    lemma_feed_all_one(m2, lb);
    lemma_feed_all_concat(m, seq![ab], seq![cb] + (seq![lb] + (f.info@ + tail)));
    lemma_feed_all_concat(m1, seq![cb], seq![lb] + (f.info@ + tail));
    lemma_feed_all_concat(m2, seq![lb], f.info@ + tail);
    lemma_feed_all_concat(m3, f.info@, tail);

    // payload
    let m4 = feed_all(m3, f.info@).0;
    if n == 0 {
        assert(f.info@ =~= Seq::<u8>::empty());
        assert(m4 == m3);
        assert(m3.info =~= f.info@);
    } else {
        lemma_feed_info(m3, f.info@);
        assert(m3.info + f.info@ =~= f.info@);
    }
    assert(m4.state is Fcs);
    assert(m4.info == f.info@);
    assert(model_header(m4) =~= h);

    // FCS and closing flag
    let m5 = step(m4, fcs_of(h)).0;
    assert(m5.state is End);
    let m6 = step(m5, FLAG).0;
    lemma_feed_all_one(m4, fcs_of(h));
    lemma_feed_all_one(m5, FLAG);
    lemma_feed_all_concat(m4, seq![fcs_of(h)], seq![FLAG]);
    assert(tail =~= seq![fcs_of(h)] + seq![FLAG]);

    let outs = feed_all(m, body).1;
    let info_outs = feed_all(m3, f.info@).1;
    assert(info_outs.len() == n);
    assert(outs =~= seq![FeedOutcome::Pending, FeedOutcome::Pending, FeedOutcome::Pending] + info_outs
        + seq![FeedOutcome::Pending, FeedOutcome::Decoded(frame_model(f))]);
    assert forall|i: int| 0 <= i < outs.drop_last().len() implies #[trigger] outs.drop_last()[i] is Pending by {
        if 3 <= i < 3 + n {
            assert(outs[i] == info_outs[i - 3]);
        }
    }
}

/// Round trip: the wire image of a frame, fed to a decoder that is hunting
/// for a flag or sits right after one, decodes to exactly that frame at its
/// closing flag, with nothing reported before, and leaves the decoder ready
/// for the next frame.
pub proof fn lemma_round_trip(m: DecoderModel, f: Frame)
    requires
        (m.state is Hunt || m.state is Addr),
        frame_decodable(f),
    ensures
        feed_all(m, frame_wire(f)).1.len() == frame_wire(f).len(),
        decodes_once(feed_all(m, frame_wire(f)).1, frame_model(f)),
        (feed_all(m, frame_wire(f)).0.state is Addr),
{
    let w = frame_wire(f);
    let m1 = step(m, FLAG).0;
    assert(m1.state is Addr);
    assert(w =~= seq![FLAG] + w.drop_first());
    lemma_feed_all_one(m, FLAG);
    lemma_feed_all_concat(m, seq![FLAG], w.drop_first());
    lemma_feed_body(m1, f);
    let rest = feed_all(m1, w.drop_first()).1;
    let outs = feed_all(m, w).1;
    assert(outs =~= seq![FeedOutcome::Pending] + rest);
    assert(outs.drop_last() =~= seq![FeedOutcome::Pending] + rest.drop_last());
    assert forall|i: int| 0 <= i < outs.drop_last().len() implies #[trigger] outs.drop_last()[i] is Pending by {
        if i > 0 {
            assert(outs.drop_last()[i] == rest.drop_last()[i - 1]);
        }
    }
}

/// Back-to-back frames may share one flag: the closing flag of the first
/// frame opens the second, and both decode in order.
pub proof fn lemma_shared_flag(m: DecoderModel, f1: Frame, f2: Frame)
    requires
        (m.state is Hunt || m.state is Addr),
        frame_decodable(f1),
        frame_decodable(f2),
    ensures
        ({
            let s1 = frame_wire(f1);
            let (m2, outs) = feed_all(m, s1 + frame_wire(f2).drop_first());
            &&& m2.state is Addr
            &&& decodes_once(outs.take(s1.len() as int), frame_model(f1))
            &&& decodes_once(outs.skip(s1.len() as int), frame_model(f2))
        }),
{
    let s1 = frame_wire(f1);
    let s2 = frame_wire(f2).drop_first();
    lemma_round_trip(m, f1);
    let x = feed_all(m, s1);
    lemma_feed_body(x.0, f2);
    lemma_feed_all_concat(m, s1, s2);
    let outs = feed_all(m, s1 + s2).1;
    assert(outs.take(s1.len() as int) =~= x.1);
    assert(outs.skip(s1.len() as int) =~= feed_all(x.0, s2).1);
}

/// Resynchronisation: while hunting, bytes other than the flag are
/// consumed silently, so a frame preceded by such noise still decodes.
pub proof fn lemma_resync(m: DecoderModel, noise: Seq<u8>, f: Frame)
    requires
        (m.state is Hunt),
        forall|i: int| 0 <= i < noise.len() ==> #[trigger] noise[i] != FLAG,
        frame_decodable(f),
    ensures
        ({
            let (m2, outs) = feed_all(m, noise + frame_wire(f));
            &&& m2.state is Addr
            &&& all_pending(outs.take(noise.len() as int))
            &&& decodes_once(outs.skip(noise.len() as int), frame_model(f))
        }),
{
    lemma_hunt_noise(m, noise);
    lemma_feed_all_concat(m, noise, frame_wire(f));
    lemma_round_trip(m, f);
    let outs = feed_all(m, noise + frame_wire(f)).1;
    assert(outs.take(noise.len() as int) =~= feed_all(m, noise).1);
    assert(outs.skip(noise.len() as int) =~= feed_all(m, frame_wire(f)).1);
}

proof fn lemma_hunt_noise(m: DecoderModel, noise: Seq<u8>)
    requires
        (m.state is Hunt),
        forall|i: int| 0 <= i < noise.len() ==> #[trigger] noise[i] != FLAG,
    ensures
        feed_all(m, noise).0 == m,
        feed_all(m, noise).1.len() == noise.len(),
        all_pending(feed_all(m, noise).1),
    decreases noise.len(),
{
    if noise.len() > 0 {
        assert(noise[0] != FLAG);
        let rest = noise.drop_first();
        assert forall|i: int| 0 <= i < rest.len() implies #[trigger] rest[i] != FLAG by {
            assert(rest[i] == noise[i + 1]);
        }
        lemma_hunt_noise(m, rest);
        let os = feed_all(m, rest).1;
        assert forall|i: int| 0 <= i < feed_all(m, noise).1.len() implies #[trigger] feed_all(m, noise).1[i] is Pending by {
            if i > 0 {
                assert(feed_all(m, noise).1[i] == os[i - 1]);
            }
        }
    }
}

/// After a framing error the decoder hunts for the next flag, so the next
/// well-formed frame on the wire decodes.
pub proof fn lemma_error_then_frame(m: DecoderModel, b: u8, f: Frame)
    requires
        (step(m, b).1 is Failed),
        frame_decodable(f),
    ensures
        ({
            let m1 = step(m, b).0;
            let (m2, outs) = feed_all(m1, frame_wire(f));
            &&& m1.state is Hunt
            &&& m2.state is Addr
            &&& decodes_once(outs, frame_model(f))
        }),
{
    lemma_round_trip(step(m, b).0, f);
}

/// Inter-frame fill: any run of flags, fed to a decoder that is hunting or
/// sits after a flag, is consumed silently and leaves it right after a flag.
pub proof fn lemma_fill_flags(m: DecoderModel, n: nat)
    requires
        (m.state is Hunt || m.state is Addr),
        n >= 1,
    ensures
        feed_all(m, Seq::new(n, |_i: int| FLAG)).0 == (DecoderModel { state: State::Addr, ..m }),
        feed_all(m, Seq::new(n, |_i: int| FLAG)).1.len() == n,
        all_pending(feed_all(m, Seq::new(n, |_i: int| FLAG)).1),
    decreases n,
{
    let s = Seq::new(n, |_i: int| FLAG);
    let m1 = step(m, FLAG).0;
    assert(m1 == (DecoderModel { state: State::Addr, ..m }));
    assert(s[0] == FLAG);
    if n == 1 {
        assert(s.drop_first() =~= Seq::<u8>::empty());
        assert(feed_all(m1, s.drop_first()) == (m1, Seq::<FeedOutcome>::empty()));
        assert(feed_all(m, s).1 =~= seq![FeedOutcome::Pending]);
    } else {
        assert(s.drop_first() =~= Seq::new((n - 1) as nat, |_i: int| FLAG));
        lemma_fill_flags(m1, (n - 1) as nat);
        let os = feed_all(m1, s.drop_first()).1;
        assert(feed_all(m, s).1 =~= seq![FeedOutcome::Pending] + os);
        assert forall|i: int| 0 <= i < feed_all(m, s).1.len() implies #[trigger] feed_all(m, s).1[i] is Pending by {
            if i > 0 {
                assert(feed_all(m, s).1[i] == os[i - 1]);
            }
        }
    }
}

/// A received FCS byte that is not the FCS of the frame's header is
/// rejected, whatever the frame kind: the decoder reports `BadFcs` and
/// goes back to hunting with an empty payload.
pub proof fn lemma_bad_fcs_rejected(m: DecoderModel, b: u8)
    requires
        (m.state is Fcs),
        b != fcs_of(seq![m.addr, m.ctrl, m.len_byte]),
    ensures
        step(m, b).1 == FeedOutcome::Failed(DecodeError::BadFcs),
        (step(m, b).0.state is Hunt),
        step(m, b).0.info.len() == 0,
{
    assert(model_header(m) =~= seq![m.addr, m.ctrl, m.len_byte]);
}

/// From the state right after a flag, the header and payload of a frame
/// bring the decoder to the FCS state with that header, silently.
proof fn lemma_feed_to_fcs(m: DecoderModel, f: Frame)
    requires
        (m.state is Addr),
        frame_decodable(f),
    ensures
        (feed_all(m, frame_header(f) + f.info@).0.state is Fcs),
        model_header(feed_all(m, frame_header(f) + f.info@).0) == frame_header(f),
        feed_all(m, frame_header(f) + f.info@).1.len() == 3 + f.info@.len(),
        all_pending(feed_all(m, frame_header(f) + f.info@).1),
{
    let a = Address { dlci: f.dlci, cr: f.role == Role::Command, ea: true };
    lemma_address_round_trip(a);
    lemma_ctrl_round_trip(f.kind, f.pf);
    let h = frame_header(f);
    let n = f.info@.len();
    let ab = h[0];
    let cb = h[1];
    let lb = h[2];
    assert(lb as int == n * 2 + 1);
    assert(lb / 2 == n);
    let s = h + f.info@;
    assert(s =~= seq![ab] + (seq![cb] + (seq![lb] + f.info@)));
    let m1 = step(m, ab).0;
    let m2 = step(m1, cb).0;
    let m3 = step(m2, lb).0;
    lemma_feed_all_one(m, ab);
    lemma_feed_all_one(m1, cb);
    lemma_feed_all_one(m2, lb);
    lemma_feed_all_concat(m, seq![ab], seq![cb] + (seq![lb] + f.info@));
    lemma_feed_all_concat(m1, seq![cb], seq![lb] + f.info@);
    lemma_feed_all_concat(m2, seq![lb], f.info@);
    let m4 = feed_all(m3, f.info@).0;
    if n == 0 {
        assert(f.info@ =~= Seq::<u8>::empty());
        assert(feed_all(m3, f.info@) == (m3, Seq::<FeedOutcome>::empty()));
    } else {
        lemma_feed_info(m3, f.info@);
    }
    assert(m4.state is Fcs);
    assert(model_header(m4) =~= h);
    let info_outs = feed_all(m3, f.info@).1;
    let outs = feed_all(m, s).1;
    assert(outs =~= seq![FeedOutcome::Pending, FeedOutcome::Pending, FeedOutcome::Pending] + info_outs);
    assert forall|i: int| 0 <= i < outs.len() implies #[trigger] outs[i] is Pending by {
        if i >= 3 {
            assert(outs[i] == info_outs[i - 3]);
        }
    }
}

/// The wire image of a frame whose FCS byte was replaced by any other
/// value never decodes to a frame: the decoder reports `BadFcs` at that
/// byte, and at the closing flag it is merely back after a flag.
pub proof fn lemma_corrupted_fcs_never_decodes(m: DecoderModel, f: Frame, x: u8)
    requires
        (m.state is Hunt || m.state is Addr),
        frame_decodable(f),
        x != fcs_of(frame_header(f)),
    ensures
        ({
            let w = frame_wire(f).update(frame_wire(f).len() - 2, x);
            let (m2, outs) = feed_all(m, w);
            &&& outs.len() == w.len()
            &&& forall|i: int| 0 <= i < outs.len() ==> !(#[trigger] outs[i] is Decoded)
            &&& outs[w.len() - 2] == FeedOutcome::Failed(DecodeError::BadFcs)
            &&& (m2.state is Addr)
        }),
{
    let h = frame_header(f);
    let n = f.info@.len();
    let w = frame_wire(f).update(frame_wire(f).len() - 2, x);
    let mid = h + f.info@;
    assert(w =~= seq![FLAG] + (mid + (seq![x] + seq![FLAG])));
    let m1 = step(m, FLAG).0;
    assert(m1.state is Addr);
    lemma_feed_all_one(m, FLAG);
    lemma_feed_all_concat(m, seq![FLAG], mid + (seq![x] + seq![FLAG]));
    lemma_feed_to_fcs(m1, f);
    lemma_feed_all_concat(m1, mid, seq![x] + seq![FLAG]);
    let m4 = feed_all(m1, mid).0;
    lemma_bad_fcs_rejected(m4, x);
    assert(seq![m4.addr, m4.ctrl, m4.len_byte] =~= model_header(m4));
    let m5 = step(m4, x).0;
    lemma_feed_all_one(m4, x);
    lemma_feed_all_one(m5, FLAG);
    lemma_feed_all_concat(m4, seq![x], seq![FLAG]);
    let mid_outs = feed_all(m1, mid).1;
    let outs = feed_all(m, w).1;
    assert(outs =~= seq![FeedOutcome::Pending] + mid_outs + seq![
        FeedOutcome::Failed(DecodeError::BadFcs),
        FeedOutcome::Pending,
    ]);
    assert forall|i: int| 0 <= i < outs.len() implies !(#[trigger] outs[i] is Decoded) by {
        if 1 <= i < 1 + mid_outs.len() {
            assert(outs[i] == mid_outs[i - 1]);
        }
    }
}

} // verus!
