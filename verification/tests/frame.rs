use cmux_core::address::Role;
use cmux_core::control::FrameKind;
use cmux_core::frame::{encode, wire_len, DecodeError, EncodeError, Frame, FrameDecoder};
use cmux_core::FLAG;

fn round_trip(frame: Frame<'_>) -> (Vec<u8>, FrameKind, u8, Vec<u8>) {
    let mut buf = [0u8; 256];
    let n = encode(&frame, &mut buf).expect("encode");
    let wire = buf[..n].to_vec();

    let mut dec = FrameDecoder::new();
    let mut info = Vec::new();
    let mut kind = None;
    let mut dlci = 0;
    for &b in &wire {
        if let Some(f) = dec.feed(b).expect("feed") {
            kind = Some(f.kind());
            dlci = f.dlci();
            info.extend_from_slice(f.info);
        }
    }
    (wire, kind.expect("frame produced"), dlci, info)
}

#[test]
fn sabm_round_trip() {
    let f = Frame::sabm(0);
    let (_, kind, dlci, info) = round_trip(f);
    assert_eq!(kind, FrameKind::Sabm);
    assert_eq!(dlci, 0);
    assert!(info.is_empty());
}

#[test]
fn uih_round_trip_payload() {
    let payload: Vec<u8> = (0..120u8).collect();
    let f = Frame::uih(2, &payload);
    let (_, kind, dlci, info) = round_trip(f);
    assert_eq!(kind, FrameKind::Uih);
    assert_eq!(dlci, 2);
    assert_eq!(info.as_slice(), payload.as_slice());
}

#[test]
fn rejects_bad_fcs() {
    let mut buf = [0u8; 32];
    let n = encode(&Frame::sabm(0), &mut buf).unwrap();
    // Flip a bit in the FCS byte (second-to-last).
    buf[n - 2] ^= 0x01;

    let mut dec = FrameDecoder::new();
    let mut err = None;
    for &b in &buf[..n] {
        if let Err(e) = dec.feed(b) {
            err = Some(e);
            break;
        }
    }
    assert_eq!(err, Some(DecodeError::BadFcs));
}

#[test]
fn resyncs_after_garbage() {
    let mut buf = [0u8; 32];
    let n = encode(&Frame::sabm(0), &mut buf).unwrap();
    let mut dec = FrameDecoder::new();
    // Non-flag noise first: the decoder sits in Hunt, then syncs on the
    // leading flag and decodes the frame.
    let noise = [0xAA, 0x55, 0x00, 0xFF, 0x12];
    let mut produced = false;
    for &b in noise.iter().chain(&buf[..n]) {
        if dec.feed(b).expect("feed").is_some() {
            produced = true;
        }
    }
    assert!(produced);
}

#[test]
fn back_to_back_frames_share_flag() {
    // Two frames, the second starting at the first's closing flag.
    let mut buf = [0u8; 64];
    let n1 = encode(&Frame::sabm(1), &mut buf).unwrap();
    let n2 = encode(&Frame::sabm(2), &mut buf[n1 - 1..]).unwrap();
    let total = n1 - 1 + n2;

    let mut dec = FrameDecoder::new();
    let mut count = 0;
    let mut last_dlci = 0;
    for &b in &buf[..total] {
        if let Some(f) = dec.feed(b).expect("feed") {
            count += 1;
            last_dlci = f.dlci();
        }
    }
    assert_eq!(count, 2);
    assert_eq!(last_dlci, 2);
}

#[test]
fn rejects_two_byte_length() {
    // flag, addr=0x03, ctrl=UIH, len byte EA=0 (=0x02), ...
    let bytes = [FLAG, 0x03, 0xEF, 0x02, 0x00, 0x00, FLAG];
    let mut dec = FrameDecoder::new();
    let mut err = None;
    for &b in &bytes {
        if let Err(e) = dec.feed(b) {
            err = Some(e);
            break;
        }
    }
    assert_eq!(err, Some(DecodeError::TwoByteLengthUnsupported));
}

/// Small deterministic generator for the randomised tests below.
struct XorShift(u64);

impl XorShift {
    fn next(&mut self) -> u64 {
        let mut x = self.0;
        x ^= x << 13;
        x ^= x >> 7;
        x ^= x << 17;
        self.0 = x;
        x
    }
    fn byte(&mut self) -> u8 {
        (self.next() >> 24) as u8
    }
}

#[test]
fn proptest_uih_round_trip() {
    let mut rng = XorShift(0x9E37_79B9_7F4A_7C15);
    for case in 0..1024u32 {
        let dlci = (rng.next() % 64) as u8;
        let len = (rng.next() % 128) as usize;
        let payload: Vec<u8> = (0..len).map(|_| rng.byte()).collect();
        let frame = Frame::uih(dlci, &payload);
        let mut buf = [0u8; 256];
        let n = encode(&frame, &mut buf).unwrap();
        let mut dec = FrameDecoder::new();
        let mut got = None;
        for &b in &buf[..n] {
            if let Some(f) = dec.feed(b).unwrap() {
                got = Some((f.dlci(), f.kind(), f.info.to_vec()));
            }
        }
        let (got_dlci, got_kind, got_info) = got.unwrap();
        assert_eq!(got_dlci, dlci, "case {case}");
        assert_eq!(got_kind, FrameKind::Uih);
        assert_eq!(got_info, payload);
    }
}

#[test]
fn proptest_handshake_round_trip() {
    let kinds = [FrameKind::Sabm, FrameKind::Ua, FrameKind::Dm, FrameKind::Disc, FrameKind::Uih];
    for dlci in 0..64u8 {
        for kind in kinds {
            for pf in [false, true] {
                let frame = Frame { dlci, role: Role::Command, kind, pf, info: &[] };
                let mut buf = [0u8; 16];
                let n = encode(&frame, &mut buf).unwrap();
                let mut dec = FrameDecoder::new();
                let mut got = None;
                for &b in &buf[..n] {
                    if let Some(f) = dec.feed(b).unwrap() {
                        got = Some((f.dlci(), f.kind(), f.control.pf, f.info.len()));
                    }
                }
                assert_eq!(got, Some((dlci, kind, pf, 0)));
            }
        }
    }
}

#[test]
fn proptest_random_garbage_never_panics() {
    let mut rng = XorShift(0x0123_4567_89AB_CDEF);
    for _ in 0..256 {
        let len = (rng.next() % 1024) as usize;
        let mut dec = FrameDecoder::new();
        for _ in 0..len {
            let _ = dec.feed(rng.byte());
        }
    }
}

#[test]
fn encode_errors_and_layout() {
    let big = [0u8; 128];
    let mut out = [0u8; 256];
    assert_eq!(encode(&Frame::uih(1, &big), &mut out), Err(EncodeError::InfoTooLong));
    let mut small = [0xAAu8; 6];
    assert_eq!(encode(&Frame::uih(1, &[1]), &mut small), Err(EncodeError::OutputTooSmall));
    assert_eq!(small, [0xAA; 6]);

    let mut out = [0x55u8; 10];
    let n = encode(&Frame::uih(2, &[0x41, 0x54]), &mut out).unwrap();
    assert_eq!(n, wire_len(2));
    assert_eq!(n, 8);
    assert_eq!(&out[..4], &[FLAG, 0x0B, 0xEF, 0x05]);
    assert_eq!(&out[4..6], &[0x41, 0x54]);
    assert_eq!(out[7], FLAG);
    assert_eq!(&out[8..], &[0x55, 0x55]);
    assert_eq!(Frame::disc(3).kind, FrameKind::Disc);
    assert!(Frame::disc(3).pf);
}

#[test]
fn decoder_errors_reset_to_hunt() {
    let mut dec = FrameDecoder::default();
    assert_eq!(dec.feed(FLAG).unwrap().is_none(), true);
    assert_eq!(dec.feed(0x02).err(), Some(DecodeError::BadAddress));
    // hunting again: a non-flag byte is ignored silently
    assert!(dec.feed(0x03).unwrap().is_none());
    assert!(dec.feed(FLAG).unwrap().is_none());
    assert!(dec.feed(0x03).unwrap().is_none());
    assert_eq!(dec.feed(0x00).err(), Some(DecodeError::BadControl));

    let mut buf = [0u8; 16];
    let n = encode(&Frame::sabm(0), &mut buf).unwrap();
    buf[n - 1] = 0x00;
    let mut dec = FrameDecoder::new();
    let mut err = None;
    for &b in &buf[..n] {
        if let Err(e) = dec.feed(b) {
            err = Some(e);
        }
    }
    assert_eq!(err, Some(DecodeError::MissingEndFlag));
}

#[test]
fn dlci62_response_address_reads_as_fill() {
    // The address octet of DLCI 62 sent as a response equals the flag, so
    // right after an opening flag it is taken for inter-frame fill.
    let frame = Frame { dlci: 62, role: Role::Response, kind: FrameKind::Ua, pf: true, info: &[] };
    let mut buf = [0u8; 16];
    let n = encode(&frame, &mut buf).unwrap();
    assert_eq!(buf[1], FLAG);
    let mut dec = FrameDecoder::new();
    let mut decoded = false;
    for &b in &buf[..n] {
        if let Ok(Some(_)) = dec.feed(b) {
            decoded = true;
        }
    }
    assert!(!decoded);
}

#[test]
fn decoder_clears_payload_between_frames() {
    let mut buf = [0u8; 64];
    let n1 = encode(&Frame::uih(1, &[1, 2, 3]), &mut buf).unwrap();
    let n2 = encode(&Frame::uih(1, &[9]), &mut buf[n1..]).unwrap();
    let mut dec = FrameDecoder::new();
    let mut frames = Vec::new();
    for &b in &buf[..n1 + n2] {
        if let Some(f) = dec.feed(b).unwrap() {
            frames.push(f.info.to_vec());
        }
    }
    assert_eq!(frames, vec![vec![1, 2, 3], vec![9]]);
}
