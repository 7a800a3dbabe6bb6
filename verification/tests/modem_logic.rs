use cmux_core::buffered::ReadBuffer;
use cmux_core::bringup::{
    cmd_reply, cops_reply, csq_reply, is_registered, locate_line, ppp_reply, reg_reply,
    response_line, strip_cr, CopsStep, CsqStep, Error, LineSearch, RegStep, ResponseLine,
};
use cmux_core::config::mqtt_port;
use cmux_core::control::FrameKind;
use cmux_core::dispatcher::{route, ControlEvt, Route};
use cmux_core::frame::{encode, FrameDecoder};
use cmux_core::opener::{DlcOpener, OpenAction, StartError};
use cmux_core::ip5306;
use cmux_core::status::{poll_verdict, PollVerdict};
use cmux_core::text::{
    contains, count_commas, find_byte, parse_unsigned_bytes, starts_with, trim_bytes,
};
use cmux_core::tx::{chunk_end, data_request, request_frame, TxReq};

#[test]
fn mqtt_port_parses_or_falls_back() {
    assert_eq!(mqtt_port("1883"), 1883);
    assert_eq!(mqtt_port("+8884"), 8884);
    assert_eq!(mqtt_port("00443"), 443);
    assert_eq!(mqtt_port("65535"), 65535);
    assert_eq!(mqtt_port("65536"), 8883);
    assert_eq!(mqtt_port(""), 8883);
    assert_eq!(mqtt_port("+"), 8883);
    assert_eq!(mqtt_port("-1"), 8883);
    assert_eq!(mqtt_port(" 80"), 8883);
    assert_eq!(mqtt_port("8o"), 8883);
    for s in ["0", "1", "80", "443", "8883", "99999", "+7", "12a", "", "-0"] {
        assert_eq!(mqtt_port(s), s.parse::<u16>().unwrap_or(8883), "{s:?}");
    }
}

#[test]
fn parse_unsigned_matches_std_for_u8() {
    for s in ["0", "255", "256", "+12", "007", "", "+", "1 ", "x", "999"] {
        let ours = parse_unsigned_bytes(s.as_bytes(), 255).map(|v| v as u8);
        assert_eq!(ours, s.parse::<u8>().ok(), "{s:?}");
    }
}

#[test]
fn trim_matches_std() {
    for s in ["  OK\r", "\tERROR ", "OK", "", "   ", "\u{a0}OK\u{3000}", "\u{2009}x y\u{85}", "\x0bA\x0c"] {
        assert_eq!(trim_bytes(s.as_bytes()), s.trim().as_bytes(), "{s:?}");
    }
}

#[test]
fn text_helpers() {
    assert!(starts_with(b"+CREG: 0,1", b"+CREG:"));
    assert!(!starts_with(b"+CRE", b"+CREG:"));
    assert!(contains(b"+CPIN: READY", b"READY"));
    assert!(contains(b"abc", b""));
    assert!(!contains(b"+CPIN: SIM PIN", b"READY"));
    assert_eq!(find_byte(b"ab\ncd\n", b'\n'), Some(2));
    assert_eq!(find_byte(b"abcd", b'\n'), None);
    assert_eq!(count_commas(b"2,1,\"1A2B\",\"3C4D\""), 3);
}

#[test]
fn command_replies() {
    assert!(matches!(cmd_reply(b"OK\r"), Some(Ok(()))));
    assert!(matches!(cmd_reply(b" ERROR"), Some(Err(Error::Cmd("ERROR")))));
    assert!(matches!(cmd_reply(b"+CME ERROR: 10"), Some(Err(Error::Cmd("+CME ERROR")))));
    assert!(cmd_reply(b"").is_none());
    assert!(cmd_reply(b"AT+CMEE=2").is_none());
    assert!(cmd_reply(b"OKAY").is_none());
    assert!(cmd_reply(b"ERROR 1").is_none());
}

#[test]
fn ppp_replies() {
    assert!(matches!(ppp_reply(b"CONNECT 115200\r"), Some(Ok(()))));
    assert!(matches!(ppp_reply(b"ERROR"), Some(Err(Error::Cmd("CGDATA")))));
    assert!(matches!(ppp_reply(b"+CME ERROR: 148"), Some(Err(Error::Cmd("CGDATA")))));
    assert!(ppp_reply(b"  ").is_none());
    assert!(ppp_reply(b"OK").is_none());
}

#[test]
fn response_lines() {
    assert_eq!(response_line(b"OK", b"+CPIN: READY"), ResponseLine::Finished);
    assert_eq!(response_line(b"+CPIN: READY\r", b"+CPIN: READY"), ResponseLine::Found);
    assert_eq!(response_line(b"+CPIN: SIM PIN", b"+CPIN: READY"), ResponseLine::Other);
}

#[test]
fn registration_lines() {
    assert!(matches!(reg_reply(b"+CREG: 2,1,\"1A2B\",\"3C4D\"", b"+CREG:", None), RegStep::Next(Some(1))));
    assert!(matches!(reg_reply(b"+CREG: 5", b"+CREG:", None), RegStep::Next(Some(5))));
    assert!(matches!(reg_reply(b"+CGREG: 0, x", b"+CGREG:", Some(1)), RegStep::Next(None)));
    assert!(matches!(reg_reply(b"RDY", b"+CREG:", Some(3)), RegStep::Next(Some(3))));
    assert!(matches!(reg_reply(b"OK", b"+CREG:", Some(3)), RegStep::Done(Ok(3))));
    assert!(matches!(reg_reply(b"OK", b"+CREG:", None), RegStep::Done(Err(Error::Cmd("no reg line")))));
    assert!(matches!(reg_reply(b"ERROR", b"+CREG:", Some(1)), RegStep::Done(Err(Error::Cmd("reg ERROR")))));
    assert!(is_registered(1, 0));
    assert!(is_registered(255, 5));
    assert!(!is_registered(2, 3));
}

#[test]
fn signal_quality_lines() {
    assert!(matches!(csq_reply(b"+CSQ: 17,0", None), CsqStep::Next(Some((17, 0)))));
    assert!(matches!(csq_reply(b"+CSQ: 99", Some((1, 2))), CsqStep::Next(Some((1, 2)))));
    assert!(matches!(csq_reply(b"+CSQ: 300,0", Some((1, 2))), CsqStep::Next(Some((1, 2)))));
    assert!(matches!(csq_reply(b"OK", Some((17, 0))), CsqStep::Done(Ok((17, 0)))));
    assert!(matches!(csq_reply(b"OK", None), CsqStep::Done(Err(Error::Cmd("no CSQ line")))));
    assert!(matches!(csq_reply(b"ERROR", None), CsqStep::Next(None)));
}

#[test]
fn operator_lines() {
    match cops_reply(b"+COPS: 0,0,\"LV TELE2\"") {
        CopsStep::Name(n) => assert_eq!(n, b"LV TELE2"),
        other => panic!("unexpected {other:?}"),
    }
    assert!(matches!(cops_reply(b"+COPS: 0"), CopsStep::Next));
    assert!(matches!(cops_reply(b"OK"), CopsStep::Done));
}

#[test]
fn line_splitting() {
    let buf = *b"OK\r\nRDY\n\0\0";
    assert_eq!(locate_line(&buf, 8), LineSearch::Line(3));
    assert_eq!(strip_cr(&buf[..3]), b"OK");
    assert_eq!(strip_cr(b"RDY"), b"RDY");
    assert_eq!(locate_line(&buf, 2), LineSearch::More);
    let full = *b"ABCD";
    assert_eq!(locate_line(&full, 4), LineSearch::Full);
}

#[test]
fn status_poll_verdicts() {
    assert_eq!(poll_verdict(b"\r\n+CSQ: 17,0\r\n\r\nOK\r\n"), PollVerdict::Done);
    assert_eq!(poll_verdict(b"OK"), PollVerdict::Done);
    assert_eq!(poll_verdict(b"\r\nERROR\r\n"), PollVerdict::Failed);
    assert_eq!(poll_verdict(b"\r\n+CSQ: 17"), PollVerdict::Pending);
}

#[test]
fn dispatcher_routes() {
    assert_eq!(route(1, FrameKind::Uih), Route::Dlc1Data);
    assert_eq!(route(2, FrameKind::Uih), Route::Dlc2Data);
    assert_eq!(route(0, FrameKind::Uih), Route::ControlData);
    assert_eq!(route(7, FrameKind::Uih), Route::Unconfigured);
    assert_eq!(route(2, FrameKind::Ua), Route::Event(ControlEvt::UaReceived(2)));
    assert_eq!(route(1, FrameKind::Dm), Route::Event(ControlEvt::DmReceived(1)));
    assert_eq!(route(0, FrameKind::Disc), Route::Event(ControlEvt::DiscReceived(0)));
    assert_eq!(route(3, FrameKind::Sabm), Route::UnexpectedSabm);
}

#[test]
fn opener_retries_then_times_out() {
    let mut o = DlcOpener::new(1);
    assert_eq!(o.step(None), OpenAction::SendSabm);
    assert_eq!(o.step(None), OpenAction::SendSabm);
    assert_eq!(o.step(Some(ControlEvt::UaReceived(2))), OpenAction::SendSabm);
    assert_eq!(o.step(None), OpenAction::Done(Err(StartError::SabmTimeout(1))));
}

#[test]
fn opener_settles_on_answer() {
    let mut o = DlcOpener::new(2);
    assert_eq!(o.step(None), OpenAction::SendSabm);
    assert_eq!(o.step(Some(ControlEvt::UaReceived(2))), OpenAction::Done(Ok(())));
    let mut o = DlcOpener::new(0);
    assert_eq!(o.step(None), OpenAction::SendSabm);
    assert_eq!(o.step(Some(ControlEvt::DmReceived(0))), OpenAction::Done(Err(StartError::Rejected(0))));
    assert_eq!(o.dlci(), 0);
}

#[test]
fn tx_requests_become_frames() {
    let req = data_request(2, b"AT\r");
    let f = request_frame(&req);
    assert_eq!((f.dlci, f.kind, f.pf), (2, FrameKind::Uih, false));
    assert_eq!(f.info, b"AT\r");
    let f = request_frame(&TxReq::Sabm(1));
    assert_eq!((f.dlci, f.kind, f.pf, f.info.len()), (1, FrameKind::Sabm, true, 0));
    let f = request_frame(&TxReq::Disc(3));
    assert_eq!((f.dlci, f.kind, f.pf), (3, FrameKind::Disc, true));

    let mut wire = [0u8; 133];
    let n = encode(&request_frame(&data_request(2, b"hi")), &mut wire).unwrap();
    let mut dec = FrameDecoder::new();
    let mut got = Vec::new();
    for &b in &wire[..n] {
        if let Some(v) = dec.feed(b).unwrap() {
            got.extend_from_slice(v.info);
        }
    }
    assert_eq!(got, b"hi");
}

#[test]
fn writes_are_chunked_at_the_mtu() {
    assert_eq!(chunk_end(300, 0), 127);
    assert_eq!(chunk_end(300, 127), 254);
    assert_eq!(chunk_end(300, 254), 300);
    assert_eq!(chunk_end(5, 0), 5);
}

#[test]
fn pmic_error_from_bus_error() {
    let e: ip5306::Error<u8> = 7u8.into();
    assert!(matches!(e, ip5306::Error::Bus(7)));
}

#[test]
fn read_buffer_hands_out_pending_bytes() {
    let mut rb = ReadBuffer::new();
    assert!(rb.is_drained());
    rb.storage()[..5].copy_from_slice(b"hello");
    rb.set_filled(5);
    assert_eq!(rb.available(), b"hello");
    let mut out = [0u8; 2];
    assert_eq!(rb.read_into(&mut out), 2);
    assert_eq!(&out, b"he");
    assert_eq!(rb.available(), b"llo");
    rb.consume(1);
    assert_eq!(rb.available(), b"lo");
    assert!(rb.can_consume(10));
    rb.consume(10);
    assert!(rb.is_drained());
    let mut big = [0u8; 8];
    assert_eq!(rb.read_into(&mut big), 0);
}
