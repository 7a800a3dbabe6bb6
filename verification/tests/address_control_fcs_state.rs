use cmux_core::address::{Address, Role};
use cmux_core::control::{
    opcode, pf_set, FrameKind, Control, DISC, DISC_PF, DM, DM_PF, PF_MASK, SABM, SABM_PF, UA, UA_PF,
    UIH, UIH_PF,
};
use cmux_core::fcs::{build_table, check, fcs, run, update};
use cmux_core::state::DlcState;

#[test]
fn address_round_trip() {
    for dlci in 0..64u8 {
        for &role in &[Role::Command, Role::Response] {
            let a = Address::outgoing(dlci, role);
            let b = a.to_byte();
            let parsed = Address::from_byte(b).unwrap();
            assert_eq!(parsed, a, "dlci={dlci} role={role:?}");
        }
    }
}

#[test]
fn known_dlci0_command() {
    // DLCI 0, command, EA=1 -> 0b0000_0011 = 0x03
    assert_eq!(Address::outgoing(0, Role::Command).to_byte(), 0x03);
}

#[test]
fn known_dlci2_command() {
    // DLCI 2, command, EA=1 -> 0b0000_1011 = 0x0B
    assert_eq!(Address::outgoing(2, Role::Command).to_byte(), 0x0B);
}

#[test]
fn rejects_extended_address() {
    assert!(Address::from_byte(0x00).is_none());
}

#[test]
fn address_response_and_parse_fields() {
    assert_eq!(Address::outgoing(62, Role::Response).to_byte(), 0xF9);
    assert_eq!(
        Address::from_byte(0x0B),
        Some(Address { dlci: 2, cr: true, ea: true })
    );
    assert_eq!(
        Address::from_byte(0xFD),
        Some(Address { dlci: 63, cr: false, ea: true })
    );
    assert!(Address::from_byte(0xFE).is_none());
    // the DLCI is taken modulo 64 when encoding
    assert_eq!(Address { dlci: 65, cr: false, ea: true }.to_byte(), 0x05);
}

#[test]
fn opcode_constants() {
    assert_eq!(SABM_PF, SABM | PF_MASK);
    assert_eq!(UA_PF, UA | PF_MASK);
    assert_eq!(DM_PF, DM | PF_MASK);
    assert_eq!(DISC_PF, DISC | PF_MASK);
    assert_eq!(UIH_PF, UIH | PF_MASK);
}

#[test]
fn control_round_trip() {
    for kind in [FrameKind::Sabm, FrameKind::Ua, FrameKind::Dm, FrameKind::Disc, FrameKind::Uih] {
        for pf in [false, true] {
            let ctrl = kind.to_ctrl(pf);
            assert_eq!(FrameKind::from_ctrl(ctrl), Some(kind));
            assert_eq!(pf_set(ctrl), pf);
        }
    }
}

#[test]
fn unknown_opcode() {
    assert_eq!(FrameKind::from_ctrl(0x00), None);
}

#[test]
fn opcode_and_control_values() {
    assert_eq!(opcode(0x3F), 0x2F);
    assert_eq!(opcode(0x2F), 0x2F);
    assert_eq!(opcode(0xFF), 0xEF);
    assert!(pf_set(0x73));
    assert!(!pf_set(0x63));
    assert_eq!(Control::new(FrameKind::Uih, false).to_byte(), 0xEF);
    assert_eq!(Control::new(FrameKind::Ua, true).to_byte(), 0x73);
    assert_eq!(FrameKind::from_ctrl(0x1F), Some(FrameKind::Dm));
    assert_eq!(FrameKind::from_ctrl(0x53), Some(FrameKind::Disc));
    assert_eq!(FrameKind::from_ctrl(0x01), None);
}

#[test]
fn round_trip_random() {
    for hdr in [&[0x03u8, 0x3F, 0x01][..], &[0x07, 0xEF, 0x09], &[0x0B, 0x73, 0x01]] {
        let f = fcs(hdr);
        assert!(check(hdr, f), "header {:?} fcs {:#x}", hdr, f);
    }
}

#[test]
fn known_vector_sabm_dlci0() {
    // Address=0x03 (DLCI=0, C/R=1, EA=1), Control=SABM|PF=0x3F, Length=0x01 (len=0).
    assert_eq!(fcs(&[0x03, 0x3F, 0x01]), 0x1C);
}

#[test]
fn rejects_corrupted() {
    let hdr = &[0x03u8, 0x3F, 0x01];
    let f = fcs(hdr);
    assert!(!check(hdr, f ^ 0x01));
}

#[test]
fn fcs_check_accepts_only_the_right_value() {
    let hdr = &[0x0Bu8, 0xEF, 0x0B];
    let good = fcs(hdr);
    let accepted: Vec<u8> = (0..=255u8).filter(|&f| check(hdr, f)).collect();
    assert_eq!(accepted, vec![good]);
}

#[test]
fn crc_table_and_update() {
    let t = build_table();
    assert_eq!(&t[..4], &[0x00, 0x91, 0xE3, 0x72]);
    assert_eq!(t[255], 0xCF);
    for crc in [0u8, 0x5A, 0xFF] {
        for b in [0u8, 1, 0x80, 0xF9] {
            assert_eq!(update(crc, b), t[(crc ^ b) as usize]);
        }
    }
    assert_eq!(run(&[]), 0xFF);
    assert_eq!(run(&[0x03, 0x3F, 0x01]), 0xFF - 0x1C);
}

#[test]
fn open_close_round_trip() {
    let s = DlcState::Closed.on_sabm_sent().on_ua_received();
    assert_eq!(s, DlcState::Open);

    let s = s.on_disc_sent().on_ua_received();
    assert_eq!(s, DlcState::Closed);
}

#[test]
fn dm_in_any_state_closes() {
    for s in [DlcState::Closed, DlcState::Opening, DlcState::Open, DlcState::Closing] {
        assert_eq!(s.on_dm_received(), DlcState::Closed);
    }
}

#[test]
fn state_events_out_of_order_are_ignored() {
    assert_eq!(DlcState::Open.on_sabm_sent(), DlcState::Open);
    assert_eq!(DlcState::Closed.on_disc_sent(), DlcState::Closed);
    assert_eq!(DlcState::Closed.on_ua_received(), DlcState::Closed);
    assert_eq!(DlcState::Open.on_ua_received(), DlcState::Open);
    assert!(DlcState::Open.is_open());
    assert!(!DlcState::Opening.is_open());
}
