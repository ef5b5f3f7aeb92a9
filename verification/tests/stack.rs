use terrahub::registry::{ClaimState, DeviceRegistry};
use terrahub::stack::{
    apply_claim, handle_frame, identity_for_discovery, parse_discovery_identity, ClaimError,
    ConfigurationRequest, CONFIGURATION_PACKET_TYPE,
    FrameOutcome, PacketKind, RxFrame,
};

fn frame(kind: PacketKind, packet_type: u8, src_addr: u16, sequence: u16, payload: &[u8]) -> RxFrame {
    RxFrame { kind, packet_type, src_addr, sequence, payload: payload.to_vec() }
}

#[test]
fn parse_identity_from_payload() {
    assert_eq!(parse_discovery_identity(&[4, b'T', b'L', b'-', b'9', 0xAA]), Some("TL-9".to_string()));
    assert_eq!(parse_discovery_identity(&[0]), Some(String::new()));
    assert_eq!(parse_discovery_identity(&[]), None);
    assert_eq!(parse_discovery_identity(&[3, b'a', b'b']), None);
    assert_eq!(parse_discovery_identity(&[2, 0xff, 0xfe]), None);
    assert_eq!(parse_discovery_identity(&[2, 0xc3, 0xa9]), Some("é".to_string()));
}

#[test]
fn fallback_identity_is_hex_address() {
    assert_eq!(identity_for_discovery(0x00AB, &[9]), "unknown-00AB");
    assert_eq!(identity_for_discovery(0xBEEF, &[]), "unknown-BEEF");
    assert_eq!(identity_for_discovery(0xBEEF, &[1, b'x']), "x");
}

#[test]
fn discovery_registers_pending() {
    let mut reg = DeviceRegistry::new();
    let out = handle_frame(&mut reg, frame(PacketKind::Discovery, 0x04, 66, 3, b"\x09TL-000127"));
    match out {
        FrameOutcome::Discovered { identity } => assert_eq!(identity, "TL-000127"),
        other => panic!("unexpected {:?}", other),
    }
    let rec = reg.get("TL-000127").unwrap();
    assert_eq!(rec.routing_addr, 66);
    assert_eq!(rec.claim, ClaimState::Pending);
    assert_eq!(rec.last_seen_seq, 3);
    assert_eq!(rec.node_class, None);
    assert_eq!(reg.pending().len(), 1);
}

#[test]
fn discovery_without_identity_uses_address() {
    let mut reg = DeviceRegistry::new();
    handle_frame(&mut reg, frame(PacketKind::Discovery, 0x04, 0x1F, 0, &[]));
    assert!(reg.get("unknown-001F").is_some());
}

#[test]
fn telemetry_is_handed_back() {
    let mut reg = DeviceRegistry::new();
    match handle_frame(&mut reg, frame(PacketKind::SensorData, 0x02, 7, 1, &[1, 2, 3])) {
        FrameOutcome::Telemetry { src_addr, packet_type, payload } => {
            assert_eq!(src_addr, 7);
            assert_eq!(packet_type, 0x02);
            assert_eq!(payload, vec![1, 2, 3]);
        }
        other => panic!("unexpected {:?}", other),
    }
    match handle_frame(&mut reg, frame(PacketKind::Alarm, 0x03, 8, 1, &[9])) {
        FrameOutcome::Telemetry { src_addr, packet_type, payload } => {
            assert_eq!((src_addr, packet_type, payload), (8, 0x03, vec![9]));
        }
        other => panic!("unexpected {:?}", other),
    }
    assert!(reg.list().is_empty());
}

#[test]
fn ack_and_other_are_noted() {
    let mut reg = DeviceRegistry::new();
    assert!(matches!(
        handle_frame(&mut reg, frame(PacketKind::Acknowledgement, 0x05, 1, 44, &[])),
        FrameOutcome::Acknowledged { sequence: 44 }
    ));
    assert!(matches!(
        handle_frame(&mut reg, frame(PacketKind::Other, 0x07, 1, 2, &[])),
        FrameOutcome::Ignored { packet_type: 0x07 }
    ));
    assert!(reg.list().is_empty());
}

#[test]
fn discovery_then_claim() {
    let mut reg = DeviceRegistry::new();
    handle_frame(&mut reg, frame(PacketKind::Discovery, 0x04, 5, 1, b"\x03ABC"));
    assert_eq!(
        apply_claim(&mut reg, "ABC", 66),
        Ok(ConfigurationRequest { identity: "ABC".to_string(), dest_addr: 5, assigned_addr: 66 })
    );
    assert_eq!(CONFIGURATION_PACKET_TYPE, 0x07);
    let rec = reg.get("ABC").unwrap();
    assert_eq!(rec.claim, ClaimState::Claimed);
    assert_eq!(rec.routing_addr, 66);
    assert!(reg.pending().is_empty());
    assert_eq!(apply_claim(&mut reg, "nope", 1), Err(ClaimError::UnknownDevice));
}

#[test]
fn claimed_record_keeps_its_identity() {
    let mut reg = DeviceRegistry::new();
    handle_frame(&mut reg, frame(PacketKind::Discovery, 0x04, 9, 1, b"\x02NN"));
    apply_claim(&mut reg, "NN", 10).unwrap();
    assert_eq!(reg.get("NN").unwrap().identity, "NN");
    let req = apply_claim(&mut reg, "NN", 11).unwrap();
    assert_eq!((req.dest_addr, req.assigned_addr), (10, 11));
}
