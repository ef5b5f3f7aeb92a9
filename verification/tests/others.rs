use terrahub::admin::{claim_label, device_statuses};
use terrahub::buffer::BufferedItem;
use terrahub::cloud::{CloudAgent, SYNC_BATCH};
use terrahub::config::CloudSection;
use terrahub::radio::stub::StubRadio;
use terrahub::radio::uart::UartRadio;
use terrahub::radio::RadioError;
use terrahub::registry::{ClaimState, DeviceRecord, DeviceRegistry};

#[test]
fn cloud_claims_come_out_in_order() {
    let cfg = CloudSection { enabled: true, broker_url: Some("mqtt://x".into()), client_id: None };
    let mut agent = CloudAgent::from_config(&cfg);
    agent.enqueue_claim("A".to_string(), 1);
    agent.enqueue_claim("B".to_string(), 2);
    let tick = agent.sync_tick();
    let got: Vec<(String, u16)> = tick.claims.into_iter().map(|c| (c.identity, c.routing_addr)).collect();
    assert_eq!(got, vec![("A".to_string(), 1), ("B".to_string(), 2)]);
    assert_eq!(tick.drain_limit, Some(SYNC_BATCH));
    assert_eq!(SYNC_BATCH, 32);
    let tick = agent.sync_tick();
    assert!(tick.claims.is_empty());
}

#[test]
fn disabled_cloud_skips_sync() {
    let cfg = CloudSection { enabled: false, broker_url: None, client_id: None };
    let mut agent = CloudAgent::from_config(&cfg);
    agent.enqueue_claim("A".to_string(), 1);
    let tick = agent.sync_tick();
    assert_eq!(tick.claims.len(), 1);
    assert_eq!(tick.drain_limit, None);
}

#[test]
fn stub_radio_is_fifo() {
    let mut radio = StubRadio::new();
    assert_eq!(radio.name(), "stub");
    assert!(radio.try_recv().is_none());
    radio.inject(vec![1]);
    radio.inject(vec![2, 2]);
    assert!(radio.send(&[9]).is_ok());
    assert_eq!(radio.try_recv(), Some(vec![1]));
    assert_eq!(radio.try_recv(), Some(vec![2, 2]));
    assert_eq!(radio.try_recv(), None);
}

#[test]
fn uart_radio_not_implemented() {
    let radio = UartRadio::new("/dev/ttyUSB0".to_string(), 115200);
    assert_eq!(radio.name(), "uart");
    match radio.send(&[1]) {
        Err(RadioError::NotImplemented(m)) => {
            assert_eq!(m, "UART radio: open serial and speak coprocessor framing")
        }
        other => panic!("unexpected {:?}", other),
    }
    assert!(matches!(radio.recv(), Err(RadioError::NotImplemented(_))));
}

#[test]
fn buffered_item_from_row_truncates() {
    let item = BufferedItem::from_row(7, 0x1_0005, 0x1FF, vec![1, 2]);
    assert_eq!(item.id, 7);
    assert_eq!(item.src_addr, 5);
    assert_eq!(item.packet_type, 0xFF);
    assert_eq!(item.payload, vec![1, 2]);
    let item = BufferedItem::from_row(1, 66, 1, vec![]);
    assert_eq!((item.src_addr, item.packet_type), (66, 1));
}

#[test]
fn admin_status_lines() {
    assert_eq!(claim_label(ClaimState::Pending), "pending");
    assert_eq!(claim_label(ClaimState::Claimed), "claimed");
    let mut reg = DeviceRegistry::new();
    reg.upsert(DeviceRecord {
        identity: "TL-1".into(),
        routing_addr: 66,
        claim: ClaimState::Claimed,
        last_seen_seq: 0,
        node_class: None,
    });
    let lines = device_statuses(&reg);
    assert_eq!(lines.len(), 1);
    assert_eq!(lines[0].identity, "TL-1");
    assert_eq!(lines[0].routing_addr, 66);
    assert_eq!(lines[0].claim, "claimed");
}
