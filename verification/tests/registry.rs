use flight_core::comm::{Address, ChannelType, DataMessage, DataPoint, Measurement,
    NodeMapping, SensorType, Unit};
use flight_core::config::IpAddress;
use flight_core::registry::{Devices, DEVICE_COMMAND_PORT, TIME_TO_LIVE_MS};

fn sam1_addr() -> Address {
    Address { ip: IpAddress::V4(192, 168, 1, 101), port: 40000 }
}

fn sam2_addr() -> Address {
    Address { ip: IpAddress::V4(192, 168, 1, 102), port: 40001 }
}

#[test]
fn register_overwrites_same_id() {
    let mut devices = Devices::new();
    let first = devices.register_device(&"sam-01".to_string(), sam1_addr(), 100);
    assert!(first.is_none());
    assert_eq!(devices.devices.len(), 1);

    // Same identity from a new address: everything replaced, previous entry
    // reported.
    let other = Address { ip: IpAddress::V4(10, 0, 0, 9), port: 50000 };
    let prior = devices.register_device(&"sam-01".to_string(), other, 2000);
    let prior = prior.expect("second registration must report the overwritten entry");
    assert_eq!(prior.address, sam1_addr());
    assert_eq!(prior.last_received, 100);
    assert_eq!(devices.devices.len(), 1);
    assert_eq!(devices.devices[0].address, other);
    assert_eq!(devices.devices[0].last_received, 2000);
    assert!(devices.devices[0].connected);
}

#[test]
fn ttl_expiry_disconnects_and_datagram_reconnects() {
    let mut devices = Devices::new();
    devices.register_device(&"sam-01".to_string(), sam1_addr(), 0);

    // Within the time-to-live nothing changes.
    devices.mark_if_expired(TIME_TO_LIVE_MS);
    assert!(devices.devices[0].connected);

    // One past it: Disconnected, but never removed.
    devices.mark_if_expired(TIME_TO_LIVE_MS + 1);
    assert_eq!(devices.devices.len(), 1);
    assert!(!devices.devices[0].connected);
    assert!(devices.devices[0].is_disconnected());

    // Any datagram from its address reconnects it - here a bare heartbeat.
    let mappings: Vec<NodeMapping> = Vec::new();
    let out = devices.update_state(vec![(sam1_addr(), DataMessage::FlightHeartbeat)],
        &mappings, 90);
    assert!(out.is_empty());
    assert!(devices.devices[0].connected);
    assert_eq!(devices.devices[0].last_received, 90);
}

#[test]
fn identity_handshake_registers_and_replies() {
    let mut devices = Devices::new();
    let mappings: Vec<NodeMapping> = Vec::new();
    // The embedded identity is a lie; the address decides.
    let out = devices.update_state(
        vec![(sam1_addr(), DataMessage::Identity("bogus-99".to_string()))], &mappings, 5);
    assert_eq!(devices.devices.len(), 1);
    assert_eq!(devices.devices[0].id, "sam-01");
    assert_eq!(devices.devices[0].address, sam1_addr());
    assert_eq!(out.len(), 1);
    assert_eq!(out[0].0, sam1_addr());
    match &out[0].1 {
        DataMessage::Identity(own) => assert_eq!(own, "flight-01"),
        other => panic!("expected an identity reply, got {:?}", other),
    }
}

#[test]
fn identity_from_unknown_address_is_dropped() {
    let mut devices = Devices::new();
    let mappings: Vec<NodeMapping> = Vec::new();
    let stranger = Address { ip: IpAddress::V4(10, 1, 2, 3), port: 1 };
    let out = devices.update_state(
        vec![(stranger, DataMessage::Identity("sam-01".to_string()))], &mappings, 5);
    assert!(out.is_empty());
    assert!(devices.devices.is_empty());
    let out6 = devices.update_state(
        vec![(Address { ip: IpAddress::V6, port: 1 },
            DataMessage::Identity("sam-01".to_string()))], &mappings, 5);
    assert!(out6.is_empty());
    assert!(devices.devices.is_empty());
}

#[test]
fn data_from_unregistered_address_is_discarded() {
    let mut devices = Devices::new();
    let mappings = vec![rail_mapping("sam-02")];
    let dp = DataPoint { channel: 0, channel_type: ChannelType::RailVoltage, value: 5 };
    let out = devices.update_state(
        vec![(sam2_addr(), DataMessage::Sam("sam-02".to_string(), vec![dp]))], &mappings, 5);
    assert!(out.is_empty());
    assert!(devices.devices.is_empty());
    assert_eq!(devices.get_state().get_measurement(&"RAIL".to_string()), None);
}

fn rail_mapping(board: &str) -> NodeMapping {
    NodeMapping {
        text_id: "RAIL".to_string(),
        board_id: board.to_string(),
        sensor_type: SensorType::RailVoltage,
        channel: 0,
        channel_types: vec![ChannelType::RailVoltage],
        max: None,
        min: None,
        calibrated_offset: None,
        powered_threshold: None,
        normally_closed: None,
    }
}

#[test]
fn telemetry_is_ingested_under_the_resolved_identity() {
    let mut devices = Devices::new();
    let mappings = vec![rail_mapping("sam-01")];
    devices.update_state(vec![(sam1_addr(), DataMessage::Identity("sam-01".to_string()))],
        &mappings, 0);
    // The payload claims another board; the sender's address wins and the
    // reading lands under sam-01's mapping.
    let dp = DataPoint { channel: 0, channel_type: ChannelType::RailVoltage,
        value: 12_000_000 };
    devices.update_state(vec![(sam1_addr(), DataMessage::Sam("sam-05".to_string(),
        vec![dp]))], &mappings, 7);
    assert_eq!(devices.get_state().get_measurement(&"RAIL".to_string()),
        Some(Measurement { value: 12_000_000, unit: Unit::Volts }));
    assert_eq!(devices.devices[0].last_received, 7);
}

#[test]
fn handshake_and_data_in_one_batch_are_processed_in_order() {
    let mut devices = Devices::new();
    let mappings = vec![rail_mapping("sam-01")];
    let dp = DataPoint { channel: 0, channel_type: ChannelType::RailVoltage, value: 9 };
    let out = devices.update_state(vec![
        (sam1_addr(), DataMessage::Identity("sam-01".to_string())),
        (sam1_addr(), DataMessage::Sam("sam-01".to_string(), vec![dp])),
    ], &mappings, 1);
    assert_eq!(out.len(), 1);
    assert_eq!(devices.get_state().get_measurement(&"RAIL".to_string()),
        Some(Measurement { value: 9, unit: Unit::Volts }));
}

#[test]
fn encoded_datagrams_flow_into_the_vehicle_state() {
    let mut devices = Devices::new();
    let mappings = vec![rail_mapping("sam-01")];
    let dp = DataPoint { channel: 0, channel_type: ChannelType::RailVoltage,
        value: 3_300_000 };
    let raw = vec![
        (sam1_addr(),
            flight_core::codec::encode_data_message(
                &DataMessage::Identity("sam-01".to_string()))),
        (sam1_addr(),
            flight_core::codec::encode_data_message(
                &DataMessage::Sam("sam-01".to_string(), vec![dp]))),
    ];
    let telemetry = flight_core::codec::decode_datagrams(&raw);
    assert_eq!(telemetry.len(), 2);
    devices.update_state(telemetry, &mappings, 4);
    assert_eq!(devices.get_state().get_measurement(&"RAIL".to_string()),
        Some(Measurement { value: 3_300_000, unit: Unit::Volts }));
}

#[test]
fn heartbeat_targets_skip_disconnected_boards() {
    let mut devices = Devices::new();
    devices.register_device(&"sam-01".to_string(), sam1_addr(), 0);
    devices.register_device(&"sam-02".to_string(), sam2_addr(), 100);
    // Only sam-01 is stale at 150: 0 + 50 < 150, but not 100 + 50 < 150.
    devices.mark_if_expired(150);
    let targets = devices.heartbeat_targets();
    assert_eq!(targets, vec![sam2_addr()]);
}

#[test]
fn command_address_uses_the_device_command_port() {
    let mut devices = Devices::new();
    devices.register_device(&"sam-01".to_string(), sam1_addr(), 0);
    let a = devices.command_address(&"sam-01".to_string()).unwrap();
    assert_eq!(a, Address { ip: IpAddress::V4(192, 168, 1, 101), port: DEVICE_COMMAND_PORT });
    assert!(devices.command_address(&"sam-09".to_string()).is_none());
}
