use flight_core::comm::{Address, ChannelType, NodeMapping, SamControlMessage,
    SequenceDomainCommand, SensorType, ValveState};
use flight_core::config::IpAddress;
use flight_core::registry::{Devices, DEVICE_COMMAND_PORT};

fn sam1_addr() -> Address {
    Address { ip: IpAddress::V4(192, 168, 1, 101), port: 40000 }
}

fn valve_mapping(nc: Option<bool>) -> NodeMapping {
    NodeMapping {
        text_id: "VLV".to_string(),
        board_id: "sam-01".to_string(),
        sensor_type: SensorType::Valve,
        channel: 7,
        channel_types: vec![ChannelType::ValveVoltage, ChannelType::ValveCurrent],
        max: None,
        min: None,
        calibrated_offset: None,
        powered_threshold: Some(1_000_000),
        normally_closed: nc,
    }
}

#[test]
fn unmapped_valve_is_a_noop() {
    let mut devices = Devices::new();
    devices.register_device(&"sam-01".to_string(), sam1_addr(), 0);
    let mappings = vec![valve_mapping(None)];
    let commands = vec![SequenceDomainCommand::ActuateValve {
        valve: "GHOST".to_string(),
        state: ValveState::Open,
    }];
    let plan = devices.route_commands(&mappings, &commands);
    assert!(plan.sends.is_empty());
    assert!(!plan.abort_requested);
    assert_eq!(devices.get_state().valve_count(), 0);
    assert_eq!(devices.get_state().get_valve_state(&"GHOST".to_string()), None);
}

#[test]
fn actuation_computes_powered_and_sets_commanded() {
    let mut devices = Devices::new();
    devices.register_device(&"sam-01".to_string(), sam1_addr(), 0);
    let mappings = vec![valve_mapping(None)];
    // Open against normally-closed wiring: energize.
    let commands = vec![SequenceDomainCommand::ActuateValve {
        valve: "VLV".to_string(),
        state: ValveState::Open,
    }];
    let plan = devices.route_commands(&mappings, &commands);
    assert_eq!(plan.sends, vec![(
        Address { ip: IpAddress::V4(192, 168, 1, 101), port: DEVICE_COMMAND_PORT },
        SamControlMessage::ActuateValve { channel: 7, powered: true },
    )]);
    let v = devices.get_state().get_valve_state(&"VLV".to_string()).unwrap();
    assert_eq!(v.commanded, ValveState::Open);
    assert_eq!(v.actual, ValveState::Undetermined);

    // Close on normally-closed wiring: de-energize; commanded replaced,
    // actual untouched.
    let commands2 = vec![SequenceDomainCommand::ActuateValve {
        valve: "VLV".to_string(),
        state: ValveState::Closed,
    }];
    let plan2 = devices.route_commands(&mappings, &commands2);
    assert_eq!(plan2.sends[0].1, SamControlMessage::ActuateValve { channel: 7,
        powered: false });
    let v2 = devices.get_state().get_valve_state(&"VLV".to_string()).unwrap();
    assert_eq!(v2.commanded, ValveState::Closed);
    assert_eq!(v2.actual, ValveState::Undetermined);
}

#[test]
fn normally_open_wiring_inverts_powered() {
    let mut devices = Devices::new();
    devices.register_device(&"sam-01".to_string(), sam1_addr(), 0);
    let mappings = vec![valve_mapping(Some(false))];
    let commands = vec![SequenceDomainCommand::ActuateValve {
        valve: "VLV".to_string(),
        state: ValveState::Closed,
    }];
    let plan = devices.route_commands(&mappings, &commands);
    assert_eq!(plan.sends[0].1, SamControlMessage::ActuateValve { channel: 7,
        powered: true });
}

#[test]
fn actuation_without_registered_board_updates_state_only() {
    let mut devices = Devices::new();
    let mappings = vec![valve_mapping(None)];
    let commands = vec![SequenceDomainCommand::ActuateValve {
        valve: "VLV".to_string(),
        state: ValveState::Open,
    }];
    let plan = devices.route_commands(&mappings, &commands);
    assert!(plan.sends.is_empty());
    let v = devices.get_state().get_valve_state(&"VLV".to_string()).unwrap();
    assert_eq!(v.commanded, ValveState::Open);
}

#[test]
fn abort_command_only_raises_the_flag() {
    let mut devices = Devices::new();
    devices.register_device(&"sam-01".to_string(), sam1_addr(), 0);
    let mappings = vec![valve_mapping(None)];
    let commands = vec![SequenceDomainCommand::Abort];
    let plan = devices.route_commands(&mappings, &commands);
    assert!(plan.abort_requested);
    assert!(plan.sends.is_empty());
    assert_eq!(devices.get_state().valve_count(), 0);
}

#[test]
fn safety_broadcast_reaches_every_sam_board() {
    let mut devices = Devices::new();
    devices.register_device(&"sam-01".to_string(), sam1_addr(), 0);
    devices.register_device(&"bms-01".to_string(),
        Address { ip: IpAddress::V4(192, 168, 1, 131), port: 40002 }, 0);
    devices.register_device(&"sam-02".to_string(),
        Address { ip: IpAddress::V4(192, 168, 1, 102), port: 40001 }, 0);
    let plan = devices.safety_broadcast(SamControlMessage::SafeAllValves);
    assert_eq!(plan, vec![
        (Address { ip: IpAddress::V4(192, 168, 1, 101), port: DEVICE_COMMAND_PORT },
            SamControlMessage::SafeAllValves),
        (Address { ip: IpAddress::V4(192, 168, 1, 102), port: DEVICE_COMMAND_PORT },
            SamControlMessage::SafeAllValves),
    ]);
}

#[test]
fn first_command_target_finds_the_bms_board() {
    let mut devices = Devices::new();
    assert!(devices.first_command_target("bms").is_none());
    devices.register_device(&"sam-01".to_string(), sam1_addr(), 0);
    devices.register_device(&"bms-01".to_string(),
        Address { ip: IpAddress::V4(192, 168, 1, 131), port: 40002 }, 0);
    let a = devices.first_command_target("bms").unwrap();
    assert_eq!(a, Address { ip: IpAddress::V4(192, 168, 1, 131), port: DEVICE_COMMAND_PORT });
    assert!(devices.first_command_target("ahrs").is_none());
}
