use flight_core::codec::{decode_control_message, decode_data_message, decode_datagrams,
    decode_domain_command, decode_domain_commands, encode_bms_command, encode_computer,
    encode_control_message, encode_data_message, encode_domain_command, encode_sam_control,
    encode_vehicle_state};
use flight_core::comm::{Address, BmsCommand, ChannelType, Computer, DataMessage, DataPoint,
    FlightControlMessage, NodeMapping, SamControlMessage, Sequence, SequenceDomainCommand,
    SensorType, ValveState};
use flight_core::config::IpAddress;
use flight_core::state::VehicleState;

#[test]
fn heartbeat_encodes_as_its_tag_alone() {
    assert_eq!(encode_data_message(&DataMessage::FlightHeartbeat), vec![4u8]);
}

#[test]
fn sam_control_encodings_are_exact() {
    assert_eq!(encode_sam_control(SamControlMessage::ClearSafetyChannel), vec![1u8]);
    assert_eq!(encode_sam_control(SamControlMessage::SafeAllValves), vec![2u8]);
    assert_eq!(
        encode_sam_control(SamControlMessage::ActuateValve { channel: 7, powered: true }),
        vec![0u8, 7, 0, 0, 0, 1],
    );
}

#[test]
fn computer_tag_encodings_are_exact() {
    assert_eq!(encode_computer(Computer::Flight), vec![0u8]);
    assert_eq!(encode_computer(Computer::Ground), vec![1u8]);
}

#[test]
fn identity_message_round_trips() {
    let m = DataMessage::Identity("sam-01".to_string());
    let bytes = encode_data_message(&m);
    match decode_data_message(&bytes) {
        Some(DataMessage::Identity(id)) => assert_eq!(id, "sam-01"),
        other => panic!("wrong decode: {:?}", other),
    }
}

#[test]
fn telemetry_message_round_trips() {
    let dps = vec![
        DataPoint { channel: 0, channel_type: ChannelType::RailVoltage, value: 12_000_000 },
        DataPoint { channel: 3, channel_type: ChannelType::ValveCurrent, value: -42 },
    ];
    let m = DataMessage::Sam("sam-02".to_string(), dps.clone());
    let bytes = encode_data_message(&m);
    match decode_data_message(&bytes) {
        Some(DataMessage::Sam(id, got)) => {
            assert_eq!(id, "sam-02");
            assert_eq!(got, dps);
        },
        other => panic!("wrong decode: {:?}", other),
    }
}

#[test]
fn trailing_bytes_are_malformed() {
    let mut bytes = encode_data_message(&DataMessage::FlightHeartbeat);
    bytes.push(0);
    assert!(decode_data_message(&bytes).is_none());
}

#[test]
fn malformed_buffers_are_rejected() {
    assert!(decode_data_message(&vec![]).is_none());
    assert!(decode_data_message(&vec![9u8]).is_none());
    // An identity whose string length promises more than the buffer holds.
    assert!(decode_data_message(&vec![0u8, 255, 0, 0, 0, 0, 0, 0, 0]).is_none());
    assert!(decode_domain_command(&vec![7u8]).is_none());
    assert!(decode_control_message(&vec![200u8]).is_none());
}

#[test]
fn domain_command_round_trips() {
    let c = SequenceDomainCommand::ActuateValve {
        valve: "VLV".to_string(),
        state: ValveState::Open,
    };
    let bytes = encode_domain_command(&c);
    match decode_domain_command(&bytes) {
        Some(SequenceDomainCommand::ActuateValve { valve, state }) => {
            assert_eq!(valve, "VLV");
            assert_eq!(state, ValveState::Open);
        },
        other => panic!("wrong decode: {:?}", other),
    }
    let abort = encode_domain_command(&SequenceDomainCommand::Abort);
    assert!(matches!(decode_domain_command(&abort), Some(SequenceDomainCommand::Abort)));
}

#[test]
fn control_message_with_mappings_round_trips() {
    let mapping = NodeMapping {
        text_id: "VLV".to_string(),
        board_id: "sam-01".to_string(),
        sensor_type: SensorType::Valve,
        channel: 7,
        channel_types: vec![ChannelType::ValveVoltage, ChannelType::ValveCurrent],
        max: Some(100_000_000),
        min: Some(-5),
        calibrated_offset: None,
        powered_threshold: Some(1_000_000),
        normally_closed: Some(false),
    };
    let m = FlightControlMessage::Mappings(vec![mapping]);
    let bytes = encode_control_message(&m);
    match decode_control_message(&bytes) {
        Some(FlightControlMessage::Mappings(ms)) => {
            assert_eq!(ms.len(), 1);
            let g = &ms[0];
            assert_eq!(g.text_id, "VLV");
            assert_eq!(g.board_id, "sam-01");
            assert_eq!(g.sensor_type, SensorType::Valve);
            assert_eq!(g.channel, 7);
            assert_eq!(g.channel_types,
                vec![ChannelType::ValveVoltage, ChannelType::ValveCurrent]);
            assert_eq!(g.max, Some(100_000_000));
            assert_eq!(g.min, Some(-5));
            assert_eq!(g.calibrated_offset, None);
            assert_eq!(g.powered_threshold, Some(1_000_000));
            assert_eq!(g.normally_closed, Some(false));
        },
        other => panic!("wrong decode: {:?}", other),
    }
}

#[test]
fn sequence_control_message_round_trips() {
    let m = FlightControlMessage::Sequence(Sequence {
        name: "go".to_string(),
        script: "open_vlv(); wait(1.5)".to_string(),
    });
    let bytes = encode_control_message(&m);
    match decode_control_message(&bytes) {
        Some(FlightControlMessage::Sequence(s)) => {
            assert_eq!(s.name, "go");
            assert_eq!(s.script, "open_vlv(); wait(1.5)");
        },
        other => panic!("wrong decode: {:?}", other),
    }
    let bytes2 = encode_control_message(&FlightControlMessage::BmsCommand(BmsCommand {
        code: 3,
    }));
    assert!(matches!(decode_control_message(&bytes2),
        Some(FlightControlMessage::BmsCommand(BmsCommand { code: 3 }))));
}

#[test]
fn extreme_values_round_trip() {
    let dps = vec![
        DataPoint { channel: u32::MAX, channel_type: ChannelType::DifferentialSignal,
            value: i64::MIN },
        DataPoint { channel: 0, channel_type: ChannelType::CurrentLoop, value: i64::MAX },
    ];
    let m = DataMessage::Ahrs("ahrs-01".to_string(), dps.clone());
    let bytes = encode_data_message(&m);
    match decode_data_message(&bytes) {
        Some(DataMessage::Ahrs(id, got)) => {
            assert_eq!(id, "ahrs-01");
            assert_eq!(got, dps);
        },
        other => panic!("wrong decode: {:?}", other),
    }
}

#[test]
fn remaining_control_variants_round_trip() {
    let t = encode_control_message(&FlightControlMessage::Trigger("t9".to_string()));
    assert!(matches!(decode_control_message(&t),
        Some(FlightControlMessage::Trigger(name)) if name == "t9"));
    let s = encode_control_message(&FlightControlMessage::StopSequence("burn".to_string()));
    assert!(matches!(decode_control_message(&s),
        Some(FlightControlMessage::StopSequence(name)) if name == "burn"));
    let a = encode_control_message(&FlightControlMessage::AhrsCommand(
        flight_core::comm::AhrsCommand { code: u32::MAX }));
    assert!(matches!(decode_control_message(&a),
        Some(FlightControlMessage::AhrsCommand(c)) if c.code == u32::MAX));
}

#[test]
fn non_ascii_text_survives_the_codec() {
    let m = DataMessage::Identity("gr\u{00fc}n-\u{2764}".to_string());
    let bytes = encode_data_message(&m);
    match decode_data_message(&bytes) {
        Some(DataMessage::Identity(id)) => assert_eq!(id, "gr\u{00fc}n-\u{2764}"),
        other => panic!("wrong decode: {:?}", other),
    }
}

#[test]
fn datagram_batch_drops_only_the_malformed() {
    let a1 = Address { ip: IpAddress::V4(192, 168, 1, 101), port: 1 };
    let a2 = Address { ip: IpAddress::V4(192, 168, 1, 102), port: 2 };
    let raw = vec![
        (a1, encode_data_message(&DataMessage::FlightHeartbeat)),
        (a2, vec![99u8, 1, 2]),
        (a2, encode_data_message(&DataMessage::Identity("sam-02".to_string()))),
    ];
    let out = decode_datagrams(&raw);
    assert_eq!(out.len(), 2);
    assert_eq!(out[0].0, a1);
    assert!(matches!(out[0].1, DataMessage::FlightHeartbeat));
    assert_eq!(out[1].0, a2);
    assert!(matches!(&out[1].1, DataMessage::Identity(id) if id == "sam-02"));
}

#[test]
fn command_batch_drops_only_the_malformed() {
    let raw = vec![
        encode_domain_command(&SequenceDomainCommand::Abort),
        vec![240u8],
    ];
    let out = decode_domain_commands(&raw);
    assert_eq!(out.len(), 1);
    assert!(matches!(out[0], SequenceDomainCommand::Abort));
}

#[test]
fn empty_vehicle_state_encoding_is_exact() {
    // Two zero counts, then two absent sub-states: eighteen zero bytes.
    assert_eq!(encode_vehicle_state(&VehicleState::new()), vec![0u8; 18]);
}

#[test]
fn vehicle_state_encoding_grows_with_content() {
    let mut state = VehicleState::new();
    state.set_measurement("PT1".to_string(),
        flight_core::comm::Measurement { value: 5, unit: flight_core::comm::Unit::Psi });
    let bytes = encode_vehicle_state(&state);
    // One reading: count 1, name length 3, three 4-byte characters, the
    // value and its unit tag - and still the three empty sections.
    assert_eq!(bytes.len(), 8 + 8 + 12 + 8 + 1 + 8 + 1 + 1);
    assert_eq!(bytes[0], 1);
}
