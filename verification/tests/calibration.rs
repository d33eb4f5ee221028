use flight_core::calibration::{convert, estimate_valve_state, ingest_message};
use flight_core::comm::{ChannelType, DataMessage, DataPoint, Measurement, NodeMapping,
    SensorType, Unit, ValveState};
use flight_core::state::VehicleState;

fn pt_mapping(max: Option<i64>, min: Option<i64>, offset: Option<i64>) -> NodeMapping {
    NodeMapping {
        text_id: "PT1".to_string(),
        board_id: "sam-01".to_string(),
        sensor_type: SensorType::Pt,
        channel: 0,
        channel_types: vec![ChannelType::CurrentLoop],
        max,
        min,
        calibrated_offset: offset,
        powered_threshold: None,
        normally_closed: None,
    }
}

#[test]
fn pt_conversion_formula() {
    // ((2.4 - 0.8) / 3.2) * (100 - 0) + 0 - 0 = 50 psi, in micro-units.
    let m = pt_mapping(Some(100_000_000), Some(0), Some(0));
    let r = convert(&m, ChannelType::CurrentLoop, 2_400_000);
    assert_eq!(r, Measurement { value: 50_000_000, unit: Unit::Psi });
}

#[test]
fn pt_conversion_applies_offset() {
    // Same reading, offset of 1 psi shifts the result down by 1 psi.
    let m = pt_mapping(Some(100_000_000), Some(0), Some(1_000_000));
    let r = convert(&m, ChannelType::CurrentLoop, 2_400_000);
    assert_eq!(r, Measurement { value: 49_000_000, unit: Unit::Psi });
}

#[test]
fn pt_without_range_is_identity_in_volts() {
    let m = pt_mapping(None, Some(0), None);
    let r = convert(&m, ChannelType::CurrentLoop, 2_400_000);
    assert_eq!(r, Measurement { value: 2_400_000, unit: Unit::Volts });
    let m2 = pt_mapping(Some(100_000_000), None, None);
    let r2 = convert(&m2, ChannelType::CurrentLoop, -7);
    assert_eq!(r2, Measurement { value: -7, unit: Unit::Volts });
}

#[test]
fn load_cell_conversion_formula() {
    // ((30 - 0) / 0.03) * (0.015 + 0.015) + 0 - 0 = 30 pounds, in micro-units.
    let mut m = pt_mapping(Some(30_000_000), Some(0), Some(0));
    m.sensor_type = SensorType::LoadCell;
    let r = convert(&m, ChannelType::CurrentLoop, 15_000);
    assert_eq!(r, Measurement { value: 30_000_000, unit: Unit::Pounds });
}

#[test]
fn rail_and_temperature_pass_through() {
    let mut m = pt_mapping(None, None, None);
    m.sensor_type = SensorType::RailVoltage;
    assert_eq!(convert(&m, ChannelType::RailVoltage, 12_000_000),
        Measurement { value: 12_000_000, unit: Unit::Volts });
    m.sensor_type = SensorType::RailCurrent;
    assert_eq!(convert(&m, ChannelType::RailCurrent, 1_500_000),
        Measurement { value: 1_500_000, unit: Unit::Amps });
    m.sensor_type = SensorType::Rtd;
    assert_eq!(convert(&m, ChannelType::Rtd, 293_000_000),
        Measurement { value: 293_000_000, unit: Unit::Kelvin });
    m.sensor_type = SensorType::Tc;
    assert_eq!(convert(&m, ChannelType::Tc, 77_000_000),
        Measurement { value: 77_000_000, unit: Unit::Kelvin });
}

#[test]
fn valve_estimation_scenarios() {
    // Unpowered, low voltage: closed.
    assert_eq!(estimate_valve_state(3_500_000, 0, Some(1_000_000), None), ValveState::Closed);
    // Powered, high voltage: open.
    assert_eq!(estimate_valve_state(25_000_000, 2_000_000, Some(1_000_000), None),
        ValveState::Open);
    // Normally-open wiring swaps the result.
    assert_eq!(estimate_valve_state(25_000_000, 2_000_000, Some(1_000_000), Some(false)),
        ValveState::Closed);
    // No threshold: fault, whatever the readings.
    assert_eq!(estimate_valve_state(25_000_000, 2_000_000, None, None), ValveState::Fault);
    assert_eq!(estimate_valve_state(0, 0, None, Some(false)), ValveState::Fault);
}

#[test]
fn valve_estimation_edges() {
    // Unpowered, high voltage: disconnected; swap leaves it alone.
    assert_eq!(estimate_valve_state(4_000_000, 0, Some(1_000_000), None),
        ValveState::Disconnected);
    assert_eq!(estimate_valve_state(4_000_000, 0, Some(1_000_000), Some(false)),
        ValveState::Disconnected);
    // Powered, low voltage: fault.
    assert_eq!(estimate_valve_state(19_999_999, 1_000_000, Some(1_000_000), None),
        ValveState::Fault);
}

fn valve_mapping() -> NodeMapping {
    NodeMapping {
        text_id: "VLV".to_string(),
        board_id: "sam-01".to_string(),
        sensor_type: SensorType::Valve,
        channel: 2,
        channel_types: vec![ChannelType::ValveVoltage, ChannelType::ValveCurrent],
        max: None,
        min: None,
        calibrated_offset: None,
        powered_threshold: Some(1_000_000),
        normally_closed: None,
    }
}

#[test]
fn valve_ingestion_pairs_voltage_and_current() {
    let mut state = VehicleState::new();
    let mappings = vec![valve_mapping()];
    let board = "sam-01".to_string();
    let volts = DataPoint { channel: 2, channel_type: ChannelType::ValveVoltage,
        value: 3_500_000 };
    ingest_message(&mut state, &board,
        &DataMessage::Sam(board.clone(), vec![volts]), &mappings);
    assert_eq!(state.get_measurement(&"VLV_V".to_string()),
        Some(Measurement { value: 3_500_000, unit: Unit::Volts }));
    // No current reading yet: pairs with 0 A, unpowered and low voltage.
    let v = state.get_valve_state(&"VLV".to_string()).unwrap();
    assert_eq!(v.actual, ValveState::Closed);
    assert_eq!(v.commanded, ValveState::Undetermined);

    // A current sample cross-reads the stored voltage: powered and low: fault.
    let amps = DataPoint { channel: 2, channel_type: ChannelType::ValveCurrent,
        value: 2_000_000 };
    ingest_message(&mut state, &board,
        &DataMessage::Sam(board.clone(), vec![amps]), &mappings);
    assert_eq!(state.get_measurement(&"VLV_I".to_string()),
        Some(Measurement { value: 2_000_000, unit: Unit::Amps }));
    assert_eq!(state.get_valve_state(&"VLV".to_string()).unwrap().actual, ValveState::Fault);
}

#[test]
fn ingestion_requires_correspondence() {
    let mut state = VehicleState::new();
    let mappings = vec![valve_mapping()];
    let board = "sam-01".to_string();
    // Wrong channel index: no match, nothing stored.
    let wrong_channel = DataPoint { channel: 3, channel_type: ChannelType::ValveVoltage,
        value: 3_500_000 };
    // Wrong board: no match either.
    let other = "sam-02".to_string();
    let right = DataPoint { channel: 2, channel_type: ChannelType::ValveVoltage,
        value: 3_500_000 };
    ingest_message(&mut state, &board,
        &DataMessage::Sam(board.clone(), vec![wrong_channel]), &mappings);
    ingest_message(&mut state, &other,
        &DataMessage::Sam(other.clone(), vec![right]), &mappings);
    assert_eq!(state.get_measurement(&"VLV_V".to_string()), None);
    assert_eq!(state.get_valve_state(&"VLV".to_string()), None);
}

#[test]
fn last_write_wins_per_id() {
    let mut state = VehicleState::new();
    let mut m = pt_mapping(None, None, None);
    m.sensor_type = SensorType::RailVoltage;
    m.channel_types = vec![ChannelType::RailVoltage];
    let mappings = vec![m];
    let board = "sam-01".to_string();
    let first = DataPoint { channel: 0, channel_type: ChannelType::RailVoltage, value: 1 };
    let second = DataPoint { channel: 0, channel_type: ChannelType::RailVoltage, value: 2 };
    ingest_message(&mut state, &board,
        &DataMessage::Sam(board.clone(), vec![first, second]), &mappings);
    assert_eq!(state.get_measurement(&"PT1".to_string()),
        Some(Measurement { value: 2, unit: Unit::Volts }));
}

#[test]
fn bms_and_ahrs_payloads_update_substates() {
    let mut state = VehicleState::new();
    let mappings: Vec<NodeMapping> = Vec::new();
    let board = "bms-01".to_string();
    let dp = DataPoint { channel: 1, channel_type: ChannelType::RailVoltage,
        value: 24_000_000 };
    ingest_message(&mut state, &board, &DataMessage::Bms(board.clone(), dp), &mappings);
    assert_eq!(state.last_bms, Some(dp));
    let board2 = "ahrs-01".to_string();
    ingest_message(&mut state, &board2,
        &DataMessage::Ahrs(board2.clone(), vec![dp, dp]), &mappings);
    assert_eq!(state.last_ahrs, Some(vec![dp, dp]));
}

#[test]
fn out_of_range_calibration_is_skipped() {
    // Operands beyond the fixed-point range are not folded in wrongly: the
    // pair is skipped and nothing is stored.
    let mut state = VehicleState::new();
    let mut m = pt_mapping(Some(i64::MAX), Some(0), None);
    m.channel_types = vec![ChannelType::CurrentLoop];
    let mappings = vec![m];
    let board = "sam-01".to_string();
    let dp = DataPoint { channel: 0, channel_type: ChannelType::CurrentLoop,
        value: 2_400_000 };
    ingest_message(&mut state, &board,
        &DataMessage::Sam(board.clone(), vec![dp]), &mappings);
    assert_eq!(state.get_measurement(&"PT1".to_string()), None);
}
