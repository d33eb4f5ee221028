use flight_core::codec::encode_control_message;
use flight_core::comm::{AhrsCommand, ChannelType, FlightControlMessage, NodeMapping,
    Sequence, SensorType};
use flight_core::session::{attempt_schedule, handle_control_message, handle_pull,
    ControlAction, PullEvent, PullOutcome};

#[test]
fn pull_classification() {
    assert!(matches!(handle_pull(PullEvent::Empty), PullOutcome::Disconnected));
    assert!(matches!(handle_pull(PullEvent::NotReady), PullOutcome::NoMessage));
    assert!(matches!(handle_pull(PullEvent::Failed), PullOutcome::TransportFailed));
    assert!(matches!(handle_pull(PullEvent::Data(vec![250u8])), PullOutcome::DecodeFailed));
    let bytes = encode_control_message(&FlightControlMessage::Abort);
    assert!(matches!(handle_pull(PullEvent::Data(bytes)),
        PullOutcome::Message(FlightControlMessage::Abort)));
}

#[test]
fn schedule_walks_every_address_each_attempt() {
    assert_eq!(attempt_schedule(3, 2), vec![0, 1, 2, 0, 1, 2]);
    assert_eq!(attempt_schedule(1, 3), vec![0, 0, 0]);
    assert!(attempt_schedule(0, 4).is_empty());
    assert!(attempt_schedule(5, 0).is_empty());
}

fn mapping(id: &str) -> NodeMapping {
    NodeMapping {
        text_id: id.to_string(),
        board_id: "sam-01".to_string(),
        sensor_type: SensorType::Pt,
        channel: 0,
        channel_types: vec![ChannelType::CurrentLoop],
        max: None,
        min: None,
        calibrated_offset: None,
        powered_threshold: None,
        normally_closed: None,
    }
}

#[test]
fn control_dispatch_replaces_mappings_in_place() {
    let mut mappings = vec![mapping("OLD")];
    let mut abort_sequence: Option<Sequence> = None;
    let action = handle_control_message(
        FlightControlMessage::Mappings(vec![mapping("NEW1"), mapping("NEW2")]),
        &mut mappings, &mut abort_sequence);
    assert!(matches!(action, ControlAction::MappingsReplaced));
    assert_eq!(mappings.len(), 2);
    assert_eq!(mappings[0].text_id, "NEW1");
    assert!(abort_sequence.is_none());
}

#[test]
fn control_dispatch_stores_the_abort_sequence() {
    let mut mappings: Vec<NodeMapping> = Vec::new();
    let mut abort_sequence: Option<Sequence> = None;
    let action = handle_control_message(
        FlightControlMessage::Sequence(Sequence {
            name: "abort".to_string(),
            script: "safe()".to_string(),
        }), &mut mappings, &mut abort_sequence);
    assert!(matches!(action, ControlAction::AbortSequenceStored));
    let stored = abort_sequence.expect("the abort sequence must be stored");
    assert_eq!(stored.script, "safe()");
}

#[test]
fn control_dispatch_hands_other_work_back() {
    let mut mappings: Vec<NodeMapping> = Vec::new();
    let mut abort_sequence: Option<Sequence> = None;
    let run = handle_control_message(
        FlightControlMessage::Sequence(Sequence {
            name: "burn".to_string(),
            script: "go()".to_string(),
        }), &mut mappings, &mut abort_sequence);
    match run {
        ControlAction::RunSequence(s) => assert_eq!(s.name, "burn"),
        _ => panic!("expected a run action"),
    }
    assert!(abort_sequence.is_none());

    assert!(matches!(handle_control_message(FlightControlMessage::Abort, &mut mappings,
        &mut abort_sequence), ControlAction::RunAbort));
    assert!(matches!(handle_control_message(
        FlightControlMessage::AhrsCommand(AhrsCommand { code: 5 }), &mut mappings,
        &mut abort_sequence), ControlAction::SendAhrs(AhrsCommand { code: 5 })));
    assert!(matches!(handle_control_message(
        FlightControlMessage::Trigger("t1".to_string()), &mut mappings,
        &mut abort_sequence), ControlAction::Ignored));
    match handle_control_message(FlightControlMessage::StopSequence("burn".to_string()),
        &mut mappings, &mut abort_sequence) {
        ControlAction::StopSequence(n) => assert_eq!(n, "burn"),
        _ => panic!("expected a stop action"),
    }
}
