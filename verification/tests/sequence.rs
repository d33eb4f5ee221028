use flight_core::comm::{ChannelType, NodeMapping, Sequence, SensorType};
use flight_core::sequence::{build_script, decide_execute, kill_target, ExecDecision,
    PollStatus, Supervisor};

fn valve_mapping(id: &str) -> NodeMapping {
    NodeMapping {
        text_id: id.to_string(),
        board_id: "sam-01".to_string(),
        sensor_type: SensorType::Valve,
        channel: 1,
        channel_types: vec![ChannelType::ValveVoltage],
        max: None,
        min: None,
        calibrated_offset: None,
        powered_threshold: None,
        normally_closed: None,
    }
}

fn sensor_mapping(id: &str) -> NodeMapping {
    let mut m = valve_mapping(id);
    m.sensor_type = SensorType::Pt;
    m
}

#[test]
fn one_running_instance_per_name() {
    let mut sup = Supervisor::new();
    // Nothing recorded: spawn.
    assert!(sup.handle_of(&"x".to_string()).is_none());
    assert_eq!(decide_execute(None), ExecDecision::Spawn);
    sup.record("x".to_string(), 1);
    assert_eq!(sup.handle_of(&"x".to_string()), Some(1));

    // Still running: refused, table untouched - one entry for "x".
    assert_eq!(decide_execute(Some(PollStatus::Running)), ExecDecision::AlreadyRunning);
    assert_eq!(sup.slots.len(), 1);
    assert_eq!(sup.handle_of(&"x".to_string()), Some(1));

    // Exited: a third request replaces the finished process.
    assert_eq!(decide_execute(Some(PollStatus::Exited)), ExecDecision::Spawn);
    sup.record("x".to_string(), 2);
    assert_eq!(sup.slots.len(), 1);
    assert_eq!(sup.handle_of(&"x".to_string()), Some(2));
}

#[test]
fn undetermined_status_refuses_execution() {
    assert_eq!(decide_execute(Some(PollStatus::Unknown)), ExecDecision::StatusUnknown);
}

#[test]
fn kill_target_rules() {
    assert_eq!(kill_target(None, PollStatus::Running), None);
    assert_eq!(kill_target(Some(9), PollStatus::Exited), None);
    assert_eq!(kill_target(Some(9), PollStatus::Running), Some(9));
    assert_eq!(kill_target(Some(9), PollStatus::Unknown), Some(9));
}

#[test]
fn abort_without_sequence_empties_the_table() {
    let mut sup = Supervisor::new();
    sup.record("a".to_string(), 10);
    sup.record("b".to_string(), 11);
    let mappings: Vec<NodeMapping> = Vec::new();
    let plan = sup.plan_abort(&mappings, &None);
    assert_eq!(plan.kills, vec![10, 11]);
    assert!(plan.spawn.is_none());
    assert!(sup.slots.is_empty());
    assert!(sup.handle_of(&"a".to_string()).is_none());
}

#[test]
fn abort_with_sequence_plans_its_spawn() {
    let mut sup = Supervisor::new();
    sup.record("burn".to_string(), 42);
    let mappings = vec![valve_mapping("VLV")];
    let abort_seq = Some(Sequence { name: "abort".to_string(), script: "safe()".to_string() });
    let plan = sup.plan_abort(&mappings, &abort_seq);
    assert_eq!(plan.kills, vec![42]);
    assert!(sup.slots.is_empty());
    let (name, script) = plan.spawn.expect("the registered abort sequence must be spawned");
    assert_eq!(name, "abort");
    assert_eq!(script, "from sequences import *;VLV = Valve('VLV');safe()");
}

#[test]
fn script_composition_injects_bindings_in_order() {
    let mappings = vec![valve_mapping("VLV"), sensor_mapping("PT1")];
    let seq = Sequence { name: "go".to_string(), script: "open_vlv()".to_string() };
    let script = build_script(&mappings, &seq);
    assert_eq!(script,
        "from sequences import *;VLV = Valve('VLV');PT1 = Sensor('PT1');open_vlv()");
}

#[test]
fn script_without_mappings_is_import_plus_body() {
    let mappings: Vec<NodeMapping> = Vec::new();
    let seq = Sequence { name: "go".to_string(), script: "pass".to_string() };
    assert_eq!(build_script(&mappings, &seq), "from sequences import *;pass");
}
