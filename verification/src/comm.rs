//! Shared data model: network addresses, channel metadata, calibrated
//! measurements, valve state, and the closed sets of wire-message variants
//! exchanged with boards, the ground link, and local sequence processes.
//!
//! Physical quantities are fixed-point integers in micro-units: a value of
//! `1_000_000` stands for one volt, amp, kelvin, psi, or pound.

use vstd::prelude::*;
use crate::config::IpAddress;

verus! {

/// A datagram sender or destination: an IP host plus a UDP/TCP port.
#[derive(Clone, Copy, PartialEq, Eq, Structural, Debug)]
pub struct Address {
    pub ip: IpAddress,
    pub port: u16,
}

/// The physical unit of a calibrated measurement.
#[derive(Clone, Copy, PartialEq, Eq, Structural, Debug)]
pub enum Unit {
    Volts,
    Amps,
    Kelvin,
    Psi,
    Pounds,
}

/// A calibrated reading: a fixed-point value in micro-units of `unit`.
#[derive(Clone, Copy, PartialEq, Eq, Structural, Debug)]
pub struct Measurement {
    pub value: i64,
    pub unit: Unit,
}

/// Logical or electrically inferred state of a valve.
#[derive(Clone, Copy, PartialEq, Eq, Structural, Debug)]
pub enum ValveState {
    Open,
    Closed,
    Fault,
    Disconnected,
    Undetermined,
}

/// The two halves of a valve's state: what was last commanded, and what the
/// electrical readings say is actually there.
#[derive(Clone, Copy, PartialEq, Eq, Structural, Debug)]
pub struct CompositeValveState {
    pub commanded: ValveState,
    pub actual: ValveState,
}

/// The electrical class of one sampled channel.
#[derive(Clone, Copy, PartialEq, Eq, Structural, Debug)]
pub enum ChannelType {
    CurrentLoop,
    ValveVoltage,
    ValveCurrent,
    RailVoltage,
    RailCurrent,
    Rtd,
    Tc,
    DifferentialSignal,
}

/// The sensor class a channel mapping calibrates into.
#[derive(Clone, Copy, PartialEq, Eq, Structural, Debug)]
pub enum SensorType {
    RailVoltage,
    RailCurrent,
    Rtd,
    Tc,
    Pt,
    LoadCell,
    Valve,
}

/// One raw sample from a board: which channel it came from, what electrical
/// class the board sampled it as, and the raw fixed-point value.
#[derive(Clone, Copy, PartialEq, Eq, Structural, Debug)]
pub struct DataPoint {
    pub channel: u32,
    pub channel_type: ChannelType,
    pub value: i64,
}

/// Static per-channel metadata binding a physical channel on a board to a
/// symbolic id and its calibration parameters. Immutable once loaded.
#[derive(Debug)]
pub struct NodeMapping {
    pub text_id: String,
    pub board_id: String,
    pub sensor_type: SensorType,
    pub channel: u32,
    pub channel_types: Vec<ChannelType>,
    pub max: Option<i64>,
    pub min: Option<i64>,
    pub calibrated_offset: Option<i64>,
    pub powered_threshold: Option<i64>,
    pub normally_closed: Option<bool>,
}

/// Mathematical model of a `NodeMapping`: the same fields over `Seq`.
pub struct NodeMappingV {
    pub text_id: Seq<char>,
    pub board_id: Seq<char>,
    pub sensor_type: SensorType,
    pub channel: u32,
    pub channel_types: Seq<ChannelType>,
    pub max: Option<i64>,
    pub min: Option<i64>,
    pub calibrated_offset: Option<i64>,
    pub powered_threshold: Option<i64>,
    pub normally_closed: Option<bool>,
}

impl View for NodeMapping {
    type V = NodeMappingV;

    open spec fn view(&self) -> NodeMappingV {
        NodeMappingV {
            text_id: self.text_id@,
            board_id: self.board_id@,
            sensor_type: self.sensor_type,
            channel: self.channel,
            channel_types: self.channel_types@,
            max: self.max,
            min: self.min,
            calibrated_offset: self.calibrated_offset,
            powered_threshold: self.powered_threshold,
            normally_closed: self.normally_closed,
        }
    }
}

/// The views of a whole mapping table.
pub open spec fn mappings_view(ms: Seq<NodeMapping>) -> Seq<NodeMappingV> {
    ms.map(|i: int, m: NodeMapping| m@)
}

/// A named automation script. A sequence whose name is exactly `abort` is the
/// designated abort sequence.
#[derive(Debug)]
pub struct Sequence {
    pub name: String,
    pub script: String,
}

/// Mathematical model of a `Sequence`.
pub struct SequenceV {
    pub name: Seq<char>,
    pub script: Seq<char>,
}

impl View for Sequence {
    type V = SequenceV;

    open spec fn view(&self) -> SequenceV {
        SequenceV { name: self.name@, script: self.script@ }
    }
}

/// A command addressed to the attitude board, forwarded opaquely.
#[derive(Clone, Copy, PartialEq, Eq, Structural, Debug)]
pub struct AhrsCommand {
    pub code: u32,
}

/// A command addressed to the battery-management board, forwarded opaquely.
#[derive(Clone, Copy, PartialEq, Eq, Structural, Debug)]
pub struct BmsCommand {
    pub code: u32,
}

/// A board-addressed outbound command for a sensor/actuator board.
#[derive(Clone, Copy, PartialEq, Eq, Structural, Debug)]
pub enum SamControlMessage {
    ActuateValve { channel: u32, powered: bool },
    ClearSafetyChannel,
    SafeAllValves,
}

/// The datagram variants exchanged with boards. The identity string embedded
/// in a payload is never trusted for indexing: the receiver re-derives the
/// sender's identity from its network address.
#[derive(Debug)]
pub enum DataMessage {
    Identity(String),
    Ahrs(String, Vec<DataPoint>),
    Bms(String, DataPoint),
    Sam(String, Vec<DataPoint>),
    FlightHeartbeat,
}

/// Mathematical model of a `DataMessage`.
pub enum DataMessageV {
    Identity(Seq<char>),
    Ahrs(Seq<char>, Seq<DataPoint>),
    Bms(Seq<char>, DataPoint),
    Sam(Seq<char>, Seq<DataPoint>),
    FlightHeartbeat,
}

impl View for DataMessage {
    type V = DataMessageV;

    open spec fn view(&self) -> DataMessageV {
        match self {
            DataMessage::Identity(id) => DataMessageV::Identity(id@),
            DataMessage::Ahrs(id, dps) => DataMessageV::Ahrs(id@, dps@),
            DataMessage::Bms(id, dp) => DataMessageV::Bms(id@, *dp),
            DataMessage::Sam(id, dps) => DataMessageV::Sam(id@, dps@),
            DataMessage::FlightHeartbeat => DataMessageV::FlightHeartbeat,
        }
    }
}

/// A command emitted by a running sequence process back into the control
/// loop over the local command channel.
#[derive(Debug)]
pub enum SequenceDomainCommand {
    ActuateValve { valve: String, state: ValveState },
    Abort,
}

/// Mathematical model of a `SequenceDomainCommand`.
pub enum SequenceDomainCommandV {
    ActuateValve { valve: Seq<char>, state: ValveState },
    Abort,
}

impl View for SequenceDomainCommand {
    type V = SequenceDomainCommandV;

    open spec fn view(&self) -> SequenceDomainCommandV {
        match self {
            SequenceDomainCommand::ActuateValve { valve, state } => {
                SequenceDomainCommandV::ActuateValve { valve: valve@, state: *state }
            },
            SequenceDomainCommand::Abort => SequenceDomainCommandV::Abort,
        }
    }
}

/// The control-message variants arriving over the ground link.
#[derive(Debug)]
pub enum FlightControlMessage {
    Abort,
    AhrsCommand(AhrsCommand),
    BmsCommand(BmsCommand),
    Trigger(String),
    Mappings(Vec<NodeMapping>),
    Sequence(Sequence),
    StopSequence(String),
}

/// Mathematical model of a `FlightControlMessage`.
pub enum FlightControlMessageV {
    Abort,
    AhrsCommand(AhrsCommand),
    BmsCommand(BmsCommand),
    Trigger(Seq<char>),
    Mappings(Seq<NodeMappingV>),
    Sequence(SequenceV),
    StopSequence(Seq<char>),
}

impl View for FlightControlMessage {
    type V = FlightControlMessageV;

    open spec fn view(&self) -> FlightControlMessageV {
        match self {
            FlightControlMessage::Abort => FlightControlMessageV::Abort,
            FlightControlMessage::AhrsCommand(c) => FlightControlMessageV::AhrsCommand(*c),
            FlightControlMessage::BmsCommand(c) => FlightControlMessageV::BmsCommand(*c),
            FlightControlMessage::Trigger(t) => FlightControlMessageV::Trigger(t@),
            FlightControlMessage::Mappings(ms) => {
                FlightControlMessageV::Mappings(mappings_view(ms@))
            },
            FlightControlMessage::Sequence(s) => FlightControlMessageV::Sequence(s@),
            FlightControlMessage::StopSequence(n) => FlightControlMessageV::StopSequence(n@),
        }
    }
}

/// Which endpoint a ground-link peer is speaking to; sent once on connect.
#[derive(Clone, Copy, PartialEq, Eq, Structural, Debug)]
pub enum Computer {
    Flight,
    Ground,
}

} // verus!
