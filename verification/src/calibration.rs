//! The calibration engine: pure conversion of raw channel readings into
//! physical measurements, valve-state estimation from electrical readings,
//! and the ingestion of a board's telemetry payload into the vehicle state.
//!
//! All arithmetic is fixed-point over micro-units. The pressure-transducer
//! and load-cell formulas divide after multiplying, with truncation toward
//! zero; their operands are bounded by [`CAL_BOUND`] so that nothing
//! overflows, and a reading or calibration constant outside that bound is
//! skipped rather than folded in wrongly.

use vstd::prelude::*;
use vstd::arithmetic::div_mod::{lemma_div_is_ordered, lemma_div_pos_is_pos, lemma_div_nonincreasing};
use crate::comm::{Measurement, Unit, ValveState, CompositeValveState, ChannelType, SensorType,
    NodeMapping, NodeMappingV, DataPoint, DataMessage, DataMessageV, mappings_view};
use crate::state::{VehicleState, VehicleStateV};

verus! {

/// Largest magnitude (in micro-units) a value may have to take part in the
/// pressure-transducer or load-cell formula: one hundred thousand whole
/// units, far beyond any physical reading or range here.
pub const CAL_BOUND: i64 = 100_000_000_000;

/// The raw voltage a pressure transducer reports at the bottom of its range:
/// 0.8 V.
pub const PT_RAW_ZERO: i64 = 800_000;

/// The raw span of a pressure transducer: 3.2 V from bottom to top of range.
pub const PT_RAW_SPAN: i64 = 3_200_000;

/// The raw bias of a load cell: 0.015 V.
pub const LOAD_CELL_RAW_BIAS: i64 = 15_000;

/// The raw span of a load cell: 0.03 V.
pub const LOAD_CELL_RAW_SPAN: i64 = 30_000;

/// Below this voltage an unpowered valve reads as closed: 4 V.
pub const VALVE_CLOSED_MAX_VOLTAGE: i64 = 4_000_000;

/// Below this voltage a powered valve reads as faulted: 20 V.
pub const VALVE_POWERED_MIN_VOLTAGE: i64 = 20_000_000;

/// Integer division truncating toward zero, as machine division does.
pub open spec fn tdiv(a: int, b: int) -> int {
    if a >= 0 {
        a / b
    } else {
        -((-a) / b)
    }
}

/// Whether a value may take part in the calibration formulas.
pub open spec fn cal_in_range(x: int) -> bool {
    -(CAL_BOUND as int) <= x <= CAL_BOUND as int
}

/// The calibrated offset of a mapping; absent means none.
pub open spec fn offset_of(m: NodeMappingV) -> int {
    match m.calibrated_offset {
        Some(o) => o as int,
        None => 0,
    }
}

/// The pressure-transducer formula over micro-units: the fraction of the
/// 0.8 V..4.0 V raw span, scaled into [min, max] and shifted by the offset.
pub open spec fn pt_value(raw: int, max: int, min: int, offset: int) -> int {
    tdiv((raw - PT_RAW_ZERO as int) * (max - min), PT_RAW_SPAN as int) + min - offset
}

/// The load-cell formula over micro-units.
pub open spec fn load_cell_value(raw: int, max: int, min: int, offset: int) -> int {
    tdiv((max - min) * (raw + LOAD_CELL_RAW_BIAS as int), LOAD_CELL_RAW_SPAN as int) + min
        - offset
}

/// Whether a mapping calibrates through the Pt or load-cell formula (both
/// range ends present) rather than passing the raw value through.
pub open spec fn needs_calibration(m: NodeMappingV) -> bool {
    (m.sensor_type == SensorType::Pt || m.sensor_type == SensorType::LoadCell)
        && m.max is Some && m.min is Some
}

/// The operand bounds under which the calibration formulas are exact in
/// 64-bit fixed point. Trivially true for every mapping that passes raw
/// values through.
pub open spec fn cal_params_ok(m: NodeMappingV, raw: int) -> bool {
    needs_calibration(m) ==> {
        &&& cal_in_range(raw)
        &&& cal_in_range(m.max.unwrap() as int)
        &&& cal_in_range(m.min.unwrap() as int)
        &&& cal_in_range(offset_of(m))
    }
}

/// What one raw reading converts to under a mapping: the calibrated value in
/// micro-units, and its unit. For valve mappings the reading passes through,
/// as volts or amps according to the sampled channel type.
pub open spec fn spec_convert(m: NodeMappingV, ct: ChannelType, raw: int) -> (int, Unit) {
    match m.sensor_type {
        SensorType::RailVoltage => (raw, Unit::Volts),
        SensorType::RailCurrent => (raw, Unit::Amps),
        SensorType::Rtd => (raw, Unit::Kelvin),
        SensorType::Tc => (raw, Unit::Kelvin),
        SensorType::Pt => match (m.max, m.min) {
            (Some(max), Some(min)) => (
                pt_value(raw, max as int, min as int, offset_of(m)),
                Unit::Psi,
            ),
            _ => (raw, Unit::Volts),
        },
        SensorType::LoadCell => match (m.max, m.min) {
            (Some(max), Some(min)) => (
                load_cell_value(raw, max as int, min as int, offset_of(m)),
                Unit::Pounds,
            ),
            _ => (raw, Unit::Volts),
        },
        SensorType::Valve => if ct == ChannelType::ValveCurrent {
            (raw, Unit::Amps)
        } else {
            (raw, Unit::Volts)
        },
    }
}

/// A truncating quotient is bounded by the quotient of any bound on the
/// numerator's magnitude.
proof fn lemma_tdiv_bound(n: int, d: int, b: int)
    requires
        0 < d,
        0 <= b,
        -b <= n <= b,
    ensures
        -(b / d) <= tdiv(n, d) <= b / d,
{
    if n >= 0 {
        lemma_div_is_ordered(n, b, d);
        lemma_div_pos_is_pos(n, d);
    } else {
        lemma_div_is_ordered(-n, b, d);
        lemma_div_pos_is_pos(-n, d);
    }
}

/// Division truncating toward zero, computed through unsigned division.
fn div_trunc(n: i128, d: i128) -> (r: i128)
    requires
        0 < d,
        i128::MIN < n,
    ensures
        r == tdiv(n as int, d as int),
{
    if n >= 0 {
        let q: u128 = (n as u128) / (d as u128);
        proof {
            lemma_div_nonincreasing(n as int, d as int);
        }
        q as i128
    } else {
        let m: u128 = (-n) as u128;
        let q: u128 = m / (d as u128);
        proof {
            lemma_div_nonincreasing(m as int, d as int);
        }
        -(q as i128)
    }
}

/// Converts one raw reading under a mapping into a calibrated measurement.
///
/// For a pressure transducer with both range ends present this is
/// `(raw − 0.8 V) / 3.2 V × (max − min) + min − offset` in psi; with either
/// end absent, the raw value unchanged in volts. Load cells follow their own
/// formula in pounds; rail, RTD and thermocouple readings pass through.
pub fn convert(mapping: &NodeMapping, ct: ChannelType, raw: i64) -> (r: Measurement)
    requires
        cal_params_ok(mapping@, raw as int),
    ensures
        r.value as int == spec_convert(mapping@, ct, raw as int).0,
        r.unit == spec_convert(mapping@, ct, raw as int).1,
{
    match mapping.sensor_type {
        SensorType::RailVoltage => Measurement { value: raw, unit: Unit::Volts },
        SensorType::RailCurrent => Measurement { value: raw, unit: Unit::Amps },
        SensorType::Rtd => Measurement { value: raw, unit: Unit::Kelvin },
        SensorType::Tc => Measurement { value: raw, unit: Unit::Kelvin },
        SensorType::Pt => {
            if let (Some(max), Some(min)) = (mapping.max, mapping.min) {
                let offset: i64 = match mapping.calibrated_offset {
                    Some(o) => o,
                    None => 0,
                };
                let a: i128 = (raw as i128) - (PT_RAW_ZERO as i128);
                let b: i128 = (max as i128) - (min as i128);
                proof {
                    assert(-40_000_000_000_000_000_000_000 <= a * b
                        <= 40_000_000_000_000_000_000_000) by (nonlinear_arith)
                        requires
                            -200_000_000_000 <= a <= 200_000_000_000,
                            -200_000_000_000 <= b <= 200_000_000_000,
                    ;
                }
                let num: i128 = a * b;
                proof {
                    lemma_tdiv_bound(num as int, PT_RAW_SPAN as int,
                        40_000_000_000_000_000_000_000);
                    assert(40_000_000_000_000_000_000_000int / 3_200_000int
                        == 12_500_000_000_000_000int);
                }
                let q: i128 = div_trunc(num, PT_RAW_SPAN as i128);
                let value: i128 = q + (min as i128) - (offset as i128);
                Measurement { value: value as i64, unit: Unit::Psi }
            } else {
                Measurement { value: raw, unit: Unit::Volts }
            }
        },
        SensorType::LoadCell => {
            if let (Some(max), Some(min)) = (mapping.max, mapping.min) {
                let offset: i64 = match mapping.calibrated_offset {
                    Some(o) => o,
                    None => 0,
                };
                let a: i128 = (max as i128) - (min as i128);
                let b: i128 = (raw as i128) + (LOAD_CELL_RAW_BIAS as i128);
                proof {
                    assert(-40_000_000_000_000_000_000_000 <= a * b
                        <= 40_000_000_000_000_000_000_000) by (nonlinear_arith)
                        requires
                            -200_000_000_000 <= a <= 200_000_000_000,
                            -200_000_000_000 <= b <= 200_000_000_000,
                    ;
                }
                let num: i128 = a * b;
                proof {
                    lemma_tdiv_bound(num as int, LOAD_CELL_RAW_SPAN as int,
                        40_000_000_000_000_000_000_000);
                    assert(40_000_000_000_000_000_000_000int / 30_000int
                        == 1_333_333_333_333_333_333int);
                }
                let q: i128 = div_trunc(num, LOAD_CELL_RAW_SPAN as i128);
                let value: i128 = q + (min as i128) - (offset as i128);
                Measurement { value: value as i64, unit: Unit::Pounds }
            } else {
                Measurement { value: raw, unit: Unit::Volts }
            }
        },
        SensorType::Valve => {
            if ct == ChannelType::ValveCurrent {
                Measurement { value: raw, unit: Unit::Amps }
            } else {
                Measurement { value: raw, unit: Unit::Volts }
            }
        },
    }
}

/// The electrically inferred state of a valve, as a pure function of the
/// voltage and current readings, the powered-current threshold, and the
/// normally-closed wiring flag (absent means normally closed).
///
/// No threshold means the state cannot be judged: Fault. Unpowered (current
/// below threshold): closed at low voltage, otherwise disconnected. Powered:
/// open at high voltage, otherwise fault. Normally-open wiring swaps
/// Open and Closed in the result.
pub open spec fn spec_estimate_valve(
    voltage: int,
    current: int,
    threshold: Option<i64>,
    normally_closed: Option<bool>,
) -> ValveState {
    let base = match threshold {
        None => ValveState::Fault,
        Some(t) => if current < t as int {
            if voltage < VALVE_CLOSED_MAX_VOLTAGE as int {
                ValveState::Closed
            } else {
                ValveState::Disconnected
            }
        } else {
            if voltage < VALVE_POWERED_MIN_VOLTAGE as int {
                ValveState::Fault
            } else {
                ValveState::Open
            }
        },
    };
    if normally_closed == Some(false) {
        match base {
            ValveState::Open => ValveState::Closed,
            ValveState::Closed => ValveState::Open,
            other => other,
        }
    } else {
        base
    }
}

/// Estimates a valve's actual state from its electrical readings.
pub fn estimate_valve_state(
    voltage: i64,
    current: i64,
    threshold: Option<i64>,
    normally_closed: Option<bool>,
) -> (r: ValveState)
    ensures
        r == spec_estimate_valve(voltage as int, current as int, threshold, normally_closed),
{
    let base = match threshold {
        None => ValveState::Fault,
        Some(t) => {
            if current < t {
                if voltage < VALVE_CLOSED_MAX_VOLTAGE {
                    ValveState::Closed
                } else {
                    ValveState::Disconnected
                }
            } else {
                if voltage < VALVE_POWERED_MIN_VOLTAGE {
                    ValveState::Fault
                } else {
                    ValveState::Open
                }
            }
        },
    };
    match normally_closed {
        Some(false) => match base {
            ValveState::Open => ValveState::Closed,
            ValveState::Closed => ValveState::Open,
            other => other,
        },
        _ => base,
    }
}

/// A datapoint corresponds to a mapping when the channel index matches, the
/// sampled channel type is in the mapping's capability set, and the mapping
/// belongs to the board the datagram was resolved to.
pub open spec fn spec_corresponds(dp: DataPoint, board: Seq<char>, m: NodeMappingV) -> bool {
    m.channel == dp.channel && m.channel_types.contains(dp.channel_type) && m.board_id == board
}

/// What one (datapoint, mapping) match does to the vehicle state.
///
/// Valve mappings store the raw electrical reading under `<id>_V` or
/// `<id>_I`, cross-read the paired reading (zero if absent), and merge the
/// estimated state into the valve's `actual` half only. Every other sensor
/// type overwrites the measurement for its id. A pair whose operands are out
/// of calibration range, or that does not correspond, changes nothing.
pub open spec fn spec_apply_pair(
    vs: VehicleStateV,
    board: Seq<char>,
    dp: DataPoint,
    m: NodeMappingV,
) -> VehicleStateV {
    if !(spec_corresponds(dp, board, m) && cal_params_ok(m, dp.value as int)) {
        vs
    } else if m.sensor_type == SensorType::Valve {
        if dp.channel_type == ChannelType::ValveVoltage {
            let paired = m.text_id + "_I"@;
            let current: int = if vs.readings.contains_key(paired) {
                vs.readings[paired].value as int
            } else {
                0
            };
            let est = spec_estimate_valve(dp.value as int, current, m.powered_threshold,
                m.normally_closed);
            let commanded = if vs.valves.contains_key(m.text_id) {
                vs.valves[m.text_id].commanded
            } else {
                ValveState::Undetermined
            };
            VehicleStateV {
                readings: vs.readings.insert(m.text_id + "_V"@,
                    Measurement { value: dp.value, unit: Unit::Volts }),
                valves: vs.valves.insert(m.text_id,
                    CompositeValveState { commanded, actual: est }),
                last_ahrs: vs.last_ahrs,
                last_bms: vs.last_bms,
            }
        } else if dp.channel_type == ChannelType::ValveCurrent {
            let paired = m.text_id + "_V"@;
            let voltage: int = if vs.readings.contains_key(paired) {
                vs.readings[paired].value as int
            } else {
                0
            };
            let est = spec_estimate_valve(voltage, dp.value as int, m.powered_threshold,
                m.normally_closed);
            let commanded = if vs.valves.contains_key(m.text_id) {
                vs.valves[m.text_id].commanded
            } else {
                ValveState::Undetermined
            };
            VehicleStateV {
                readings: vs.readings.insert(m.text_id + "_I"@,
                    Measurement { value: dp.value, unit: Unit::Amps }),
                valves: vs.valves.insert(m.text_id,
                    CompositeValveState { commanded, actual: est }),
                last_ahrs: vs.last_ahrs,
                last_bms: vs.last_bms,
            }
        } else {
            vs
        }
    } else {
        let p = spec_convert(m, dp.channel_type, dp.value as int);
        VehicleStateV {
            readings: vs.readings.insert(m.text_id,
                Measurement { value: p.0 as i64, unit: p.1 }),
            valves: vs.valves,
            last_ahrs: vs.last_ahrs,
            last_bms: vs.last_bms,
        }
    }
}

/// One datapoint folded over the whole mapping table, in table order.
pub open spec fn spec_apply_mappings(
    vs: VehicleStateV,
    board: Seq<char>,
    dp: DataPoint,
    ms: Seq<NodeMappingV>,
) -> VehicleStateV
    decreases ms.len(),
{
    if ms.len() == 0 {
        vs
    } else {
        spec_apply_pair(spec_apply_mappings(vs, board, dp, ms.drop_last()), board, dp, ms.last())
    }
}

/// A whole telemetry payload folded in, datapoint by datapoint.
pub open spec fn spec_apply_datapoints(
    vs: VehicleStateV,
    board: Seq<char>,
    dps: Seq<DataPoint>,
    ms: Seq<NodeMappingV>,
) -> VehicleStateV
    decreases dps.len(),
{
    if dps.len() == 0 {
        vs
    } else {
        spec_apply_mappings(spec_apply_datapoints(vs, board, dps.drop_last(), ms), board,
            dps.last(), ms)
    }
}

/// What ingesting one already-resolved datagram does to the vehicle state.
/// Telemetry payloads are calibrated in; attitude and battery-management
/// payloads also replace the matching sub-state; identity datagrams and
/// heartbeats carry no telemetry.
pub open spec fn spec_ingest_message(
    vs: VehicleStateV,
    board: Seq<char>,
    m: DataMessageV,
    ms: Seq<NodeMappingV>,
) -> VehicleStateV {
    match m {
        DataMessageV::Sam(_id, dps) => spec_apply_datapoints(vs, board, dps, ms),
        DataMessageV::Ahrs(_id, dps) => {
            let vs2 = spec_apply_datapoints(vs, board, dps, ms);
            VehicleStateV {
                readings: vs2.readings,
                valves: vs2.valves,
                last_ahrs: Some(dps),
                last_bms: vs2.last_bms,
            }
        },
        DataMessageV::Bms(_id, dp) => {
            let vs2 = spec_apply_mappings(vs, board, dp, ms);
            VehicleStateV {
                readings: vs2.readings,
                valves: vs2.valves,
                last_ahrs: vs2.last_ahrs,
                last_bms: Some(dp),
            }
        },
        _ => vs,
    }
}

/// Whether a capability set holds a channel type.
fn contains_channel_type(cts: &Vec<ChannelType>, ct: ChannelType) -> (r: bool)
    ensures
        r == cts@.contains(ct),
{
    let n = cts.len();
    let mut i: usize = 0;
    while i < n
        invariant
            n == cts@.len(),
            forall|j: int| 0 <= j < i ==> cts@[j] != ct,
        decreases n - i,
    {
        if cts[i] == ct {
            return true;
        }
        i += 1;
    }
    assert(!cts@.contains(ct));
    false
}

/// Whether the calibration operands of this pair are within fixed-point
/// range.
fn check_cal_params(mapping: &NodeMapping, raw: i64) -> (r: bool)
    ensures
        r == cal_params_ok(mapping@, raw as int),
{
    let needs = match mapping.sensor_type {
        SensorType::Pt | SensorType::LoadCell => mapping.max.is_some() && mapping.min.is_some(),
        _ => false,
    };
    if !needs {
        return true;
    }
    let max = mapping.max.unwrap();
    let min = mapping.min.unwrap();
    let offset: i64 = match mapping.calibrated_offset {
        Some(o) => o,
        None => 0,
    };
    -CAL_BOUND <= raw && raw <= CAL_BOUND && -CAL_BOUND <= max && max <= CAL_BOUND
        && -CAL_BOUND <= min && min <= CAL_BOUND && -CAL_BOUND <= offset && offset <= CAL_BOUND
}

/// Folds one (datapoint, mapping) match into the vehicle state.
fn apply_pair(state: &mut VehicleState, board_id: &String, dp: DataPoint, mapping: &NodeMapping)
    requires
        old(state).wf(),
    ensures
        final(state).wf(),
        final(state)@ == spec_apply_pair(old(state)@, board_id@, dp, mapping@),
{
    let corr = mapping.channel == dp.channel
        && contains_channel_type(&mapping.channel_types, dp.channel_type)
        && mapping.board_id.eq(board_id);
    if !corr {
        return ;
    }
    if !check_cal_params(mapping, dp.value) {
        return ;
    }
    match mapping.sensor_type {
        SensorType::Valve => {
            match dp.channel_type {
                ChannelType::ValveVoltage => {
                    let key_i = mapping.text_id.clone().concat("_I");
                    let current: i64 = match state.get_measurement(&key_i) {
                        Some(m) => m.value,
                        None => 0,
                    };
                    let est = estimate_valve_state(dp.value, current, mapping.powered_threshold,
                        mapping.normally_closed);
                    let key_v = mapping.text_id.clone().concat("_V");
                    state.set_measurement(key_v, Measurement { value: dp.value, unit: Unit::Volts });
                    let commanded = match state.get_valve_state(&mapping.text_id) {
                        Some(c) => c.commanded,
                        None => ValveState::Undetermined,
                    };
                    state.set_valve_state(mapping.text_id.clone(),
                        CompositeValveState { commanded, actual: est });
                },
                ChannelType::ValveCurrent => {
                    let key_v = mapping.text_id.clone().concat("_V");
                    let voltage: i64 = match state.get_measurement(&key_v) {
                        Some(m) => m.value,
                        None => 0,
                    };
                    let est = estimate_valve_state(voltage, dp.value, mapping.powered_threshold,
                        mapping.normally_closed);
                    let key_i = mapping.text_id.clone().concat("_I");
                    state.set_measurement(key_i, Measurement { value: dp.value, unit: Unit::Amps });
                    let commanded = match state.get_valve_state(&mapping.text_id) {
                        Some(c) => c.commanded,
                        None => ValveState::Undetermined,
                    };
                    state.set_valve_state(mapping.text_id.clone(),
                        CompositeValveState { commanded, actual: est });
                },
                _ => {},
            }
        },
        _ => {
            let m = convert(mapping, dp.channel_type, dp.value);
            state.set_measurement(mapping.text_id.clone(), m);
        },
    }
}

/// Folds one datapoint over the whole mapping table.
fn apply_datapoint(
    state: &mut VehicleState,
    board_id: &String,
    dp: DataPoint,
    mappings: &Vec<NodeMapping>,
)
    requires
        old(state).wf(),
    ensures
        final(state).wf(),
        final(state)@ == spec_apply_mappings(old(state)@, board_id@, dp,
            mappings_view(mappings@)),
{
    let ghost msv = mappings_view(mappings@);
    let n = mappings.len();
    let mut j: usize = 0;
    while j < n
        invariant
            n == mappings@.len(),
            j <= n,
            msv == mappings_view(mappings@),
            state.wf(),
            state@ == spec_apply_mappings(old(state)@, board_id@, dp, msv.take(j as int)),
        decreases n - j,
    {
        apply_pair(state, board_id, dp, &mappings[j]);
        proof {
            assert(msv.take(j + 1).drop_last() =~= msv.take(j as int));
            assert(msv.take(j + 1).last() == mappings@[j as int]@);
        }
        j += 1;
    }
    proof {
        assert(msv.take(n as int) =~= msv);
    }
}

/// Folds a whole telemetry payload over the mapping table, in order.
fn apply_datapoints(
    state: &mut VehicleState,
    board_id: &String,
    dps: &Vec<DataPoint>,
    mappings: &Vec<NodeMapping>,
)
    requires
        old(state).wf(),
    ensures
        final(state).wf(),
        final(state)@ == spec_apply_datapoints(old(state)@, board_id@, dps@,
            mappings_view(mappings@)),
{
    let n = dps.len();
    let mut i: usize = 0;
    while i < n
        invariant
            n == dps@.len(),
            i <= n,
            state.wf(),
            state@ == spec_apply_datapoints(old(state)@, board_id@, dps@.take(i as int),
                mappings_view(mappings@)),
        decreases n - i,
    {
        apply_datapoint(state, board_id, dps[i], mappings);
        proof {
            assert(dps@.take(i + 1).drop_last() =~= dps@.take(i as int));
            assert(dps@.take(i + 1).last() == dps@[i as int]);
        }
        i += 1;
    }
    proof {
        assert(dps@.take(n as int) =~= dps@);
    }
}

/// An element-for-element copy of a telemetry payload.
fn copy_datapoints(dps: &Vec<DataPoint>) -> (r: Vec<DataPoint>)
    ensures
        r@ == dps@,
{
    let n = dps.len();
    let mut r: Vec<DataPoint> = Vec::new();
    let mut i: usize = 0;
    while i < n
        invariant
            n == dps@.len(),
            i <= n,
            r@ == dps@.take(i as int),
        decreases n - i,
    {
        r.push(dps[i]);
        proof {
            assert(dps@.take(i + 1).drop_last() =~= dps@.take(i as int));
        }
        i += 1;
    }
    proof {
        assert(dps@.take(n as int) =~= dps@);
    }
    r
}

/// Ingests one already-resolved board datagram into the vehicle state.
///
/// `board_id` is the identity re-derived from the sender's address, never
/// the one embedded in the payload. Telemetry datapoints are calibrated in
/// through the mapping table; attitude and battery-management payloads also
/// replace the matching sub-state. Identity datagrams and heartbeats change
/// nothing here.
pub fn ingest_message(
    state: &mut VehicleState,
    board_id: &String,
    message: &DataMessage,
    mappings: &Vec<NodeMapping>,
)
    requires
        old(state).wf(),
    ensures
        final(state).wf(),
        final(state)@ == spec_ingest_message(old(state)@, board_id@, message@,
            mappings_view(mappings@)),
{
    match message {
        DataMessage::Sam(_id, dps) => {
            apply_datapoints(state, board_id, dps, mappings);
        },
        DataMessage::Ahrs(_id, dps) => {
            apply_datapoints(state, board_id, dps, mappings);
            state.set_last_ahrs(copy_datapoints(dps));
        },
        DataMessage::Bms(_id, dp) => {
            apply_datapoint(state, board_id, *dp, mappings);
            state.set_last_bms(*dp);
        },
        DataMessage::Identity(_id) => {},
        DataMessage::FlightHeartbeat => {},
    }
}

} // verus!
