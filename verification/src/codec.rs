//! The wire protocol codec: the fixed message variant sets exchanged with
//! boards, the ground link, and local sequence processes, as byte strings.
//!
//! Every variant encodes as a one-byte tag followed by its fields; integers
//! are little-endian, strings and lists length-prefixed. Each decodable
//! message kind has a whole-buffer decoder that accepts exactly the
//! encodings (trailing bytes are malformed), and a proved round-trip law.

use vstd::prelude::*;
use crate::comm::{ChannelType, SensorType, ValveState, Unit, DataPoint, Measurement,
    CompositeValveState, NodeMapping, NodeMappingV, Sequence, SequenceV, DataMessage,
    DataMessageV, SequenceDomainCommand, SequenceDomainCommandV, FlightControlMessage,
    FlightControlMessageV, SamControlMessage, Computer, AhrsCommand, BmsCommand, Address,
    mappings_view};
use crate::state::VehicleState;
use crate::wire::{enc_u8, enc_u32, enc_u64, enc_i64, enc_bool, enc_str, enc_counted, enc_list,
    dec_u8, dec_u32, dec_i64, dec_bool, dec_str, dec_counted, dec_list, lemma_dec_u8_enc,
    lemma_dec_u32_enc, lemma_dec_i64_enc, lemma_dec_bool_enc, lemma_dec_str_enc,
    lemma_dec_counted_enc, lemma_subrange_split, lemma_enc_list_append,
    lemma_enc_list_singleton, write_u8, write_u32, write_u64, write_i64, write_bool, write_str,
    read_u8, read_u32, read_u64, read_i64, read_bool, read_str};

verus! {

// -------------------------------------------------------------- tag bytes

pub open spec fn channel_type_tag(ct: ChannelType) -> u8 {
    match ct {
        ChannelType::CurrentLoop => 0,
        ChannelType::ValveVoltage => 1,
        ChannelType::ValveCurrent => 2,
        ChannelType::RailVoltage => 3,
        ChannelType::RailCurrent => 4,
        ChannelType::Rtd => 5,
        ChannelType::Tc => 6,
        ChannelType::DifferentialSignal => 7,
    }
}

pub open spec fn channel_type_of_tag(t: u8) -> Option<ChannelType> {
    if t == 0 {
        Some(ChannelType::CurrentLoop)
    } else if t == 1 {
        Some(ChannelType::ValveVoltage)
    } else if t == 2 {
        Some(ChannelType::ValveCurrent)
    } else if t == 3 {
        Some(ChannelType::RailVoltage)
    } else if t == 4 {
        Some(ChannelType::RailCurrent)
    } else if t == 5 {
        Some(ChannelType::Rtd)
    } else if t == 6 {
        Some(ChannelType::Tc)
    } else if t == 7 {
        Some(ChannelType::DifferentialSignal)
    } else {
        None
    }
}

pub open spec fn sensor_type_tag(st: SensorType) -> u8 {
    match st {
        SensorType::RailVoltage => 0,
        SensorType::RailCurrent => 1,
        SensorType::Rtd => 2,
        SensorType::Tc => 3,
        SensorType::Pt => 4,
        SensorType::LoadCell => 5,
        SensorType::Valve => 6,
    }
}

pub open spec fn sensor_type_of_tag(t: u8) -> Option<SensorType> {
    if t == 0 {
        Some(SensorType::RailVoltage)
    } else if t == 1 {
        Some(SensorType::RailCurrent)
    } else if t == 2 {
        Some(SensorType::Rtd)
    } else if t == 3 {
        Some(SensorType::Tc)
    } else if t == 4 {
        Some(SensorType::Pt)
    } else if t == 5 {
        Some(SensorType::LoadCell)
    } else if t == 6 {
        Some(SensorType::Valve)
    } else {
        None
    }
}

pub open spec fn valve_state_tag(v: ValveState) -> u8 {
    match v {
        ValveState::Open => 0,
        ValveState::Closed => 1,
        ValveState::Fault => 2,
        ValveState::Disconnected => 3,
        ValveState::Undetermined => 4,
    }
}

pub open spec fn valve_state_of_tag(t: u8) -> Option<ValveState> {
    if t == 0 {
        Some(ValveState::Open)
    } else if t == 1 {
        Some(ValveState::Closed)
    } else if t == 2 {
        Some(ValveState::Fault)
    } else if t == 3 {
        Some(ValveState::Disconnected)
    } else if t == 4 {
        Some(ValveState::Undetermined)
    } else {
        None
    }
}

pub open spec fn unit_tag(u: Unit) -> u8 {
    match u {
        Unit::Volts => 0,
        Unit::Amps => 1,
        Unit::Kelvin => 2,
        Unit::Psi => 3,
        Unit::Pounds => 4,
    }
}

// ------------------------------------------------------ component encoders

pub open spec fn enc_channel_type(ct: ChannelType) -> Seq<u8> {
    enc_u8(channel_type_tag(ct))
}

pub open spec fn enc_sensor_type(st: SensorType) -> Seq<u8> {
    enc_u8(sensor_type_tag(st))
}

pub open spec fn enc_valve_state(v: ValveState) -> Seq<u8> {
    enc_u8(valve_state_tag(v))
}

pub open spec fn enc_datapoint(dp: DataPoint) -> Seq<u8> {
    enc_u32(dp.channel) + enc_channel_type(dp.channel_type) + enc_i64(dp.value)
}

pub open spec fn enc_opt_i64(o: Option<i64>) -> Seq<u8> {
    match o {
        None => enc_u8(0),
        Some(x) => enc_u8(1) + enc_i64(x),
    }
}

pub open spec fn enc_opt_bool(o: Option<bool>) -> Seq<u8> {
    match o {
        None => enc_u8(0),
        Some(x) => enc_u8(1) + enc_bool(x),
    }
}

pub open spec fn ct_encoder() -> spec_fn(ChannelType) -> Seq<u8> {
    |ct: ChannelType| enc_channel_type(ct)
}

pub open spec fn enc_mapping(m: NodeMappingV) -> Seq<u8> {
    enc_str(m.text_id) + enc_str(m.board_id) + enc_sensor_type(m.sensor_type)
        + enc_u32(m.channel) + enc_counted(m.channel_types, ct_encoder()) + enc_opt_i64(m.max)
        + enc_opt_i64(m.min) + enc_opt_i64(m.calibrated_offset)
        + enc_opt_i64(m.powered_threshold) + enc_opt_bool(m.normally_closed)
}

pub open spec fn enc_sequence(s: SequenceV) -> Seq<u8> {
    enc_str(s.name) + enc_str(s.script)
}

pub open spec fn dp_encoder() -> spec_fn(DataPoint) -> Seq<u8> {
    |dp: DataPoint| enc_datapoint(dp)
}

pub open spec fn mapping_encoder() -> spec_fn(NodeMappingV) -> Seq<u8> {
    |m: NodeMappingV| enc_mapping(m)
}

// ------------------------------------------------------ component decoders

pub open spec fn dec_channel_type(b: Seq<u8>, i: int) -> Option<(ChannelType, int)> {
    match dec_u8(b, i) {
        Some((t, j)) => match channel_type_of_tag(t) {
            Some(ct) => Some((ct, j)),
            None => None,
        },
        None => None,
    }
}

pub open spec fn dec_sensor_type(b: Seq<u8>, i: int) -> Option<(SensorType, int)> {
    match dec_u8(b, i) {
        Some((t, j)) => match sensor_type_of_tag(t) {
            Some(st) => Some((st, j)),
            None => None,
        },
        None => None,
    }
}

pub open spec fn dec_valve_state(b: Seq<u8>, i: int) -> Option<(ValveState, int)> {
    match dec_u8(b, i) {
        Some((t, j)) => match valve_state_of_tag(t) {
            Some(v) => Some((v, j)),
            None => None,
        },
        None => None,
    }
}

pub open spec fn dec_datapoint(b: Seq<u8>, i: int) -> Option<(DataPoint, int)> {
    match dec_u32(b, i) {
        Some((channel, j)) => match dec_channel_type(b, j) {
            Some((ct, k)) => match dec_i64(b, k) {
                Some((value, l)) => Some((
                    DataPoint { channel, channel_type: ct, value },
                    l,
                )),
                None => None,
            },
            None => None,
        },
        None => None,
    }
}

pub open spec fn dec_opt_i64(b: Seq<u8>, i: int) -> Option<(Option<i64>, int)> {
    match dec_u8(b, i) {
        Some((t, j)) => if t == 0 {
            Some((None, j))
        } else if t == 1 {
            match dec_i64(b, j) {
                Some((x, k)) => Some((Some(x), k)),
                None => None,
            }
        } else {
            None
        },
        None => None,
    }
}

pub open spec fn dec_opt_bool(b: Seq<u8>, i: int) -> Option<(Option<bool>, int)> {
    match dec_u8(b, i) {
        Some((t, j)) => if t == 0 {
            Some((None, j))
        } else if t == 1 {
            match dec_bool(b, j) {
                Some((x, k)) => Some((Some(x), k)),
                None => None,
            }
        } else {
            None
        },
        None => None,
    }
}

pub open spec fn ct_decoder() -> spec_fn(Seq<u8>, int) -> Option<(ChannelType, int)> {
    |b: Seq<u8>, i: int| dec_channel_type(b, i)
}

pub open spec fn dec_mapping(b: Seq<u8>, i: int) -> Option<(NodeMappingV, int)> {
    match dec_str(b, i) {
        Some((text_id, i1)) => match dec_str(b, i1) {
            Some((board_id, i2)) => match dec_sensor_type(b, i2) {
                Some((sensor_type, i3)) => match dec_u32(b, i3) {
                    Some((channel, i4)) => match dec_counted(b, i4, ct_decoder()) {
                        Some((channel_types, i5)) => match dec_opt_i64(b, i5) {
                            Some((max, i6)) => match dec_opt_i64(b, i6) {
                                Some((min, i7)) => match dec_opt_i64(b, i7) {
                                    Some((calibrated_offset, i8)) => match dec_opt_i64(b, i8) {
                                        Some((powered_threshold, i9)) => match dec_opt_bool(b,
                                            i9) {
                                            Some((normally_closed, i10)) => Some((
                                                NodeMappingV {
                                                    text_id,
                                                    board_id,
                                                    sensor_type,
                                                    channel,
                                                    channel_types,
                                                    max,
                                                    min,
                                                    calibrated_offset,
                                                    powered_threshold,
                                                    normally_closed,
                                                },
                                                i10,
                                            )),
                                            None => None,
                                        },
                                        None => None,
                                    },
                                    None => None,
                                },
                                None => None,
                            },
                            None => None,
                        },
                        None => None,
                    },
                    None => None,
                },
                None => None,
            },
            None => None,
        },
        None => None,
    }
}

pub open spec fn dec_sequence(b: Seq<u8>, i: int) -> Option<(SequenceV, int)> {
    match dec_str(b, i) {
        Some((name, j)) => match dec_str(b, j) {
            Some((script, k)) => Some((SequenceV { name, script }, k)),
            None => None,
        },
        None => None,
    }
}

pub open spec fn dp_decoder() -> spec_fn(Seq<u8>, int) -> Option<(DataPoint, int)> {
    |b: Seq<u8>, i: int| dec_datapoint(b, i)
}

pub open spec fn mapping_decoder() -> spec_fn(Seq<u8>, int) -> Option<(NodeMappingV, int)> {
    |b: Seq<u8>, i: int| dec_mapping(b, i)
}

// ---------------------------------------------------------- well-formedness

/// A string short enough for its length prefix. Every string held by an
/// executable value satisfies this.
pub open spec fn wf_str(s: Seq<char>) -> bool {
    s.len() <= u64::MAX
}

pub open spec fn wf_mapping(m: NodeMappingV) -> bool {
    wf_str(m.text_id) && wf_str(m.board_id) && m.channel_types.len() <= u64::MAX
}

pub open spec fn wf_sequence(s: SequenceV) -> bool {
    wf_str(s.name) && wf_str(s.script)
}

// ---------------------------------------------------- component round trips

pub proof fn lemma_dec_channel_type_enc(ct: ChannelType, b: Seq<u8>, i: int)
    requires
        0 <= i,
        i + 1 <= b.len(),
        b.subrange(i, i + 1) == enc_channel_type(ct),
    ensures
        dec_channel_type(b, i) == Some((ct, i + 1)),
{
    lemma_dec_u8_enc(channel_type_tag(ct), b, i);
}

pub proof fn lemma_dec_sensor_type_enc(st: SensorType, b: Seq<u8>, i: int)
    requires
        0 <= i,
        i + 1 <= b.len(),
        b.subrange(i, i + 1) == enc_sensor_type(st),
    ensures
        dec_sensor_type(b, i) == Some((st, i + 1)),
{
    lemma_dec_u8_enc(sensor_type_tag(st), b, i);
}

pub proof fn lemma_dec_valve_state_enc(v: ValveState, b: Seq<u8>, i: int)
    requires
        0 <= i,
        i + 1 <= b.len(),
        b.subrange(i, i + 1) == enc_valve_state(v),
    ensures
        dec_valve_state(b, i) == Some((v, i + 1)),
{
    lemma_dec_u8_enc(valve_state_tag(v), b, i);
}

pub proof fn lemma_dec_datapoint_enc(dp: DataPoint, b: Seq<u8>, i: int)
    requires
        0 <= i,
        i + enc_datapoint(dp).len() <= b.len(),
        b.subrange(i, i + enc_datapoint(dp).len()) == enc_datapoint(dp),
    ensures
        dec_datapoint(b, i) == Some((dp, i + enc_datapoint(dp).len())),
{
    let e1 = enc_u32(dp.channel);
    let e2 = enc_channel_type(dp.channel_type);
    let e3 = enc_i64(dp.value);
    assert(enc_datapoint(dp) == e1 + (e2 + e3));
    lemma_subrange_split(b, i, e1, e2 + e3);
    lemma_subrange_split(b, i + 4, e2, e3);
    lemma_dec_u32_enc(dp.channel, b, i);
    lemma_dec_channel_type_enc(dp.channel_type, b, i + 4);
    lemma_dec_i64_enc(dp.value, b, i + 5);
}

pub proof fn lemma_dec_opt_i64_enc(o: Option<i64>, b: Seq<u8>, i: int)
    requires
        0 <= i,
        i + enc_opt_i64(o).len() <= b.len(),
        b.subrange(i, i + enc_opt_i64(o).len()) == enc_opt_i64(o),
    ensures
        dec_opt_i64(b, i) == Some((o, i + enc_opt_i64(o).len())),
{
    match o {
        None => {
            lemma_dec_u8_enc(0, b, i);
        },
        Some(x) => {
            lemma_subrange_split(b, i, enc_u8(1), enc_i64(x));
            lemma_dec_u8_enc(1, b, i);
            lemma_dec_i64_enc(x, b, i + 1);
        },
    }
}

pub proof fn lemma_dec_opt_bool_enc(o: Option<bool>, b: Seq<u8>, i: int)
    requires
        0 <= i,
        i + enc_opt_bool(o).len() <= b.len(),
        b.subrange(i, i + enc_opt_bool(o).len()) == enc_opt_bool(o),
    ensures
        dec_opt_bool(b, i) == Some((o, i + enc_opt_bool(o).len())),
{
    match o {
        None => {
            lemma_dec_u8_enc(0, b, i);
        },
        Some(x) => {
            lemma_subrange_split(b, i, enc_u8(1), enc_bool(x));
            lemma_dec_u8_enc(1, b, i);
            lemma_dec_bool_enc(x, b, i + 1);
        },
    }
}

#[verifier::rlimit(80)]
pub proof fn lemma_dec_mapping_enc(m: NodeMappingV, b: Seq<u8>, i: int)
    requires
        0 <= i,
        wf_mapping(m),
        i + enc_mapping(m).len() <= b.len(),
        b.subrange(i, i + enc_mapping(m).len()) == enc_mapping(m),
    ensures
        dec_mapping(b, i) == Some((m, i + enc_mapping(m).len())),
{
    let e1 = enc_str(m.text_id);
    let e2 = enc_str(m.board_id);
    let e3 = enc_sensor_type(m.sensor_type);
    let e4 = enc_u32(m.channel);
    let e5 = enc_counted(m.channel_types, ct_encoder());
    let e6 = enc_opt_i64(m.max);
    let e7 = enc_opt_i64(m.min);
    let e8 = enc_opt_i64(m.calibrated_offset);
    let e9 = enc_opt_i64(m.powered_threshold);
    let e10 = enc_opt_bool(m.normally_closed);
    let i1 = i + e1.len();
    let i2 = i1 + e2.len();
    let i3 = i2 + e3.len();
    let i4 = i3 + e4.len();
    let i5 = i4 + e5.len();
    let i6 = i5 + e6.len();
    let i7 = i6 + e7.len();
    let i8 = i7 + e8.len();
    let i9 = i8 + e9.len();
    assert(enc_mapping(m) == e1 + (e2 + (e3 + (e4 + (e5 + (e6 + (e7 + (e8 + (e9 + e10)))))))))
        by {
        assert(enc_mapping(m) =~= e1 + (e2 + (e3 + (e4 + (e5 + (e6 + (e7 + (e8 + (e9
            + e10)))))))));
    }
    lemma_subrange_split(b, i, e1, e2 + (e3 + (e4 + (e5 + (e6 + (e7 + (e8 + (e9 + e10))))))));
    lemma_subrange_split(b, i1, e2, e3 + (e4 + (e5 + (e6 + (e7 + (e8 + (e9 + e10)))))));
    lemma_subrange_split(b, i2, e3, e4 + (e5 + (e6 + (e7 + (e8 + (e9 + e10))))));
    lemma_subrange_split(b, i3, e4, e5 + (e6 + (e7 + (e8 + (e9 + e10)))));
    lemma_subrange_split(b, i4, e5, e6 + (e7 + (e8 + (e9 + e10))));
    lemma_subrange_split(b, i5, e6, e7 + (e8 + (e9 + e10)));
    lemma_subrange_split(b, i6, e7, e8 + (e9 + e10));
    lemma_subrange_split(b, i7, e8, e9 + e10);
    lemma_subrange_split(b, i8, e9, e10);
    lemma_dec_str_enc(m.text_id, b, i);
    lemma_dec_str_enc(m.board_id, b, i1);
    lemma_dec_sensor_type_enc(m.sensor_type, b, i2);
    lemma_dec_u32_enc(m.channel, b, i3);
    assert forall|k: int, j: int|
        0 <= k < m.channel_types.len() && 0 <= j
            && j + ct_encoder()(m.channel_types[k]).len() <= b.len()
            && b.subrange(j, j + ct_encoder()(m.channel_types[k]).len())
                == ct_encoder()(m.channel_types[k])
        implies #[trigger] ct_decoder()(b, j)
            == Some((m.channel_types[k], j + #[trigger] ct_encoder()(m.channel_types[k]).len()))
        by {
        lemma_dec_channel_type_enc(m.channel_types[k], b, j);
    }
    lemma_dec_counted_enc(m.channel_types, ct_encoder(), ct_decoder(), b, i4);
    lemma_dec_opt_i64_enc(m.max, b, i5);
    lemma_dec_opt_i64_enc(m.min, b, i6);
    lemma_dec_opt_i64_enc(m.calibrated_offset, b, i7);
    lemma_dec_opt_i64_enc(m.powered_threshold, b, i8);
    lemma_dec_opt_bool_enc(m.normally_closed, b, i9);
}

pub proof fn lemma_dec_sequence_enc(s: SequenceV, b: Seq<u8>, i: int)
    requires
        0 <= i,
        wf_sequence(s),
        i + enc_sequence(s).len() <= b.len(),
        b.subrange(i, i + enc_sequence(s).len()) == enc_sequence(s),
    ensures
        dec_sequence(b, i) == Some((s, i + enc_sequence(s).len())),
{
    lemma_subrange_split(b, i, enc_str(s.name), enc_str(s.script));
    lemma_dec_str_enc(s.name, b, i);
    lemma_dec_str_enc(s.script, b, i + enc_str(s.name).len());
}

// ------------------------------------------------------- board datagrams

pub open spec fn enc_data_message(m: DataMessageV) -> Seq<u8> {
    match m {
        DataMessageV::Identity(s) => enc_u8(0) + enc_str(s),
        DataMessageV::Ahrs(id, dps) => enc_u8(1) + enc_str(id) + enc_counted(dps, dp_encoder()),
        DataMessageV::Bms(id, dp) => enc_u8(2) + enc_str(id) + enc_datapoint(dp),
        DataMessageV::Sam(id, dps) => enc_u8(3) + enc_str(id) + enc_counted(dps, dp_encoder()),
        DataMessageV::FlightHeartbeat => enc_u8(4),
    }
}

pub open spec fn dec_data_message_at(b: Seq<u8>, i: int) -> Option<(DataMessageV, int)> {
    match dec_u8(b, i) {
        Some((t, j)) => if t == 0 {
            match dec_str(b, j) {
                Some((s, k)) => Some((DataMessageV::Identity(s), k)),
                None => None,
            }
        } else if t == 1 {
            match dec_str(b, j) {
                Some((id, k)) => match dec_counted(b, k, dp_decoder()) {
                    Some((dps, l)) => Some((DataMessageV::Ahrs(id, dps), l)),
                    None => None,
                },
                None => None,
            }
        } else if t == 2 {
            match dec_str(b, j) {
                Some((id, k)) => match dec_datapoint(b, k) {
                    Some((dp, l)) => Some((DataMessageV::Bms(id, dp), l)),
                    None => None,
                },
                None => None,
            }
        } else if t == 3 {
            match dec_str(b, j) {
                Some((id, k)) => match dec_counted(b, k, dp_decoder()) {
                    Some((dps, l)) => Some((DataMessageV::Sam(id, dps), l)),
                    None => None,
                },
                None => None,
            }
        } else if t == 4 {
            Some((DataMessageV::FlightHeartbeat, j))
        } else {
            None
        },
        None => None,
    }
}

/// A whole datagram decodes as one message and nothing else: trailing
/// bytes are malformed.
pub open spec fn dec_data_message(b: Seq<u8>) -> Option<DataMessageV> {
    match dec_data_message_at(b, 0) {
        Some((m, j)) => if j == b.len() {
            Some(m)
        } else {
            None
        },
        None => None,
    }
}

pub open spec fn wf_data_message(m: DataMessageV) -> bool {
    match m {
        DataMessageV::Identity(s) => wf_str(s),
        DataMessageV::Ahrs(id, dps) => wf_str(id) && dps.len() <= u64::MAX,
        DataMessageV::Bms(id, _dp) => wf_str(id),
        DataMessageV::Sam(id, dps) => wf_str(id) && dps.len() <= u64::MAX,
        DataMessageV::FlightHeartbeat => true,
    }
}

proof fn lemma_dp_list_hypothesis(dps: Seq<DataPoint>, b: Seq<u8>)
    ensures
        forall|k: int, j: int|
            #![trigger dp_encoder()(dps[k]), dp_decoder()(b, j)]
            0 <= k < dps.len() && 0 <= j && j + dp_encoder()(dps[k]).len() <= b.len()
                && b.subrange(j, j + dp_encoder()(dps[k]).len()) == dp_encoder()(dps[k])
                ==> dp_decoder()(b, j) == Some((dps[k], j + dp_encoder()(dps[k]).len())),
{
    assert forall|k: int, j: int|
        0 <= k < dps.len() && 0 <= j && j + dp_encoder()(dps[k]).len() <= b.len()
            && b.subrange(j, j + dp_encoder()(dps[k]).len()) == dp_encoder()(dps[k])
        implies #[trigger] dp_decoder()(b, j)
            == Some((dps[k], j + #[trigger] dp_encoder()(dps[k]).len())) by {
        lemma_dec_datapoint_enc(dps[k], b, j);
    }
}

pub proof fn lemma_dec_data_message_at_enc(m: DataMessageV, b: Seq<u8>, i: int)
    requires
        0 <= i,
        wf_data_message(m),
        i + enc_data_message(m).len() <= b.len(),
        b.subrange(i, i + enc_data_message(m).len()) == enc_data_message(m),
    ensures
        dec_data_message_at(b, i) == Some((m, i + enc_data_message(m).len())),
{
    match m {
        DataMessageV::Identity(s) => {
            lemma_subrange_split(b, i, enc_u8(0), enc_str(s));
            lemma_dec_u8_enc(0, b, i);
            lemma_dec_str_enc(s, b, i + 1);
        },
        DataMessageV::Ahrs(id, dps) => {
            let e2 = enc_str(id);
            let e3 = enc_counted(dps, dp_encoder());
            assert(enc_data_message(m) =~= enc_u8(1) + (e2 + e3));
            lemma_subrange_split(b, i, enc_u8(1), e2 + e3);
            lemma_subrange_split(b, i + 1, e2, e3);
            lemma_dec_u8_enc(1, b, i);
            lemma_dec_str_enc(id, b, i + 1);
            lemma_dp_list_hypothesis(dps, b);
            lemma_dec_counted_enc(dps, dp_encoder(), dp_decoder(), b, i + 1 + e2.len());
        },
        DataMessageV::Bms(id, dp) => {
            let e2 = enc_str(id);
            let e3 = enc_datapoint(dp);
            assert(enc_data_message(m) =~= enc_u8(2) + (e2 + e3));
            lemma_subrange_split(b, i, enc_u8(2), e2 + e3);
            lemma_subrange_split(b, i + 1, e2, e3);
            lemma_dec_u8_enc(2, b, i);
            lemma_dec_str_enc(id, b, i + 1);
            lemma_dec_datapoint_enc(dp, b, i + 1 + e2.len());
        },
        DataMessageV::Sam(id, dps) => {
            let e2 = enc_str(id);
            let e3 = enc_counted(dps, dp_encoder());
            assert(enc_data_message(m) =~= enc_u8(3) + (e2 + e3));
            lemma_subrange_split(b, i, enc_u8(3), e2 + e3);
            lemma_subrange_split(b, i + 1, e2, e3);
            lemma_dec_u8_enc(3, b, i);
            lemma_dec_str_enc(id, b, i + 1);
            lemma_dp_list_hypothesis(dps, b);
            lemma_dec_counted_enc(dps, dp_encoder(), dp_decoder(), b, i + 1 + e2.len());
        },
        DataMessageV::FlightHeartbeat => {
            lemma_dec_u8_enc(4, b, i);
        },
    }
}

/// Law: decoding an encoded board datagram yields the message back.
pub proof fn lemma_data_message_roundtrip(m: DataMessageV)
    requires
        wf_data_message(m),
    ensures
        dec_data_message(enc_data_message(m)) == Some(m),
{
    let b = enc_data_message(m);
    assert(b.subrange(0, b.len() as int) =~= b);
    lemma_dec_data_message_at_enc(m, b, 0);
}

// ------------------------------------------------- local sequence commands

pub open spec fn enc_domain_command(c: SequenceDomainCommandV) -> Seq<u8> {
    match c {
        SequenceDomainCommandV::ActuateValve { valve, state } => enc_u8(0) + enc_str(valve)
            + enc_valve_state(state),
        SequenceDomainCommandV::Abort => enc_u8(1),
    }
}

pub open spec fn dec_domain_command_at(b: Seq<u8>, i: int) -> Option<(
    SequenceDomainCommandV,
    int,
)> {
    match dec_u8(b, i) {
        Some((t, j)) => if t == 0 {
            match dec_str(b, j) {
                Some((valve, k)) => match dec_valve_state(b, k) {
                    Some((state, l)) => Some((
                        SequenceDomainCommandV::ActuateValve { valve, state },
                        l,
                    )),
                    None => None,
                },
                None => None,
            }
        } else if t == 1 {
            Some((SequenceDomainCommandV::Abort, j))
        } else {
            None
        },
        None => None,
    }
}

pub open spec fn dec_domain_command(b: Seq<u8>) -> Option<SequenceDomainCommandV> {
    match dec_domain_command_at(b, 0) {
        Some((c, j)) => if j == b.len() {
            Some(c)
        } else {
            None
        },
        None => None,
    }
}

pub open spec fn wf_domain_command(c: SequenceDomainCommandV) -> bool {
    match c {
        SequenceDomainCommandV::ActuateValve { valve, state: _ } => wf_str(valve),
        SequenceDomainCommandV::Abort => true,
    }
}

pub proof fn lemma_dec_domain_command_at_enc(c: SequenceDomainCommandV, b: Seq<u8>, i: int)
    requires
        0 <= i,
        wf_domain_command(c),
        i + enc_domain_command(c).len() <= b.len(),
        b.subrange(i, i + enc_domain_command(c).len()) == enc_domain_command(c),
    ensures
        dec_domain_command_at(b, i) == Some((c, i + enc_domain_command(c).len())),
{
    match c {
        SequenceDomainCommandV::ActuateValve { valve, state } => {
            let e2 = enc_str(valve);
            let e3 = enc_valve_state(state);
            assert(enc_domain_command(c) =~= enc_u8(0) + (e2 + e3));
            lemma_subrange_split(b, i, enc_u8(0), e2 + e3);
            lemma_subrange_split(b, i + 1, e2, e3);
            lemma_dec_u8_enc(0, b, i);
            lemma_dec_str_enc(valve, b, i + 1);
            lemma_dec_valve_state_enc(state, b, i + 1 + e2.len());
        },
        SequenceDomainCommandV::Abort => {
            lemma_dec_u8_enc(1, b, i);
        },
    }
}

/// Law: decoding an encoded sequence-domain command yields it back.
pub proof fn lemma_domain_command_roundtrip(c: SequenceDomainCommandV)
    requires
        wf_domain_command(c),
    ensures
        dec_domain_command(enc_domain_command(c)) == Some(c),
{
    let b = enc_domain_command(c);
    assert(b.subrange(0, b.len() as int) =~= b);
    lemma_dec_domain_command_at_enc(c, b, 0);
}

// ------------------------------------------------- ground-link control

pub open spec fn enc_control_message(m: FlightControlMessageV) -> Seq<u8> {
    match m {
        FlightControlMessageV::Abort => enc_u8(0),
        FlightControlMessageV::AhrsCommand(c) => enc_u8(1) + enc_u32(c.code),
        FlightControlMessageV::BmsCommand(c) => enc_u8(2) + enc_u32(c.code),
        FlightControlMessageV::Trigger(s) => enc_u8(3) + enc_str(s),
        FlightControlMessageV::Mappings(ms) => enc_u8(4) + enc_counted(ms, mapping_encoder()),
        FlightControlMessageV::Sequence(s) => enc_u8(5) + enc_sequence(s),
        FlightControlMessageV::StopSequence(s) => enc_u8(6) + enc_str(s),
    }
}

pub open spec fn dec_control_message_at(b: Seq<u8>, i: int) -> Option<(
    FlightControlMessageV,
    int,
)> {
    match dec_u8(b, i) {
        Some((t, j)) => if t == 0 {
            Some((FlightControlMessageV::Abort, j))
        } else if t == 1 {
            match dec_u32(b, j) {
                Some((code, k)) => Some((
                    FlightControlMessageV::AhrsCommand(AhrsCommand { code }),
                    k,
                )),
                None => None,
            }
        } else if t == 2 {
            match dec_u32(b, j) {
                Some((code, k)) => Some((
                    FlightControlMessageV::BmsCommand(BmsCommand { code }),
                    k,
                )),
                None => None,
            }
        } else if t == 3 {
            match dec_str(b, j) {
                Some((s, k)) => Some((FlightControlMessageV::Trigger(s), k)),
                None => None,
            }
        } else if t == 4 {
            match dec_counted(b, j, mapping_decoder()) {
                Some((ms, k)) => Some((FlightControlMessageV::Mappings(ms), k)),
                None => None,
            }
        } else if t == 5 {
            match dec_sequence(b, j) {
                Some((s, k)) => Some((FlightControlMessageV::Sequence(s), k)),
                None => None,
            }
        } else if t == 6 {
            match dec_str(b, j) {
                Some((s, k)) => Some((FlightControlMessageV::StopSequence(s), k)),
                None => None,
            }
        } else {
            None
        },
        None => None,
    }
}

pub open spec fn dec_control_message(b: Seq<u8>) -> Option<FlightControlMessageV> {
    match dec_control_message_at(b, 0) {
        Some((m, j)) => if j == b.len() {
            Some(m)
        } else {
            None
        },
        None => None,
    }
}

pub open spec fn wf_control_message(m: FlightControlMessageV) -> bool {
    match m {
        FlightControlMessageV::Trigger(s) => wf_str(s),
        FlightControlMessageV::Mappings(ms) => ms.len() <= u64::MAX
            && forall|k: int| 0 <= k < ms.len() ==> wf_mapping(#[trigger] ms[k]),
        FlightControlMessageV::Sequence(s) => wf_sequence(s),
        FlightControlMessageV::StopSequence(s) => wf_str(s),
        _ => true,
    }
}

pub proof fn lemma_dec_control_message_at_enc(m: FlightControlMessageV, b: Seq<u8>, i: int)
    requires
        0 <= i,
        wf_control_message(m),
        i + enc_control_message(m).len() <= b.len(),
        b.subrange(i, i + enc_control_message(m).len()) == enc_control_message(m),
    ensures
        dec_control_message_at(b, i) == Some((m, i + enc_control_message(m).len())),
{
    match m {
        FlightControlMessageV::Abort => {
            lemma_dec_u8_enc(0, b, i);
        },
        FlightControlMessageV::AhrsCommand(c) => {
            lemma_subrange_split(b, i, enc_u8(1), enc_u32(c.code));
            lemma_dec_u8_enc(1, b, i);
            lemma_dec_u32_enc(c.code, b, i + 1);
        },
        FlightControlMessageV::BmsCommand(c) => {
            lemma_subrange_split(b, i, enc_u8(2), enc_u32(c.code));
            lemma_dec_u8_enc(2, b, i);
            lemma_dec_u32_enc(c.code, b, i + 1);
        },
        FlightControlMessageV::Trigger(s) => {
            lemma_subrange_split(b, i, enc_u8(3), enc_str(s));
            lemma_dec_u8_enc(3, b, i);
            lemma_dec_str_enc(s, b, i + 1);
        },
        FlightControlMessageV::Mappings(ms) => {
            lemma_subrange_split(b, i, enc_u8(4), enc_counted(ms, mapping_encoder()));
            lemma_dec_u8_enc(4, b, i);
            assert forall|k: int, j: int|
                0 <= k < ms.len() && 0 <= j && j + mapping_encoder()(ms[k]).len() <= b.len()
                    && b.subrange(j, j + mapping_encoder()(ms[k]).len())
                        == mapping_encoder()(ms[k])
                implies #[trigger] mapping_decoder()(b, j)
                    == Some((ms[k], j + #[trigger] mapping_encoder()(ms[k]).len())) by {
                lemma_dec_mapping_enc(ms[k], b, j);
            }
            lemma_dec_counted_enc(ms, mapping_encoder(), mapping_decoder(), b, i + 1);
        },
        FlightControlMessageV::Sequence(s) => {
            lemma_subrange_split(b, i, enc_u8(5), enc_sequence(s));
            lemma_dec_u8_enc(5, b, i);
            lemma_dec_sequence_enc(s, b, i + 1);
        },
        FlightControlMessageV::StopSequence(s) => {
            lemma_subrange_split(b, i, enc_u8(6), enc_str(s));
            lemma_dec_u8_enc(6, b, i);
            lemma_dec_str_enc(s, b, i + 1);
        },
    }
}

/// Law: decoding an encoded ground-link control message yields it back.
pub proof fn lemma_control_message_roundtrip(m: FlightControlMessageV)
    requires
        wf_control_message(m),
    ensures
        dec_control_message(enc_control_message(m)) == Some(m),
{
    let b = enc_control_message(m);
    assert(b.subrange(0, b.len() as int) =~= b);
    lemma_dec_control_message_at_enc(m, b, 0);
}

// ----------------------------------------- outbound-only encodings

pub open spec fn enc_measurement(m: Measurement) -> Seq<u8> {
    enc_i64(m.value) + enc_u8(unit_tag(m.unit))
}

pub open spec fn enc_composite(v: CompositeValveState) -> Seq<u8> {
    enc_u8(valve_state_tag(v.commanded)) + enc_u8(valve_state_tag(v.actual))
}

pub open spec fn enc_sam_control(m: SamControlMessage) -> Seq<u8> {
    match m {
        SamControlMessage::ActuateValve { channel, powered } => enc_u8(0) + enc_u32(channel)
            + enc_bool(powered),
        SamControlMessage::ClearSafetyChannel => enc_u8(1),
        SamControlMessage::SafeAllValves => enc_u8(2),
    }
}

pub open spec fn enc_computer(c: Computer) -> Seq<u8> {
    match c {
        Computer::Flight => enc_u8(0),
        Computer::Ground => enc_u8(1),
    }
}

pub open spec fn enc_ahrs_command(c: AhrsCommand) -> Seq<u8> {
    enc_u32(c.code)
}

pub open spec fn enc_bms_command(c: BmsCommand) -> Seq<u8> {
    enc_u32(c.code)
}

pub open spec fn enc_reading_pair(p: (Seq<char>, Measurement)) -> Seq<u8> {
    enc_str(p.0) + enc_measurement(p.1)
}

pub open spec fn reading_encoder() -> spec_fn((Seq<char>, Measurement)) -> Seq<u8> {
    |p: (Seq<char>, Measurement)| enc_reading_pair(p)
}

pub open spec fn enc_valve_pair(p: (Seq<char>, CompositeValveState)) -> Seq<u8> {
    enc_str(p.0) + enc_composite(p.1)
}

pub open spec fn valve_encoder() -> spec_fn((Seq<char>, CompositeValveState)) -> Seq<u8> {
    |p: (Seq<char>, CompositeValveState)| enc_valve_pair(p)
}

pub open spec fn enc_opt_datapoints(o: Option<Seq<DataPoint>>) -> Seq<u8> {
    match o {
        None => enc_u8(0),
        Some(dps) => enc_u8(1) + enc_counted(dps, dp_encoder()),
    }
}

pub open spec fn enc_opt_datapoint(o: Option<DataPoint>) -> Seq<u8> {
    match o {
        None => enc_u8(0),
        Some(dp) => enc_u8(1) + enc_datapoint(dp),
    }
}

pub open spec fn reading_pairs_view(s: Seq<(String, Measurement)>) -> Seq<(
    Seq<char>,
    Measurement,
)> {
    s.map(|i: int, p: (String, Measurement)| (p.0@, p.1))
}

pub open spec fn valve_pairs_view(s: Seq<(String, CompositeValveState)>) -> Seq<(
    Seq<char>,
    CompositeValveState,
)> {
    s.map(|i: int, p: (String, CompositeValveState)| (p.0@, p.1))
}

/// The telemetry snapshot pushed to the ground: the readings and valve
/// states in table order, then the attitude and battery sub-states.
pub open spec fn enc_vehicle_state(
    readings: Seq<(Seq<char>, Measurement)>,
    valves: Seq<(Seq<char>, CompositeValveState)>,
    last_ahrs: Option<Seq<DataPoint>>,
    last_bms: Option<DataPoint>,
) -> Seq<u8> {
    enc_counted(readings, reading_encoder()) + enc_counted(valves, valve_encoder())
        + enc_opt_datapoints(last_ahrs) + enc_opt_datapoint(last_bms)
}

// ------------------------------------------------------------- writers

fn write_channel_type(out: &mut Vec<u8>, ct: ChannelType)
    ensures
        final(out)@ == old(out)@ + enc_channel_type(ct),
{
    let t: u8 = match ct {
        ChannelType::CurrentLoop => 0,
        ChannelType::ValveVoltage => 1,
        ChannelType::ValveCurrent => 2,
        ChannelType::RailVoltage => 3,
        ChannelType::RailCurrent => 4,
        ChannelType::Rtd => 5,
        ChannelType::Tc => 6,
        ChannelType::DifferentialSignal => 7,
    };
    write_u8(out, t);
}

fn write_sensor_type(out: &mut Vec<u8>, st: SensorType)
    ensures
        final(out)@ == old(out)@ + enc_sensor_type(st),
{
    let t: u8 = match st {
        SensorType::RailVoltage => 0,
        SensorType::RailCurrent => 1,
        SensorType::Rtd => 2,
        SensorType::Tc => 3,
        SensorType::Pt => 4,
        SensorType::LoadCell => 5,
        SensorType::Valve => 6,
    };
    write_u8(out, t);
}

fn write_valve_state(out: &mut Vec<u8>, v: ValveState)
    ensures
        final(out)@ == old(out)@ + enc_valve_state(v),
{
    let t: u8 = match v {
        ValveState::Open => 0,
        ValveState::Closed => 1,
        ValveState::Fault => 2,
        ValveState::Disconnected => 3,
        ValveState::Undetermined => 4,
    };
    write_u8(out, t);
}

fn write_unit(out: &mut Vec<u8>, u: Unit)
    ensures
        final(out)@ == old(out)@ + enc_u8(unit_tag(u)),
{
    let t: u8 = match u {
        Unit::Volts => 0,
        Unit::Amps => 1,
        Unit::Kelvin => 2,
        Unit::Psi => 3,
        Unit::Pounds => 4,
    };
    write_u8(out, t);
}

fn write_datapoint(out: &mut Vec<u8>, dp: DataPoint)
    ensures
        final(out)@ == old(out)@ + enc_datapoint(dp),
{
    write_u32(out, dp.channel);
    write_channel_type(out, dp.channel_type);
    write_i64(out, dp.value);
    proof {
        assert(out@ =~= old(out)@ + enc_datapoint(dp));
    }
}

fn write_opt_i64(out: &mut Vec<u8>, o: Option<i64>)
    ensures
        final(out)@ == old(out)@ + enc_opt_i64(o),
{
    match o {
        None => {
            write_u8(out, 0);
        },
        Some(x) => {
            write_u8(out, 1);
            write_i64(out, x);
            proof {
                assert(out@ =~= old(out)@ + enc_opt_i64(o));
            }
        },
    }
}

fn write_opt_bool(out: &mut Vec<u8>, o: Option<bool>)
    ensures
        final(out)@ == old(out)@ + enc_opt_bool(o),
{
    match o {
        None => {
            write_u8(out, 0);
        },
        Some(x) => {
            write_u8(out, 1);
            write_bool(out, x);
            proof {
                assert(out@ =~= old(out)@ + enc_opt_bool(o));
            }
        },
    }
}

fn write_datapoints(out: &mut Vec<u8>, dps: &Vec<DataPoint>)
    ensures
        final(out)@ == old(out)@ + enc_counted(dps@, dp_encoder()),
{
    let n = dps.len();
    write_u64(out, n as u64);
    let mut i: usize = 0;
    proof {
        assert(enc_list(dps@.take(0), dp_encoder()) =~= Seq::<u8>::empty());
        assert(out@ =~= old(out)@ + enc_u64(n as u64) + enc_list(dps@.take(0), dp_encoder()));
    }
    while i < n
        invariant
            n == dps@.len(),
            i <= n,
            out@ == old(out)@ + enc_u64(n as u64) + enc_list(dps@.take(i as int), dp_encoder()),
        decreases n - i,
    {
        write_datapoint(out, dps[i]);
        proof {
            assert(dps@.take(i + 1) =~= dps@.take(i as int) + seq![dps@[i as int]]);
            lemma_enc_list_append(dps@.take(i as int), seq![dps@[i as int]], dp_encoder());
            lemma_enc_list_singleton(dps@[i as int], dp_encoder());
            assert(out@ =~= old(out)@ + enc_u64(n as u64) + enc_list(dps@.take(i + 1),
                dp_encoder()));
        }
        i += 1;
    }
    proof {
        assert(dps@.take(n as int) =~= dps@);
        assert(out@ =~= old(out)@ + enc_counted(dps@, dp_encoder()));
    }
}

fn write_mapping(out: &mut Vec<u8>, m: &NodeMapping)
    ensures
        final(out)@ == old(out)@ + enc_mapping(m@),
{
    write_str(out, &m.text_id);
    write_str(out, &m.board_id);
    write_sensor_type(out, m.sensor_type);
    write_u32(out, m.channel);
    let n = m.channel_types.len();
    write_u64(out, n as u64);
    let mut i: usize = 0;
    let ghost mid = out@;
    proof {
        assert(enc_list(m.channel_types@.take(0), ct_encoder()) =~= Seq::<u8>::empty());
    }
    while i < n
        invariant
            n == m.channel_types@.len(),
            i <= n,
            out@ == mid + enc_list(m.channel_types@.take(i as int), ct_encoder()),
        decreases n - i,
    {
        write_channel_type(out, m.channel_types[i]);
        proof {
            assert(m.channel_types@.take(i + 1) =~= m.channel_types@.take(i as int)
                + seq![m.channel_types@[i as int]]);
            lemma_enc_list_append(m.channel_types@.take(i as int),
                seq![m.channel_types@[i as int]], ct_encoder());
            lemma_enc_list_singleton(m.channel_types@[i as int], ct_encoder());
            assert(out@ =~= mid + enc_list(m.channel_types@.take(i + 1), ct_encoder()));
        }
        i += 1;
    }
    proof {
        assert(m.channel_types@.take(n as int) =~= m.channel_types@);
    }
    write_opt_i64(out, m.max);
    write_opt_i64(out, m.min);
    write_opt_i64(out, m.calibrated_offset);
    write_opt_i64(out, m.powered_threshold);
    write_opt_bool(out, m.normally_closed);
    proof {
        assert(out@ =~= old(out)@ + enc_mapping(m@));
    }
}

fn write_sequence(out: &mut Vec<u8>, s: &Sequence)
    ensures
        final(out)@ == old(out)@ + enc_sequence(s@),
{
    write_str(out, &s.name);
    write_str(out, &s.script);
    proof {
        assert(out@ =~= old(out)@ + enc_sequence(s@));
    }
}

// ------------------------------------------------------------- encoders

/// Encodes a board datagram.
pub fn encode_data_message(m: &DataMessage) -> (r: Vec<u8>)
    ensures
        r@ == enc_data_message(m@),
{
    let mut out: Vec<u8> = Vec::new();
    match m {
        DataMessage::Identity(s) => {
            write_u8(&mut out, 0);
            write_str(&mut out, s);
        },
        DataMessage::Ahrs(id, dps) => {
            write_u8(&mut out, 1);
            write_str(&mut out, id);
            write_datapoints(&mut out, dps);
        },
        DataMessage::Bms(id, dp) => {
            write_u8(&mut out, 2);
            write_str(&mut out, id);
            write_datapoint(&mut out, *dp);
        },
        DataMessage::Sam(id, dps) => {
            write_u8(&mut out, 3);
            write_str(&mut out, id);
            write_datapoints(&mut out, dps);
        },
        DataMessage::FlightHeartbeat => {
            write_u8(&mut out, 4);
        },
    }
    proof {
        assert(out@ =~= enc_data_message(m@));
    }
    out
}

/// Encodes a local sequence-domain command.
pub fn encode_domain_command(c: &SequenceDomainCommand) -> (r: Vec<u8>)
    ensures
        r@ == enc_domain_command(c@),
{
    let mut out: Vec<u8> = Vec::new();
    match c {
        SequenceDomainCommand::ActuateValve { valve, state } => {
            write_u8(&mut out, 0);
            write_str(&mut out, valve);
            write_valve_state(&mut out, *state);
        },
        SequenceDomainCommand::Abort => {
            write_u8(&mut out, 1);
        },
    }
    proof {
        assert(out@ =~= enc_domain_command(c@));
    }
    out
}

/// Encodes a ground-link control message.
pub fn encode_control_message(m: &FlightControlMessage) -> (r: Vec<u8>)
    ensures
        r@ == enc_control_message(m@),
{
    let mut out: Vec<u8> = Vec::new();
    match m {
        FlightControlMessage::Abort => {
            write_u8(&mut out, 0);
        },
        FlightControlMessage::AhrsCommand(c) => {
            write_u8(&mut out, 1);
            write_u32(&mut out, c.code);
        },
        FlightControlMessage::BmsCommand(c) => {
            write_u8(&mut out, 2);
            write_u32(&mut out, c.code);
        },
        FlightControlMessage::Trigger(s) => {
            write_u8(&mut out, 3);
            write_str(&mut out, s);
        },
        FlightControlMessage::Mappings(ms) => {
            write_u8(&mut out, 4);
            let n = ms.len();
            write_u64(&mut out, n as u64);
            let ghost mid = out@;
            let ghost msv = mappings_view(ms@);
            let mut i: usize = 0;
            proof {
                assert(enc_list(msv.take(0), mapping_encoder()) =~= Seq::<u8>::empty());
            }
            while i < n
                invariant
                    n == ms@.len(),
                    i <= n,
                    msv == mappings_view(ms@),
                    out@ == mid + enc_list(msv.take(i as int), mapping_encoder()),
                decreases n - i,
            {
                write_mapping(&mut out, &ms[i]);
                proof {
                    assert(msv.take(i + 1) =~= msv.take(i as int) + seq![msv[i as int]]);
                    lemma_enc_list_append(msv.take(i as int), seq![msv[i as int]],
                        mapping_encoder());
                    lemma_enc_list_singleton(msv[i as int], mapping_encoder());
                    assert(out@ =~= mid + enc_list(msv.take(i + 1), mapping_encoder()));
                }
                i += 1;
            }
            proof {
                assert(msv.take(n as int) =~= msv);
            }
        },
        FlightControlMessage::Sequence(s) => {
            write_u8(&mut out, 5);
            write_sequence(&mut out, s);
        },
        FlightControlMessage::StopSequence(s) => {
            write_u8(&mut out, 6);
            write_str(&mut out, s);
        },
    }
    proof {
        assert(out@ =~= enc_control_message(m@));
    }
    out
}

/// Encodes a board-addressed sensor/actuator command.
pub fn encode_sam_control(m: SamControlMessage) -> (r: Vec<u8>)
    ensures
        r@ == enc_sam_control(m),
{
    let mut out: Vec<u8> = Vec::new();
    match m {
        SamControlMessage::ActuateValve { channel, powered } => {
            write_u8(&mut out, 0);
            write_u32(&mut out, channel);
            write_bool(&mut out, powered);
        },
        SamControlMessage::ClearSafetyChannel => {
            write_u8(&mut out, 1);
        },
        SamControlMessage::SafeAllValves => {
            write_u8(&mut out, 2);
        },
    }
    proof {
        assert(out@ =~= enc_sam_control(m));
    }
    out
}

/// Encodes the one-shot endpoint tag sent on the ground link.
pub fn encode_computer(c: Computer) -> (r: Vec<u8>)
    ensures
        r@ == enc_computer(c),
{
    let mut out: Vec<u8> = Vec::new();
    match c {
        Computer::Flight => {
            write_u8(&mut out, 0);
        },
        Computer::Ground => {
            write_u8(&mut out, 1);
        },
    }
    proof {
        assert(out@ =~= enc_computer(c));
    }
    out
}

/// Encodes a command for the attitude board.
pub fn encode_ahrs_command(c: AhrsCommand) -> (r: Vec<u8>)
    ensures
        r@ == enc_ahrs_command(c),
{
    let mut out: Vec<u8> = Vec::new();
    write_u32(&mut out, c.code);
    proof {
        assert(out@ =~= enc_ahrs_command(c));
    }
    out
}

/// Encodes a command for the battery-management board.
pub fn encode_bms_command(c: BmsCommand) -> (r: Vec<u8>)
    ensures
        r@ == enc_bms_command(c),
{
    let mut out: Vec<u8> = Vec::new();
    write_u32(&mut out, c.code);
    proof {
        assert(out@ =~= enc_bms_command(c));
    }
    out
}

/// Encodes the vehicle-state snapshot for the telemetry push.
#[verifier::rlimit(80)]
pub fn encode_vehicle_state(vs: &VehicleState) -> (r: Vec<u8>)
    ensures
        r@ == enc_vehicle_state(reading_pairs_view(vs.sensor_readings@),
            valve_pairs_view(vs.valve_states@),
            match vs.last_ahrs {
                Some(dps) => Some(dps@),
                None => None,
            }, vs.last_bms),
{
    let mut out: Vec<u8> = Vec::new();
    let n = vs.sensor_readings.len();
    write_u64(&mut out, n as u64);
    let ghost rv = reading_pairs_view(vs.sensor_readings@);
    let mut i: usize = 0;
    proof {
        assert(enc_list(rv.take(0), reading_encoder()) =~= Seq::<u8>::empty());
    }
    while i < n
        invariant
            n == vs.sensor_readings@.len(),
            i <= n,
            rv == reading_pairs_view(vs.sensor_readings@),
            out@ == enc_u64(n as u64) + enc_list(rv.take(i as int), reading_encoder()),
        decreases n - i,
    {
        let p = &vs.sensor_readings[i];
        write_str(&mut out, &p.0);
        write_i64(&mut out, p.1.value);
        write_unit(&mut out, p.1.unit);
        proof {
            assert(rv.take(i + 1) =~= rv.take(i as int) + seq![rv[i as int]]);
            lemma_enc_list_append(rv.take(i as int), seq![rv[i as int]], reading_encoder());
            lemma_enc_list_singleton(rv[i as int], reading_encoder());
            assert(out@ =~= enc_u64(n as u64) + enc_list(rv.take(i + 1), reading_encoder()));
        }
        i += 1;
    }
    proof {
        assert(rv.take(n as int) =~= rv);
    }
    let ghost part1 = out@;
    let vn = vs.valve_states.len();
    write_u64(&mut out, vn as u64);
    let ghost vv = valve_pairs_view(vs.valve_states@);
    let ghost mid = out@;
    let mut j: usize = 0;
    proof {
        assert(enc_list(vv.take(0), valve_encoder()) =~= Seq::<u8>::empty());
    }
    while j < vn
        invariant
            vn == vs.valve_states@.len(),
            j <= vn,
            vv == valve_pairs_view(vs.valve_states@),
            mid == part1 + enc_u64(vn as u64),
            out@ == mid + enc_list(vv.take(j as int), valve_encoder()),
        decreases vn - j,
    {
        let p = &vs.valve_states[j];
        write_str(&mut out, &p.0);
        write_valve_state(&mut out, p.1.commanded);
        write_valve_state(&mut out, p.1.actual);
        proof {
            assert(vv.take(j + 1) =~= vv.take(j as int) + seq![vv[j as int]]);
            lemma_enc_list_append(vv.take(j as int), seq![vv[j as int]], valve_encoder());
            lemma_enc_list_singleton(vv[j as int], valve_encoder());
            assert(out@ =~= mid + enc_list(vv.take(j + 1), valve_encoder()));
        }
        j += 1;
    }
    proof {
        assert(vv.take(vn as int) =~= vv);
    }
    match &vs.last_ahrs {
        None => {
            write_u8(&mut out, 0);
        },
        Some(dps) => {
            write_u8(&mut out, 1);
            write_datapoints(&mut out, dps);
        },
    }
    match vs.last_bms {
        None => {
            write_u8(&mut out, 0);
        },
        Some(dp) => {
            write_u8(&mut out, 1);
            write_datapoint(&mut out, dp);
        },
    }
    proof {
        assert(out@ =~= enc_vehicle_state(rv, vv,
            match vs.last_ahrs {
                Some(dps) => Some(dps@),
                None => None,
            }, vs.last_bms));
    }
    out
}

// ------------------------------------------------------------- readers

fn read_channel_type(b: &Vec<u8>, i: usize) -> (r: Option<(ChannelType, usize)>)
    ensures
        match r {
            Some((v, j)) => dec_channel_type(b@, i as int) == Some((v, j as int)),
            None => dec_channel_type(b@, i as int) is None,
        },
{
    match read_u8(b, i) {
        Some((t, j)) => {
            let ct = if t == 0 {
                Some(ChannelType::CurrentLoop)
            } else if t == 1 {
                Some(ChannelType::ValveVoltage)
            } else if t == 2 {
                Some(ChannelType::ValveCurrent)
            } else if t == 3 {
                Some(ChannelType::RailVoltage)
            } else if t == 4 {
                Some(ChannelType::RailCurrent)
            } else if t == 5 {
                Some(ChannelType::Rtd)
            } else if t == 6 {
                Some(ChannelType::Tc)
            } else if t == 7 {
                Some(ChannelType::DifferentialSignal)
            } else {
                None
            };
            match ct {
                Some(v) => Some((v, j)),
                None => None,
            }
        },
        None => None,
    }
}

fn read_sensor_type(b: &Vec<u8>, i: usize) -> (r: Option<(SensorType, usize)>)
    ensures
        match r {
            Some((v, j)) => dec_sensor_type(b@, i as int) == Some((v, j as int)),
            None => dec_sensor_type(b@, i as int) is None,
        },
{
    match read_u8(b, i) {
        Some((t, j)) => {
            let st = if t == 0 {
                Some(SensorType::RailVoltage)
            } else if t == 1 {
                Some(SensorType::RailCurrent)
            } else if t == 2 {
                Some(SensorType::Rtd)
            } else if t == 3 {
                Some(SensorType::Tc)
            } else if t == 4 {
                Some(SensorType::Pt)
            } else if t == 5 {
                Some(SensorType::LoadCell)
            } else if t == 6 {
                Some(SensorType::Valve)
            } else {
                None
            };
            match st {
                Some(v) => Some((v, j)),
                None => None,
            }
        },
        None => None,
    }
}

fn read_valve_state(b: &Vec<u8>, i: usize) -> (r: Option<(ValveState, usize)>)
    ensures
        match r {
            Some((v, j)) => dec_valve_state(b@, i as int) == Some((v, j as int)),
            None => dec_valve_state(b@, i as int) is None,
        },
{
    match read_u8(b, i) {
        Some((t, j)) => {
            let vs = if t == 0 {
                Some(ValveState::Open)
            } else if t == 1 {
                Some(ValveState::Closed)
            } else if t == 2 {
                Some(ValveState::Fault)
            } else if t == 3 {
                Some(ValveState::Disconnected)
            } else if t == 4 {
                Some(ValveState::Undetermined)
            } else {
                None
            };
            match vs {
                Some(v) => Some((v, j)),
                None => None,
            }
        },
        None => None,
    }
}

fn read_datapoint(b: &Vec<u8>, i: usize) -> (r: Option<(DataPoint, usize)>)
    ensures
        match r {
            Some((v, j)) => dec_datapoint(b@, i as int) == Some((v, j as int)),
            None => dec_datapoint(b@, i as int) is None,
        },
{
    let (channel, i1) = match read_u32(b, i) {
        Some(p) => p,
        None => {
            return None;
        },
    };
    let (ct, i2) = match read_channel_type(b, i1) {
        Some(p) => p,
        None => {
            return None;
        },
    };
    let (value, i3) = match read_i64(b, i2) {
        Some(p) => p,
        None => {
            return None;
        },
    };
    Some((DataPoint { channel, channel_type: ct, value }, i3))
}

fn read_opt_i64(b: &Vec<u8>, i: usize) -> (r: Option<(Option<i64>, usize)>)
    ensures
        match r {
            Some((v, j)) => dec_opt_i64(b@, i as int) == Some((v, j as int)),
            None => dec_opt_i64(b@, i as int) is None,
        },
{
    match read_u8(b, i) {
        Some((t, j)) => {
            if t == 0 {
                Some((None, j))
            } else if t == 1 {
                match read_i64(b, j) {
                    Some((x, k)) => Some((Some(x), k)),
                    None => None,
                }
            } else {
                None
            }
        },
        None => None,
    }
}

fn read_opt_bool(b: &Vec<u8>, i: usize) -> (r: Option<(Option<bool>, usize)>)
    ensures
        match r {
            Some((v, j)) => dec_opt_bool(b@, i as int) == Some((v, j as int)),
            None => dec_opt_bool(b@, i as int) is None,
        },
{
    match read_u8(b, i) {
        Some((t, j)) => {
            if t == 0 {
                Some((None, j))
            } else if t == 1 {
                match read_bool(b, j) {
                    Some((x, k)) => Some((Some(x), k)),
                    None => None,
                }
            } else {
                None
            }
        },
        None => None,
    }
}

fn read_datapoints(b: &Vec<u8>, i: usize) -> (r: Option<(Vec<DataPoint>, usize)>)
    ensures
        match r {
            Some((v, j)) => dec_counted(b@, i as int, dp_decoder()) == Some((v@, j as int)),
            None => dec_counted(b@, i as int, dp_decoder()) is None,
        },
{
    let (n, start) = match read_u64(b, i) {
        Some(p) => p,
        None => {
            return None;
        },
    };
    let mut acc: Vec<DataPoint> = Vec::new();
    let mut cur: usize = start;
    let mut k: u64 = 0;
    while k < n
        invariant
            k <= n,
            cur <= b@.len(),
            dec_counted(b@, i as int, dp_decoder())
                == dec_list(b@, start as int, n as int, dp_decoder()),
            ({
                match dec_list(b@, cur as int, (n - k) as int, dp_decoder()) {
                    Some((t, e)) => dec_list(b@, start as int, n as int, dp_decoder())
                        == Some((acc@ + t, e)),
                    None => dec_list(b@, start as int, n as int, dp_decoder()) is None,
                }
            }),
        decreases n - k,
    {
        match read_datapoint(b, cur) {
            Some((dp, j)) => {
                proof {
                    let tail = dec_list(b@, j as int, (n - k - 1) as int, dp_decoder());
                    if tail is Some {
                        let (t2, e) = tail.unwrap();
                        assert(acc@ + (seq![dp] + t2) =~= acc@.push(dp) + t2);
                    }
                }
                acc.push(dp);
                cur = j;
            },
            None => {
                return None;
            },
        }
        k = k + 1;
    }
    proof {
        assert(dec_list(b@, cur as int, 0, dp_decoder())
            == Some((Seq::<DataPoint>::empty(), cur as int)));
        assert(acc@ + Seq::<DataPoint>::empty() =~= acc@);
    }
    Some((acc, cur))
}

fn read_channel_types(b: &Vec<u8>, i: usize) -> (r: Option<(Vec<ChannelType>, usize)>)
    ensures
        match r {
            Some((v, j)) => dec_counted(b@, i as int, ct_decoder()) == Some((v@, j as int)),
            None => dec_counted(b@, i as int, ct_decoder()) is None,
        },
{
    let (n, start) = match read_u64(b, i) {
        Some(p) => p,
        None => {
            return None;
        },
    };
    let mut acc: Vec<ChannelType> = Vec::new();
    let mut cur: usize = start;
    let mut k: u64 = 0;
    while k < n
        invariant
            k <= n,
            cur <= b@.len(),
            dec_counted(b@, i as int, ct_decoder())
                == dec_list(b@, start as int, n as int, ct_decoder()),
            ({
                match dec_list(b@, cur as int, (n - k) as int, ct_decoder()) {
                    Some((t, e)) => dec_list(b@, start as int, n as int, ct_decoder())
                        == Some((acc@ + t, e)),
                    None => dec_list(b@, start as int, n as int, ct_decoder()) is None,
                }
            }),
        decreases n - k,
    {
        match read_channel_type(b, cur) {
            Some((ct, j)) => {
                proof {
                    let tail = dec_list(b@, j as int, (n - k - 1) as int, ct_decoder());
                    if tail is Some {
                        let (t2, e) = tail.unwrap();
                        assert(acc@ + (seq![ct] + t2) =~= acc@.push(ct) + t2);
                    }
                }
                acc.push(ct);
                cur = j;
            },
            None => {
                return None;
            },
        }
        k = k + 1;
    }
    proof {
        assert(dec_list(b@, cur as int, 0, ct_decoder())
            == Some((Seq::<ChannelType>::empty(), cur as int)));
        assert(acc@ + Seq::<ChannelType>::empty() =~= acc@);
    }
    Some((acc, cur))
}

fn read_mapping(b: &Vec<u8>, i: usize) -> (r: Option<(NodeMapping, usize)>)
    ensures
        match r {
            Some((m, j)) => dec_mapping(b@, i as int) == Some((m@, j as int)),
            None => dec_mapping(b@, i as int) is None,
        },
{
    let (text_id, i1) = match read_str(b, i) {
        Some(p) => p,
        None => {
            return None;
        },
    };
    let (board_id, i2) = match read_str(b, i1) {
        Some(p) => p,
        None => {
            return None;
        },
    };
    let (sensor_type, i3) = match read_sensor_type(b, i2) {
        Some(p) => p,
        None => {
            return None;
        },
    };
    let (channel, i4) = match read_u32(b, i3) {
        Some(p) => p,
        None => {
            return None;
        },
    };
    let (channel_types, i5) = match read_channel_types(b, i4) {
        Some(p) => p,
        None => {
            return None;
        },
    };
    let (max, i6) = match read_opt_i64(b, i5) {
        Some(p) => p,
        None => {
            return None;
        },
    };
    let (min, i7) = match read_opt_i64(b, i6) {
        Some(p) => p,
        None => {
            return None;
        },
    };
    let (calibrated_offset, i8) = match read_opt_i64(b, i7) {
        Some(p) => p,
        None => {
            return None;
        },
    };
    let (powered_threshold, i9) = match read_opt_i64(b, i8) {
        Some(p) => p,
        None => {
            return None;
        },
    };
    let (normally_closed, i10) = match read_opt_bool(b, i9) {
        Some(p) => p,
        None => {
            return None;
        },
    };
    Some((
        NodeMapping {
            text_id,
            board_id,
            sensor_type,
            channel,
            channel_types,
            max,
            min,
            calibrated_offset,
            powered_threshold,
            normally_closed,
        },
        i10,
    ))
}

fn read_mappings(b: &Vec<u8>, i: usize) -> (r: Option<(Vec<NodeMapping>, usize)>)
    ensures
        match r {
            Some((v, j)) => dec_counted(b@, i as int, mapping_decoder())
                == Some((mappings_view(v@), j as int)),
            None => dec_counted(b@, i as int, mapping_decoder()) is None,
        },
{
    let (n, start) = match read_u64(b, i) {
        Some(p) => p,
        None => {
            return None;
        },
    };
    let mut acc: Vec<NodeMapping> = Vec::new();
    let mut cur: usize = start;
    let mut k: u64 = 0;
    while k < n
        invariant
            k <= n,
            cur <= b@.len(),
            dec_counted(b@, i as int, mapping_decoder())
                == dec_list(b@, start as int, n as int, mapping_decoder()),
            ({
                match dec_list(b@, cur as int, (n - k) as int, mapping_decoder()) {
                    Some((t, e)) => dec_list(b@, start as int, n as int, mapping_decoder())
                        == Some((mappings_view(acc@) + t, e)),
                    None => dec_list(b@, start as int, n as int, mapping_decoder()) is None,
                }
            }),
        decreases n - k,
    {
        match read_mapping(b, cur) {
            Some((m, j)) => {
                proof {
                    let tail = dec_list(b@, j as int, (n - k - 1) as int, mapping_decoder());
                    if tail is Some {
                        let (t2, e) = tail.unwrap();
                        assert(mappings_view(acc@.push(m)) =~= mappings_view(acc@)
                            + seq![m@]);
                        assert(mappings_view(acc@) + (seq![m@] + t2)
                            =~= mappings_view(acc@.push(m)) + t2);
                    }
                }
                acc.push(m);
                cur = j;
            },
            None => {
                return None;
            },
        }
        k = k + 1;
    }
    proof {
        assert(dec_list(b@, cur as int, 0, mapping_decoder())
            == Some((Seq::<NodeMappingV>::empty(), cur as int)));
        assert(mappings_view(acc@) + Seq::<NodeMappingV>::empty() =~= mappings_view(acc@));
    }
    Some((acc, cur))
}

fn read_sequence(b: &Vec<u8>, i: usize) -> (r: Option<(Sequence, usize)>)
    ensures
        match r {
            Some((s, j)) => dec_sequence(b@, i as int) == Some((s@, j as int)),
            None => dec_sequence(b@, i as int) is None,
        },
{
    let (name, j) = match read_str(b, i) {
        Some(p) => p,
        None => {
            return None;
        },
    };
    let (script, k) = match read_str(b, j) {
        Some(p) => p,
        None => {
            return None;
        },
    };
    Some((Sequence { name, script }, k))
}

// ------------------------------------------------------------- decoders

/// Decodes one whole board datagram; trailing bytes are malformed.
pub fn decode_data_message(b: &Vec<u8>) -> (r: Option<DataMessage>)
    ensures
        match r {
            Some(m) => dec_data_message(b@) == Some(m@),
            None => dec_data_message(b@) is None,
        },
{
    let (m, j) = match read_data_message(b, 0) {
        Some(p) => p,
        None => {
            return None;
        },
    };
    if j == b.len() {
        Some(m)
    } else {
        None
    }
}

fn read_data_message(b: &Vec<u8>, i: usize) -> (r: Option<(DataMessage, usize)>)
    ensures
        match r {
            Some((m, j)) => dec_data_message_at(b@, i as int) == Some((m@, j as int)),
            None => dec_data_message_at(b@, i as int) is None,
        },
{
    let (t, j) = match read_u8(b, i) {
        Some(p) => p,
        None => {
            return None;
        },
    };
    if t == 0 {
        match read_str(b, j) {
            Some((s, k)) => Some((DataMessage::Identity(s), k)),
            None => None,
        }
    } else if t == 1 {
        let (id, k) = match read_str(b, j) {
            Some(p) => p,
            None => {
                return None;
            },
        };
        match read_datapoints(b, k) {
            Some((dps, l)) => Some((DataMessage::Ahrs(id, dps), l)),
            None => None,
        }
    } else if t == 2 {
        let (id, k) = match read_str(b, j) {
            Some(p) => p,
            None => {
                return None;
            },
        };
        match read_datapoint(b, k) {
            Some((dp, l)) => Some((DataMessage::Bms(id, dp), l)),
            None => None,
        }
    } else if t == 3 {
        let (id, k) = match read_str(b, j) {
            Some(p) => p,
            None => {
                return None;
            },
        };
        match read_datapoints(b, k) {
            Some((dps, l)) => Some((DataMessage::Sam(id, dps), l)),
            None => None,
        }
    } else if t == 4 {
        Some((DataMessage::FlightHeartbeat, j))
    } else {
        None
    }
}

/// Decodes one whole local sequence-domain command.
pub fn decode_domain_command(b: &Vec<u8>) -> (r: Option<SequenceDomainCommand>)
    ensures
        match r {
            Some(c) => dec_domain_command(b@) == Some(c@),
            None => dec_domain_command(b@) is None,
        },
{
    let (t, j) = match read_u8(b, 0) {
        Some(p) => p,
        None => {
            return None;
        },
    };
    let (c, end): (SequenceDomainCommand, usize) = if t == 0 {
        let (valve, k) = match read_str(b, j) {
            Some(p) => p,
            None => {
                return None;
            },
        };
        let (state, l) = match read_valve_state(b, k) {
            Some(p) => p,
            None => {
                return None;
            },
        };
        (SequenceDomainCommand::ActuateValve { valve, state }, l)
    } else if t == 1 {
        (SequenceDomainCommand::Abort, j)
    } else {
        return None;
    };
    if end == b.len() {
        Some(c)
    } else {
        None
    }
}

/// Decodes one whole ground-link control message.
pub fn decode_control_message(b: &Vec<u8>) -> (r: Option<FlightControlMessage>)
    ensures
        match r {
            Some(m) => dec_control_message(b@) == Some(m@),
            None => dec_control_message(b@) is None,
        },
{
    let (t, j) = match read_u8(b, 0) {
        Some(p) => p,
        None => {
            return None;
        },
    };
    let (m, end): (FlightControlMessage, usize) = if t == 0 {
        (FlightControlMessage::Abort, j)
    } else if t == 1 {
        match read_u32(b, j) {
            Some((code, k)) => (FlightControlMessage::AhrsCommand(AhrsCommand { code }), k),
            None => {
                return None;
            },
        }
    } else if t == 2 {
        match read_u32(b, j) {
            Some((code, k)) => (FlightControlMessage::BmsCommand(BmsCommand { code }), k),
            None => {
                return None;
            },
        }
    } else if t == 3 {
        match read_str(b, j) {
            Some((s, k)) => (FlightControlMessage::Trigger(s), k),
            None => {
                return None;
            },
        }
    } else if t == 4 {
        match read_mappings(b, j) {
            Some((ms, k)) => (FlightControlMessage::Mappings(ms), k),
            None => {
                return None;
            },
        }
    } else if t == 5 {
        match read_sequence(b, j) {
            Some((s, k)) => (FlightControlMessage::Sequence(s), k),
            None => {
                return None;
            },
        }
    } else if t == 6 {
        match read_str(b, j) {
            Some((s, k)) => (FlightControlMessage::StopSequence(s), k),
            None => {
                return None;
            },
        }
    } else {
        return None;
    };
    if end == b.len() {
        Some(m)
    } else {
        None
    }
}

// ------------------------------------------------------------- batches

/// The views of a batch of raw datagrams.
pub open spec fn raw_view(s: Seq<(Address, Vec<u8>)>) -> Seq<(Address, Seq<u8>)> {
    s.map(|i: int, p: (Address, Vec<u8>)| (p.0, p.1@))
}

/// Decoding a batch keeps the decodable datagrams, in arrival order, and
/// discards the malformed ones.
pub open spec fn spec_decode_datagrams(s: Seq<(Address, Seq<u8>)>) -> Seq<(
    Address,
    DataMessageV,
)>
    decreases s.len(),
{
    if s.len() == 0 {
        Seq::empty()
    } else {
        spec_decode_datagrams(s.drop_last()) + match dec_data_message(s.last().1) {
            Some(m) => seq![(s.last().0, m)],
            None => Seq::empty(),
        }
    }
}

/// Decodes a batch of received board datagrams; malformed payloads are
/// dropped and everything else kept in order.
pub fn decode_datagrams(raw: &Vec<(Address, Vec<u8>)>) -> (r: Vec<(Address, DataMessage)>)
    ensures
        crate::registry::msgs_view(r@) == spec_decode_datagrams(raw_view(raw@)),
{
    let ghost rv = raw_view(raw@);
    let mut out: Vec<(Address, DataMessage)> = Vec::new();
    let n = raw.len();
    let mut i: usize = 0;
    proof {
        assert(rv.take(0) =~= Seq::<(Address, Seq<u8>)>::empty());
        assert(crate::registry::msgs_view(out@) =~= spec_decode_datagrams(rv.take(0)));
    }
    while i < n
        invariant
            n == raw@.len(),
            i <= n,
            rv == raw_view(raw@),
            crate::registry::msgs_view(out@) == spec_decode_datagrams(rv.take(i as int)),
        decreases n - i,
    {
        let item = &raw[i];
        let ghost pre = crate::registry::msgs_view(out@);
        match decode_data_message(&item.1) {
            Some(m) => {
                out.push((item.0, m));
                proof {
                    assert(crate::registry::msgs_view(out@) =~= pre
                        + seq![(item.0, m@)]);
                }
            },
            None => {},
        }
        proof {
            assert(rv.take(i + 1).drop_last() =~= rv.take(i as int));
            assert(rv.take(i + 1).last() == rv[i as int]);
            assert(crate::registry::msgs_view(out@)
                =~= spec_decode_datagrams(rv.take(i + 1)));
        }
        i += 1;
    }
    proof {
        assert(rv.take(n as int) =~= rv);
    }
    out
}

/// The views of a batch of raw command payloads.
pub open spec fn bufs_view(s: Seq<Vec<u8>>) -> Seq<Seq<u8>> {
    s.map(|i: int, p: Vec<u8>| p@)
}

/// Decoding a batch of local commands keeps the decodable ones, in order.
pub open spec fn spec_decode_domain_commands(s: Seq<Seq<u8>>) -> Seq<SequenceDomainCommandV>
    decreases s.len(),
{
    if s.len() == 0 {
        Seq::empty()
    } else {
        spec_decode_domain_commands(s.drop_last()) + match dec_domain_command(s.last()) {
            Some(c) => seq![c],
            None => Seq::empty(),
        }
    }
}

/// Decodes a batch of local sequence-command payloads; malformed payloads
/// are dropped and everything else kept in order.
pub fn decode_domain_commands(raw: &Vec<Vec<u8>>) -> (r: Vec<SequenceDomainCommand>)
    ensures
        crate::router::commands_view(r@) == spec_decode_domain_commands(bufs_view(raw@)),
{
    let ghost rv = bufs_view(raw@);
    let mut out: Vec<SequenceDomainCommand> = Vec::new();
    let n = raw.len();
    let mut i: usize = 0;
    proof {
        assert(rv.take(0) =~= Seq::<Seq<u8>>::empty());
        assert(crate::router::commands_view(out@)
            =~= spec_decode_domain_commands(rv.take(0)));
    }
    while i < n
        invariant
            n == raw@.len(),
            i <= n,
            rv == bufs_view(raw@),
            crate::router::commands_view(out@)
                == spec_decode_domain_commands(rv.take(i as int)),
        decreases n - i,
    {
        let ghost pre = crate::router::commands_view(out@);
        match decode_domain_command(&raw[i]) {
            Some(c) => {
                let ghost cv = c@;
                out.push(c);
                proof {
                    assert(crate::router::commands_view(out@) =~= pre + seq![cv]);
                }
            },
            None => {},
        }
        proof {
            assert(rv.take(i + 1).drop_last() =~= rv.take(i as int));
            assert(rv.take(i + 1).last() == rv[i as int]);
            assert(crate::router::commands_view(out@)
                =~= spec_decode_domain_commands(rv.take(i + 1)));
        }
        i += 1;
    }
    proof {
        assert(rv.take(n as int) =~= rv);
    }
    out
}

} // verus!
