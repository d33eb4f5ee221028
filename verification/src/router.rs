//! The command router: translates actuation and abort requests from running
//! sequences or the ground link into board-addressed commands, and mutates
//! the commanded half of the valve state.
//!
//! Everything here returns a plan of addressed messages; the caller performs
//! the sends and may log the deliveries that fail. An unmapped valve id, or
//! a destination board that never handshook, skips that item and nothing
//! else.

use vstd::prelude::*;
use vstd::string::StrSliceExecFns;
use crate::assoc::{first_index, lemma_first_index};
use crate::comm::{Address, CompositeValveState, NodeMapping, NodeMappingV, SamControlMessage,
    SequenceDomainCommand, SequenceDomainCommandV, ValveState, mappings_view};
use crate::registry::{Devices, DeviceV, devices_view, has_dev, dev_index, DEVICE_COMMAND_PORT};
use crate::state::VehicleStateV;

verus! {

/// Whether `p` is a prefix of `s`.
pub open spec fn spec_has_prefix(s: Seq<char>, p: Seq<char>) -> bool {
    p.len() <= s.len() && s.take(p.len() as int) == p
}

/// Prefix test on the character level.
pub fn has_prefix(s: &String, p: &str) -> (r: bool)
    ensures
        r == spec_has_prefix(s@, p@),
{
    let sl: &str = s.as_str();
    let pn = p.unicode_len();
    let sn = sl.unicode_len();
    if pn > sn {
        proof {
            assert(!spec_has_prefix(s@, p@));
        }
        return false;
    }
    let mut i: usize = 0;
    while i < pn
        invariant
            pn == p@.len(),
            sn == s@.len(),
            pn <= sn,
            sl@ == s@,
            i <= pn,
            forall|j: int| 0 <= j < i ==> s@[j] == p@[j],
        decreases pn - i,
    {
        if sl.get_char(i) != p.get_char(i) {
            proof {
                assert(s@.take(pn as int)[i as int] != p@[i as int]);
            }
            return false;
        }
        i += 1;
    }
    proof {
        assert(s@.take(pn as int) =~= p@);
    }
    true
}

/// The normally-closed flag of a mapping; absent means normally closed.
pub open spec fn nc_or_true(m: NodeMappingV) -> bool {
    match m.normally_closed {
        Some(b) => b,
        None => true,
    }
}

/// The first mapping carrying a symbolic id, or `-1`.
pub open spec fn mapping_index(ms: Seq<NodeMappingV>, id: Seq<char>) -> int {
    first_index(ms, |m: NodeMappingV| m.text_id == id)
}

/// The views of a command batch.
pub open spec fn commands_view(s: Seq<SequenceDomainCommand>) -> Seq<SequenceDomainCommandV> {
    s.map(|i: int, c: SequenceDomainCommand| c@)
}

/// What routing one sequence-domain command does.
///
/// An actuation looks its valve's mapping up; with no mapping the command is
/// skipped whole. Otherwise the physical power line is energized exactly
/// when the requested closure differs from the normally-closed wiring, the
/// commanded half of the valve state is replaced (the actual half untouched,
/// Undetermined on first reference), and one command is addressed to the
/// mapping's board — none if that board never handshook. An abort only
/// raises the flag for the caller.
pub open spec fn spec_route_one(
    ds: Seq<DeviceV>,
    vs: VehicleStateV,
    ms: Seq<NodeMappingV>,
    cmd: SequenceDomainCommandV,
) -> (VehicleStateV, Seq<(Address, SamControlMessage)>, bool) {
    match cmd {
        SequenceDomainCommandV::Abort => (vs, Seq::empty(), true),
        SequenceDomainCommandV::ActuateValve { valve, state } => {
            let mi = mapping_index(ms, valve);
            if mi < 0 {
                (vs, Seq::empty(), false)
            } else {
                let m = ms[mi];
                let powered = (state == ValveState::Closed) != nc_or_true(m);
                let actual = if vs.valves.contains_key(valve) {
                    vs.valves[valve].actual
                } else {
                    ValveState::Undetermined
                };
                let vs2 = VehicleStateV {
                    readings: vs.readings,
                    valves: vs.valves.insert(valve,
                        CompositeValveState { commanded: state, actual }),
                    last_ahrs: vs.last_ahrs,
                    last_bms: vs.last_bms,
                };
                let sends: Seq<(Address, SamControlMessage)> = if has_dev(ds, m.board_id) {
                    seq![
                        (
                            Address {
                                ip: ds[dev_index(ds, m.board_id)].address.ip,
                                port: DEVICE_COMMAND_PORT,
                            },
                            SamControlMessage::ActuateValve { channel: m.channel, powered },
                        ),
                    ]
                } else {
                    Seq::empty()
                };
                (vs2, sends, false)
            }
        },
    }
}

/// A command batch folded through [`spec_route_one`], in order; the abort
/// flag is raised if any command asked for it.
pub open spec fn spec_route(
    ds: Seq<DeviceV>,
    vs: VehicleStateV,
    ms: Seq<NodeMappingV>,
    cmds: Seq<SequenceDomainCommandV>,
) -> (VehicleStateV, Seq<(Address, SamControlMessage)>, bool)
    decreases cmds.len(),
{
    if cmds.len() == 0 {
        (vs, Seq::empty(), false)
    } else {
        let prev = spec_route(ds, vs, ms, cmds.drop_last());
        let step = spec_route_one(ds, prev.0, ms, cmds.last());
        (step.0, prev.1 + step.1, prev.2 || step.2)
    }
}

/// Law: an ActuateValve command whose valve id has no mapping produces no
/// outbound board message, leaves the whole vehicle state — its valve map
/// included — unchanged, and requests no abort.
pub proof fn lemma_unmapped_valve_is_noop(
    ds: Seq<DeviceV>,
    vs: VehicleStateV,
    ms: Seq<NodeMappingV>,
    valve: Seq<char>,
    state: ValveState,
)
    requires
        forall|j: int| 0 <= j < ms.len() ==> ms[j].text_id != valve,
    ensures
        ({
            let r = spec_route_one(ds, vs, ms,
                SequenceDomainCommandV::ActuateValve { valve, state });
            &&& r.0 == vs
            &&& r.1 == Seq::<(Address, SamControlMessage)>::empty()
            &&& r.2 == false
        }),
{
    lemma_first_index(ms, |m: NodeMappingV| m.text_id == valve);
}

/// The first mapping for a symbolic id, by scan.
fn find_mapping<'a>(mappings: &'a Vec<NodeMapping>, id: &String) -> (r: Option<&'a NodeMapping>)
    ensures
        ({
            let mi = mapping_index(mappings_view(mappings@), id@);
            match r {
                Some(m) => mi >= 0 && m@ == mappings_view(mappings@)[mi],
                None => mi == -1,
            }
        }),
{
    let ghost msv = mappings_view(mappings@);
    let ghost pred = |m: NodeMappingV| m.text_id == id@;
    let n = mappings.len();
    let mut i: usize = 0;
    while i < n
        invariant
            n == mappings@.len(),
            i <= n,
            msv == mappings_view(mappings@),
            pred == (|m: NodeMappingV| m.text_id == id@),
            forall|j: int| 0 <= j < i ==> !pred(msv[j]),
        decreases n - i,
    {
        if mappings[i].text_id.eq(id) {
            proof {
                lemma_first_index(msv, pred);
                let fi = first_index(msv, pred);
                assert(pred(msv[i as int]));
                assert(fi != -1);
                assert(fi >= i);
                assert(fi <= i);
            }
            return Some(&mappings[i]);
        }
        i += 1;
    }
    proof {
        lemma_first_index(msv, pred);
    }
    None
}

/// The plan for one routed command batch: the board-addressed actuation
/// commands to send, and whether an abort was requested.
pub struct RoutePlan {
    pub sends: Vec<(Address, SamControlMessage)>,
    pub abort_requested: bool,
}

impl Devices {
    /// Routes a batch of sequence-domain commands: updates the commanded
    /// valve states and plans the board-addressed actuation commands, in
    /// order. The abort flag signals the caller to run the abort
    /// escalation; the router itself does not act on it.
    pub fn route_commands(
        &mut self,
        mappings: &Vec<NodeMapping>,
        commands: &Vec<SequenceDomainCommand>,
    ) -> (r: RoutePlan)
        requires
            old(self).wf(),
        ensures
            final(self).wf(),
            devices_view(final(self).devices@) == devices_view(old(self).devices@),
            ({
                let rr = spec_route(devices_view(old(self).devices@), old(self).state@,
                    mappings_view(mappings@), commands_view(commands@));
                &&& final(self).state@ == rr.0
                &&& r.sends@ == rr.1
                &&& r.abort_requested == rr.2
            }),
    {
        let ghost ds = devices_view(old(self).devices@);
        let ghost vs0 = old(self).state@;
        let ghost msv = mappings_view(mappings@);
        let ghost cv = commands_view(commands@);
        let mut sends: Vec<(Address, SamControlMessage)> = Vec::new();
        let mut abort_requested = false;
        let n = commands.len();
        let mut i: usize = 0;
        proof {
            assert(cv.take(0) =~= Seq::<SequenceDomainCommandV>::empty());
        }
        while i < n
            invariant
                self.wf(),
                n == commands@.len(),
                i <= n,
                ds == devices_view(old(self).devices@),
                vs0 == old(self).state@,
                msv == mappings_view(mappings@),
                cv == commands_view(commands@),
                devices_view(self.devices@) == ds,
                ({
                    let rr = spec_route(ds, vs0, msv, cv.take(i as int));
                    &&& self.state@ == rr.0
                    &&& sends@ == rr.1
                    &&& abort_requested == rr.2
                }),
            decreases n - i,
        {
            let ghost pre_vs = self.state@;
            let ghost pre_sends = sends@;
            match &commands[i] {
                SequenceDomainCommand::Abort => {
                    abort_requested = true;
                },
                SequenceDomainCommand::ActuateValve { valve, state } => {
                    match find_mapping(mappings, valve) {
                        None => {},
                        Some(mapping) => {
                            let closed = *state == ValveState::Closed;
                            let normally_closed = match mapping.normally_closed {
                                Some(b) => b,
                                None => true,
                            };
                            let powered = closed != normally_closed;
                            let actual = match self.state.get_valve_state(valve) {
                                Some(c) => c.actual,
                                None => ValveState::Undetermined,
                            };
                            self.state.set_valve_state(valve.clone(),
                                CompositeValveState { commanded: *state, actual });
                            match self.command_address(&mapping.board_id) {
                                Some(a) => {
                                    sends.push((a, SamControlMessage::ActuateValve {
                                        channel: mapping.channel,
                                        powered,
                                    }));
                                    proof {
                                        let step = spec_route_one(ds, pre_vs, msv,
                                            cv[i as int]);
                                        assert(sends@ =~= pre_sends + step.1);
                                    }
                                },
                                None => {},
                            }
                        },
                    }
                },
            }
            proof {
                let step = spec_route_one(ds, pre_vs, msv, cv[i as int]);
                assert(self.state@ == step.0);
                assert(sends@ =~= pre_sends + step.1);
                assert(cv.take(i + 1).drop_last() =~= cv.take(i as int));
                assert(cv.take(i + 1).last() == cv[i as int]);
            }
            i += 1;
        }
        proof {
            assert(cv.take(n as int) =~= cv);
        }
        RoutePlan { sends, abort_requested }
    }

    /// The command-port address of the first board whose identity starts
    /// with a prefix — how the single battery-management and attitude
    /// boards are found.
    pub fn first_command_target(&self, id_prefix: &str) -> (r: Option<Address>)
        ensures
            ({
                let ds = devices_view(self.devices@);
                let fi = first_index(ds, |d: DeviceV| spec_has_prefix(d.id, id_prefix@));
                match r {
                    Some(a) => fi >= 0
                        && a == (Address { ip: ds[fi].address.ip, port: DEVICE_COMMAND_PORT }),
                    None => fi == -1,
                }
            }),
    {
        let ghost ds = devices_view(self.devices@);
        let ghost pred = |d: DeviceV| spec_has_prefix(d.id, id_prefix@);
        let n = self.devices.len();
        let mut i: usize = 0;
        while i < n
            invariant
                n == self.devices@.len(),
                i <= n,
                ds == devices_view(self.devices@),
                pred == (|d: DeviceV| spec_has_prefix(d.id, id_prefix@)),
                forall|j: int| 0 <= j < i ==> !pred(ds[j]),
            decreases n - i,
        {
            if has_prefix(&self.devices[i].id, id_prefix) {
                proof {
                    lemma_first_index(ds, pred);
                    let fi = first_index(ds, pred);
                    assert(pred(ds[i as int]));
                    assert(fi != -1);
                    assert(fi >= i);
                    assert(fi <= i);
                }
                return Some(
                    Address { ip: self.devices[i].address.ip, port: DEVICE_COMMAND_PORT },
                );
            }
            i += 1;
        }
        proof {
            lemma_first_index(ds, pred);
        }
        None
    }

    /// The safing broadcast: the given command addressed to every
    /// sensor/actuator board, in registry order.
    pub fn safety_broadcast(&self, msg: SamControlMessage)
        -> (r: Vec<(Address, SamControlMessage)>)
        ensures
            r@ == spec_safety_broadcast(devices_view(self.devices@), msg),
    {
        let ghost ds = devices_view(self.devices@);
        let n = self.devices.len();
        let mut r: Vec<(Address, SamControlMessage)> = Vec::new();
        let mut i: usize = 0;
        while i < n
            invariant
                n == self.devices@.len(),
                i <= n,
                ds == devices_view(self.devices@),
                r@ == spec_safety_broadcast(ds.take(i as int), msg),
            decreases n - i,
        {
            if has_prefix(&self.devices[i].id, "sam") {
                r.push((
                    Address { ip: self.devices[i].address.ip, port: DEVICE_COMMAND_PORT },
                    msg,
                ));
            }
            proof {
                assert(ds.take(i + 1).drop_last() =~= ds.take(i as int));
                assert(ds.take(i + 1).last() == ds[i as int]);
            }
            i += 1;
        }
        proof {
            assert(ds.take(n as int) =~= ds);
        }
        r
    }
}

/// The sam-board broadcast plan: one copy of the command per board whose
/// identity starts with `sam`, at its command port, in registry order.
pub open spec fn spec_safety_broadcast(ds: Seq<DeviceV>, msg: SamControlMessage)
    -> Seq<(Address, SamControlMessage)>
    decreases ds.len(),
{
    if ds.len() == 0 {
        Seq::empty()
    } else {
        spec_safety_broadcast(ds.drop_last(), msg) + if spec_has_prefix(ds.last().id, "sam"@) {
            seq![
                (Address { ip: ds.last().address.ip, port: DEVICE_COMMAND_PORT }, msg),
            ]
        } else {
            Seq::empty()
        }
    }
}

} // verus!
