//! The sequence supervisor: tracks named automation processes, enforces at
//! most one running instance per name, and plans the abort escalation.
//!
//! Processes live outside this crate; they appear here as opaque handles.
//! The supervisor takes poll outcomes as inputs and returns decisions and
//! plans; the caller spawns, polls and terminates, and records what it
//! spawned.

use vstd::prelude::*;
use vstd::string::{StringExecFns, StrSliceExecFns};
use crate::assoc::{assoc_map, keys_unique, assoc_get, assoc_set};
use crate::comm::{NodeMapping, NodeMappingV, Sequence, SequenceV, SensorType, mappings_view};

verus! {

/// What a poll of a recorded process reported.
#[derive(Clone, Copy, PartialEq, Eq, Structural, Debug)]
pub enum PollStatus {
    Running,
    Exited,
    Unknown,
}

/// What to do with a request to execute a named sequence.
#[derive(Clone, Copy, PartialEq, Eq, Structural, Debug)]
pub enum ExecDecision {
    Spawn,
    AlreadyRunning,
    StatusUnknown,
}

/// The execution rule: spawn when nothing is recorded under the name or the
/// recorded process has exited; refuse while it still runs; refuse, too,
/// when its status cannot be determined.
pub open spec fn spec_decide_execute(status: Option<PollStatus>) -> ExecDecision {
    match status {
        None => ExecDecision::Spawn,
        Some(PollStatus::Exited) => ExecDecision::Spawn,
        Some(PollStatus::Running) => ExecDecision::AlreadyRunning,
        Some(PollStatus::Unknown) => ExecDecision::StatusUnknown,
    }
}

/// Decides a request to execute a sequence, from the poll outcome of
/// whatever is recorded under its name (`None`: nothing is).
///
/// Only a `Spawn` decision leads to a spawn and a [`Supervisor::record`];
/// on the other decisions the caller leaves the table untouched.
pub fn decide_execute(status: Option<PollStatus>) -> (r: ExecDecision)
    ensures
        r == spec_decide_execute(status),
{
    match status {
        None => ExecDecision::Spawn,
        Some(PollStatus::Exited) => ExecDecision::Spawn,
        Some(PollStatus::Running) => ExecDecision::AlreadyRunning,
        Some(PollStatus::Unknown) => ExecDecision::StatusUnknown,
    }
}

/// The termination rule: nothing recorded, or already exited, is a no-op;
/// a process still running — or one whose status cannot be determined — is
/// terminated. The entry is not removed either way.
pub open spec fn spec_kill_target(entry: Option<u64>, status: PollStatus) -> Option<u64> {
    match entry {
        None => None,
        Some(h) => if status == PollStatus::Exited {
            None
        } else {
            Some(h)
        },
    }
}

/// Decides a request to stop a sequence: the handle to terminate, if any.
pub fn kill_target(entry: Option<u64>, status: PollStatus) -> (r: Option<u64>)
    ensures
        r == spec_kill_target(entry, status),
{
    match entry {
        None => None,
        Some(h) => if status == PollStatus::Exited {
            None
        } else {
            Some(h)
        },
    }
}

/// The handles of every recorded slot, in table order.
pub open spec fn spec_handles(s: Seq<(String, u64)>) -> Seq<u64> {
    s.map(|i: int, p: (String, u64)| p.1)
}

/// One binding statement injected ahead of a user script: a `Valve` for
/// valve-typed mappings, a `Sensor` otherwise.
pub open spec fn spec_binding(m: NodeMappingV) -> Seq<char> {
    if m.sensor_type == SensorType::Valve {
        m.text_id + " = Valve('"@ + m.text_id + "');"@
    } else {
        m.text_id + " = Sensor('"@ + m.text_id + "');"@
    }
}

/// The binding statements of a whole mapping table, in order.
pub open spec fn spec_bindings(ms: Seq<NodeMappingV>) -> Seq<char>
    decreases ms.len(),
{
    if ms.len() == 0 {
        Seq::empty()
    } else {
        spec_bindings(ms.drop_last()) + spec_binding(ms.last())
    }
}

/// The full text handed to the script interpreter: the library import, one
/// binding per mapping, then the user script verbatim.
pub open spec fn spec_script(ms: Seq<NodeMappingV>, s: SequenceV) -> Seq<char> {
    "from sequences import *;"@ + spec_bindings(ms) + s.script
}

/// Composes the interpreter input for a sequence: the import line, one
/// binding statement per mapping, then the user script body verbatim.
pub fn build_script(mappings: &Vec<NodeMapping>, sequence: &Sequence) -> (r: String)
    ensures
        r@ == spec_script(mappings_view(mappings@), sequence@),
{
    let ghost msv = mappings_view(mappings@);
    let mut script = String::from_str("from sequences import *;");
    let n = mappings.len();
    let mut i: usize = 0;
    proof {
        assert(spec_bindings(msv.take(0)) =~= Seq::<char>::empty());
        assert(script@ =~= "from sequences import *;"@ + spec_bindings(msv.take(0)));
    }
    while i < n
        invariant
            n == mappings@.len(),
            i <= n,
            msv == mappings_view(mappings@),
            script@ == "from sequences import *;"@ + spec_bindings(msv.take(i as int)),
        decreases n - i,
    {
        let m = &mappings[i];
        script.append(m.text_id.as_str());
        match m.sensor_type {
            SensorType::Valve => {
                script.append(" = Valve('");
            },
            _ => {
                script.append(" = Sensor('");
            },
        }
        script.append(m.text_id.as_str());
        script.append("');");
        proof {
            assert(msv.take(i + 1).drop_last() =~= msv.take(i as int));
            assert(msv.take(i + 1).last() == msv[i as int]);
            assert(script@ =~= "from sequences import *;"@ + spec_bindings(msv.take(i + 1)));
        }
        i += 1;
    }
    script.append(sequence.script.as_str());
    proof {
        assert(msv.take(n as int) =~= msv);
        assert(script@ =~= spec_script(msv, sequence@));
    }
    script
}

/// The plan an abort escalation leaves behind: every tracked process to
/// terminate, and — only if an abort sequence was registered — the name and
/// composed script of the process to spawn in their place.
pub struct AbortPlan {
    pub kills: Vec<u64>,
    pub spawn: Option<(String, String)>,
}

/// The table of named automation processes, keyed by sequence name.
pub struct Supervisor {
    pub slots: Vec<(String, u64)>,
}

impl View for Supervisor {
    type V = Map<Seq<char>, u64>;

    open spec fn view(&self) -> Map<Seq<char>, u64> {
        assoc_map(self.slots@)
    }
}

impl Supervisor {
    /// Each name at most once.
    pub open spec fn wf(&self) -> bool {
        keys_unique(self.slots@)
    }

    /// An empty table.
    pub fn new() -> (r: Supervisor)
        ensures
            r.wf(),
            r@ == Map::<Seq<char>, u64>::empty(),
            r.slots@.len() == 0,
    {
        Supervisor { slots: Vec::new() }
    }

    /// The handle recorded under a name, if any.
    pub fn handle_of(&self, name: &String) -> (r: Option<u64>)
        requires
            self.wf(),
        ensures
            match r {
                Some(h) => self@.contains_key(name@) && self@[name@] == h,
                None => !self@.contains_key(name@),
            },
    {
        assoc_get(&self.slots, name)
    }

    /// Records a spawned process under a name, replacing any finished
    /// process previously recorded there.
    pub fn record(&mut self, name: String, handle: u64)
        requires
            old(self).wf(),
        ensures
            final(self).wf(),
            final(self)@ == old(self)@.insert(name@, handle),
    {
        assoc_set(&mut self.slots, name, handle);
    }

    /// Plans the abort escalation: every tracked process is terminated and
    /// forgotten, and only a previously registered abort sequence — if any —
    /// is spawned in their place. With none registered the table is simply
    /// left empty, and nothing new starts.
    pub fn plan_abort(
        &mut self,
        mappings: &Vec<NodeMapping>,
        abort_sequence: &Option<Sequence>,
    ) -> (r: AbortPlan)
        requires
            old(self).wf(),
        ensures
            final(self).wf(),
            final(self).slots@.len() == 0,
            final(self)@ == Map::<Seq<char>, u64>::empty(),
            r.kills@ == spec_handles(old(self).slots@),
            match abort_sequence {
                None => r.spawn is None,
                Some(s) => r.spawn matches Some((name, script)) && name@ == s.name@
                    && script@ == spec_script(mappings_view(mappings@), s@),
            },
    {
        let ghost slots0 = self.slots@;
        let mut kills: Vec<u64> = Vec::new();
        let n = self.slots.len();
        let mut i: usize = 0;
        while i < n
            invariant
                n == self.slots@.len(),
                i <= n,
                slots0 == self.slots@,
                kills@ == spec_handles(slots0.take(i as int)),
            decreases n - i,
        {
            kills.push(self.slots[i].1);
            proof {
                assert(spec_handles(slots0.take(i + 1))
                    =~= spec_handles(slots0.take(i as int)).push(slots0[i as int].1));
            }
            i += 1;
        }
        proof {
            assert(slots0.take(n as int) =~= slots0);
        }
        self.slots = Vec::new();
        proof {
            assert(self@ =~= Map::<Seq<char>, u64>::empty());
        }
        let spawn = match abort_sequence {
            None => None,
            Some(s) => Some((s.name.clone(), build_script(mappings, s))),
        };
        AbortPlan { kills, spawn }
    }
}

/// Law: at most one instance per name. While the process recorded under a
/// name still runs, a second execution request is refused — the caller
/// changes nothing, so the table keeps its single entry for that name — and
/// once it has exited, a third request is allowed and recording the new
/// process replaces the finished one without adding an entry.
pub proof fn lemma_single_instance(table: Map<Seq<char>, u64>, name: Seq<char>, h2: u64)
    requires
        table.contains_key(name),
    ensures
        spec_decide_execute(Some(PollStatus::Running)) == ExecDecision::AlreadyRunning,
        spec_decide_execute(Some(PollStatus::Exited)) == ExecDecision::Spawn,
        table.insert(name, h2)[name] == h2,
        table.insert(name, h2).dom() == table.dom(),
{
    assert(table.insert(name, h2).dom() =~= table.dom());
}

} // verus!
