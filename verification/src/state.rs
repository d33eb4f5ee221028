//! The aggregated vehicle state: calibrated sensor readings by symbolic id,
//! composite valve states by valve id, and the last-known attitude and
//! battery-management telemetry.
//!
//! Owned exclusively by the board registry; mutated only by the calibration
//! engine and the command router, read by the ground-link push and the
//! state-publication boundary.

use vstd::prelude::*;
use crate::assoc::{assoc_map, keys_unique, assoc_get, assoc_set, lemma_assoc_dom_len};
use crate::comm::{Measurement, CompositeValveState, DataPoint};

verus! {

/// Mathematical model of the vehicle state.
pub struct VehicleStateV {
    pub readings: Map<Seq<char>, Measurement>,
    pub valves: Map<Seq<char>, CompositeValveState>,
    pub last_ahrs: Option<Seq<DataPoint>>,
    pub last_bms: Option<DataPoint>,
}

/// The aggregate vehicle state. Readings and valve states are last-write-wins
/// per id.
pub struct VehicleState {
    pub sensor_readings: Vec<(String, Measurement)>,
    pub valve_states: Vec<(String, CompositeValveState)>,
    pub last_ahrs: Option<Vec<DataPoint>>,
    pub last_bms: Option<DataPoint>,
}

impl View for VehicleState {
    type V = VehicleStateV;

    open spec fn view(&self) -> VehicleStateV {
        VehicleStateV {
            readings: assoc_map(self.sensor_readings@),
            valves: assoc_map(self.valve_states@),
            last_ahrs: match self.last_ahrs {
                Some(dps) => Some(dps@),
                None => None,
            },
            last_bms: self.last_bms,
        }
    }
}

impl VehicleState {
    /// Both indices carry each id at most once.
    pub open spec fn wf(&self) -> bool {
        keys_unique(self.sensor_readings@) && keys_unique(self.valve_states@)
    }

    /// An empty state: nothing measured, no valves referenced, no sub-states.
    pub fn new() -> (r: VehicleState)
        ensures
            r.wf(),
            r@.readings == Map::<Seq<char>, Measurement>::empty(),
            r@.valves == Map::<Seq<char>, CompositeValveState>::empty(),
            r@.last_ahrs is None,
            r@.last_bms is None,
    {
        VehicleState {
            sensor_readings: Vec::new(),
            valve_states: Vec::new(),
            last_ahrs: None,
            last_bms: None,
        }
    }

    /// The calibrated measurement last stored under an id, if any.
    pub fn get_measurement(&self, id: &String) -> (r: Option<Measurement>)
        requires
            self.wf(),
        ensures
            match r {
                Some(m) => self@.readings.contains_key(id@) && self@.readings[id@] == m,
                None => !self@.readings.contains_key(id@),
            },
    {
        assoc_get(&self.sensor_readings, id)
    }

    /// The composite state last stored under a valve id, if any.
    pub fn get_valve_state(&self, id: &String) -> (r: Option<CompositeValveState>)
        requires
            self.wf(),
        ensures
            match r {
                Some(v) => self@.valves.contains_key(id@) && self@.valves[id@] == v,
                None => !self@.valves.contains_key(id@),
            },
    {
        assoc_get(&self.valve_states, id)
    }

    /// How many valves have ever been referenced.
    pub fn valve_count(&self) -> (r: usize)
        requires
            self.wf(),
        ensures
            self@.valves.dom().finite(),
            r == self@.valves.dom().len(),
    {
        proof {
            lemma_assoc_dom_len(self.valve_states@);
        }
        self.valve_states.len()
    }

    /// Stores a measurement under an id, replacing any prior one.
    pub fn set_measurement(&mut self, id: String, m: Measurement)
        requires
            old(self).wf(),
        ensures
            final(self).wf(),
            final(self)@.readings == old(self)@.readings.insert(id@, m),
            final(self)@.valves == old(self)@.valves,
            final(self)@.last_ahrs == old(self)@.last_ahrs,
            final(self)@.last_bms == old(self)@.last_bms,
    {
        assoc_set(&mut self.sensor_readings, id, m);
    }

    /// Stores a composite valve state under an id, replacing any prior one.
    pub fn set_valve_state(&mut self, id: String, v: CompositeValveState)
        requires
            old(self).wf(),
        ensures
            final(self).wf(),
            final(self)@.valves == old(self)@.valves.insert(id@, v),
            final(self)@.readings == old(self)@.readings,
            final(self)@.last_ahrs == old(self)@.last_ahrs,
            final(self)@.last_bms == old(self)@.last_bms,
    {
        assoc_set(&mut self.valve_states, id, v);
    }

    /// Records the datapoints of the latest attitude-board telemetry.
    pub fn set_last_ahrs(&mut self, dps: Vec<DataPoint>)
        requires
            old(self).wf(),
        ensures
            final(self).wf(),
            final(self)@.last_ahrs == Some(dps@),
            final(self)@.readings == old(self)@.readings,
            final(self)@.valves == old(self)@.valves,
            final(self)@.last_bms == old(self)@.last_bms,
    {
        self.last_ahrs = Some(dps);
    }

    /// Records the datapoint of the latest battery-management telemetry.
    pub fn set_last_bms(&mut self, dp: DataPoint)
        requires
            old(self).wf(),
        ensures
            final(self).wf(),
            final(self)@.last_bms == Some(dp),
            final(self)@.readings == old(self)@.readings,
            final(self)@.valves == old(self)@.valves,
            final(self)@.last_ahrs == old(self)@.last_ahrs,
    {
        self.last_bms = Some(dp);
    }
}

} // verus!
