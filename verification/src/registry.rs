//! The board registry and liveness protocol.
//!
//! Boards are created on their first identity handshake, re-created wholesale
//! when the same identity reconnects from a new address, and never deleted:
//! they only move between Connected and Disconnected. Any datagram received
//! from a board's address refreshes its liveness, regardless of content; a
//! silence longer than the time-to-live marks it Disconnected on the next
//! liveness check.
//!
//! Time enters as an explicit millisecond clock value supplied by the caller,
//! so every rule here is a pure function of its inputs.

use vstd::prelude::*;
use crate::comm::{Address, DataMessage, DataMessageV, NodeMapping, NodeMappingV, mappings_view};
use crate::config::{IpAddress, id_for_octets, ip_to_id};
use crate::calibration::spec_ingest_message;
use crate::state::{VehicleState, VehicleStateV};

verus! {

/// Milliseconds of silence after which a board is presumed disconnected.
pub const TIME_TO_LIVE_MS: u64 = 50;

/// The fixed port on a board's host that receives outbound commands.
pub const DEVICE_COMMAND_PORT: u16 = 8378;

/// One known board: identity, the address it last handshook from, the clock
/// value of the last received datagram, and its connection state.
#[derive(Debug)]
pub struct Device {
    pub id: String,
    pub address: Address,
    pub last_received: u64,
    pub connected: bool,
}

/// Mathematical model of a `Device`.
pub struct DeviceV {
    pub id: Seq<char>,
    pub address: Address,
    pub last_received: u64,
    pub connected: bool,
}

impl View for Device {
    type V = DeviceV;

    open spec fn view(&self) -> DeviceV {
        DeviceV {
            id: self.id@,
            address: self.address,
            last_received: self.last_received,
            connected: self.connected,
        }
    }
}

impl Device {
    /// A field-for-field copy.
    pub fn duplicate(&self) -> (r: Device)
        ensures
            r@ == self@,
    {
        Device {
            id: self.id.clone(),
            address: self.address,
            last_received: self.last_received,
            connected: self.connected,
        }
    }

    /// Whether the board is currently presumed disconnected.
    pub fn is_disconnected(&self) -> (r: bool)
        ensures
            r == !self@.connected,
    {
        !self.connected
    }

    /// The board's identity.
    pub fn get_board_id(&self) -> (r: &String)
        ensures
            r@ == self@.id,
    {
        &self.id
    }

    /// The host part of the address the board last handshook from.
    pub fn get_ip(&self) -> (r: IpAddress)
        ensures
            r == self@.address.ip,
    {
        self.address.ip
    }
}

/// The views of a whole device list.
pub open spec fn devices_view(s: Seq<Device>) -> Seq<DeviceV> {
    s.map(|i: int, d: Device| d@)
}

/// No two boards share an identity.
pub open spec fn dev_ids_unique(ds: Seq<DeviceV>) -> bool {
    forall|i: int, j: int| 0 <= i < j < ds.len() ==> ds[i].id != ds[j].id
}

/// Whether some board carries this identity.
pub open spec fn has_dev(ds: Seq<DeviceV>, id: Seq<char>) -> bool {
    exists|i: int| 0 <= i < ds.len() && ds[i].id == id
}

/// The index of the board carrying this identity (meaningful under
/// `has_dev` and uniqueness).
pub open spec fn dev_index(ds: Seq<DeviceV>, id: Seq<char>) -> int {
    choose|i: int| 0 <= i < ds.len() && ds[i].id == id
}

/// A board as it stands right after a handshake.
pub open spec fn fresh_dev(id: Seq<char>, address: Address, now: u64) -> DeviceV {
    DeviceV { id, address, last_received: now, connected: true }
}

/// Registration: overwrite the same-identity board entirely, or append a
/// new one.
pub open spec fn spec_register(ds: Seq<DeviceV>, id: Seq<char>, address: Address, now: u64)
    -> Seq<DeviceV> {
    if has_dev(ds, id) {
        ds.update(dev_index(ds, id), fresh_dev(id, address, now))
    } else {
        ds.push(fresh_dev(id, address, now))
    }
}

/// A received datagram from a board's address: timestamp reset, Connected.
pub open spec fn spec_refresh_dev(ds: Seq<DeviceV>, i: int, now: u64) -> Seq<DeviceV> {
    ds.update(i, DeviceV {
        id: ds[i].id,
        address: ds[i].address,
        last_received: now,
        connected: true,
    })
}

/// Whether a board's silence has outlived the time-to-live.
pub open spec fn is_expired(d: DeviceV, now: u64) -> bool {
    d.last_received + TIME_TO_LIVE_MS < now
}

/// The liveness sweep: every Connected board whose last datagram is older
/// than the time-to-live becomes Disconnected; nothing is removed.
pub open spec fn spec_mark_expired(ds: Seq<DeviceV>, now: u64) -> Seq<DeviceV> {
    ds.map(|i: int, d: DeviceV| if d.connected && is_expired(d, now) {
        DeviceV { id: d.id, address: d.address, last_received: d.last_received, connected: false }
    } else {
        d
    })
}

/// The heartbeat targets: the handshake addresses of Connected boards, in
/// registry order; Disconnected boards are skipped.
pub open spec fn spec_heartbeat_targets(ds: Seq<DeviceV>) -> Seq<Address>
    decreases ds.len(),
{
    if ds.len() == 0 {
        Seq::empty()
    } else {
        spec_heartbeat_targets(ds.drop_last()) + if ds.last().connected {
            seq![ds.last().address]
        } else {
            Seq::empty()
        }
    }
}

/// The authoritative identity for a sender address, if the address belongs
/// to a known board.
pub open spec fn id_for_address(addr: Address) -> Option<Seq<char>> {
    match addr.ip {
        IpAddress::V4(a, b, c, d) => id_for_octets(a, b, c, d),
        IpAddress::V6 => None,
    }
}

/// What one received datagram does to the registry and the vehicle state,
/// and what it sends back.
///
/// An identity datagram from a resolvable address registers (or overwrites)
/// the board and is answered with this process's own identity; from an
/// unknown address it is dropped. A heartbeat refreshes the liveness of the
/// resolved, registered board. A telemetry datagram additionally hands its
/// payload to the calibration engine under the re-derived identity; if the
/// sender never handshook, it is discarded without registering.
pub open spec fn spec_handle_datagram(
    ds: Seq<DeviceV>,
    vs: VehicleStateV,
    addr: Address,
    m: DataMessageV,
    ms: Seq<NodeMappingV>,
    now: u64,
) -> (Seq<DeviceV>, VehicleStateV, Seq<(Address, DataMessageV)>) {
    match m {
        DataMessageV::Identity(_claimed) => match id_for_address(addr) {
            Some(auth) => (
                spec_register(ds, auth, addr, now),
                vs,
                seq![(addr, DataMessageV::Identity("flight-01"@))],
            ),
            None => (ds, vs, Seq::empty()),
        },
        DataMessageV::FlightHeartbeat => match id_for_address(addr) {
            Some(auth) => if has_dev(ds, auth) {
                (spec_refresh_dev(ds, dev_index(ds, auth), now), vs, Seq::empty())
            } else {
                (ds, vs, Seq::empty())
            },
            None => (ds, vs, Seq::empty()),
        },
        _ => match id_for_address(addr) {
            Some(auth) => if has_dev(ds, auth) {
                (
                    spec_refresh_dev(ds, dev_index(ds, auth), now),
                    spec_ingest_message(vs, auth, m, ms),
                    Seq::empty(),
                )
            } else {
                (ds, vs, Seq::empty())
            },
            None => (ds, vs, Seq::empty()),
        },
    }
}

/// A batch of received datagrams folded in, in arrival order, with the
/// handshake replies they produce.
pub open spec fn spec_update_state(
    ds: Seq<DeviceV>,
    vs: VehicleStateV,
    msgs: Seq<(Address, DataMessageV)>,
    ms: Seq<NodeMappingV>,
    now: u64,
) -> (Seq<DeviceV>, VehicleStateV, Seq<(Address, DataMessageV)>)
    decreases msgs.len(),
{
    if msgs.len() == 0 {
        (ds, vs, Seq::empty())
    } else {
        let prev = spec_update_state(ds, vs, msgs.drop_last(), ms, now);
        let step = spec_handle_datagram(prev.0, prev.1, msgs.last().0, msgs.last().1, ms, now);
        (step.0, step.1, prev.2 + step.2)
    }
}

/// The views of a list of addressed datagrams.
pub open spec fn msgs_view(s: Seq<(Address, DataMessage)>) -> Seq<(Address, DataMessageV)> {
    s.map(|i: int, p: (Address, DataMessage)| (p.0, p.1@))
}

/// Law: registering the same board identity twice, from different addresses,
/// overwrites rather than merges. After the second registration exactly the
/// fresh entry stands — no address, timestamp or connection state of the
/// first survives — and the registry reports that a previous entry existed
/// (`has_dev` holds before the second registration, so `register_device`
/// returns it).
pub proof fn lemma_register_overwrites(
    ds: Seq<DeviceV>,
    id: Seq<char>,
    a1: Address,
    t1: u64,
    a2: Address,
    t2: u64,
)
    requires
        dev_ids_unique(ds),
    ensures
        ({
            let ds1 = spec_register(ds, id, a1, t1);
            let ds2 = spec_register(ds1, id, a2, t2);
            &&& has_dev(ds1, id)
            &&& dev_ids_unique(ds1)
            &&& ds2[dev_index(ds2, id)] == fresh_dev(id, a2, t2)
            &&& ds2.len() == ds1.len()
        }),
{
    let ds1 = spec_register(ds, id, a1, t1);
    if has_dev(ds, id) {
        let j = dev_index(ds, id);
        assert(ds1[j].id == id);
        assert(has_dev(ds1, id));
    } else {
        assert(ds1.last().id == id);
        assert(has_dev(ds1, id));
    }
    assert(dev_ids_unique(ds1));
    let j1 = dev_index(ds1, id);
    assert(0 <= j1 < ds1.len() && ds1[j1].id == id);
    let ds2 = ds1.update(j1, fresh_dev(id, a2, t2));
    assert(ds2[j1].id == id);
    assert(dev_ids_unique(ds2));
    let j2 = dev_index(ds2, id);
    assert(0 <= j2 < ds2.len() && ds2[j2].id == id);
    assert(j2 == j1);
}

/// Law: a Connected board silent for longer than the time-to-live is
/// Disconnected after the next liveness sweep — but still registered, under
/// the same identity and address.
pub proof fn lemma_ttl_expiry(ds: Seq<DeviceV>, i: int, now: u64)
    requires
        0 <= i < ds.len(),
        ds[i].connected,
        ds[i].last_received + TIME_TO_LIVE_MS < now,
    ensures
        ({
            let marked = spec_mark_expired(ds, now);
            &&& marked.len() == ds.len()
            &&& marked[i].id == ds[i].id
            &&& marked[i].address == ds[i].address
            &&& !marked[i].connected
        }),
{
}

/// Law: any datagram received from a board's resolved address — an identity
/// handshake, a heartbeat, or telemetry — leaves that board Connected,
/// regardless of the datagram's content.
pub proof fn lemma_datagram_reconnects(
    ds: Seq<DeviceV>,
    vs: VehicleStateV,
    addr: Address,
    m: DataMessageV,
    ms: Seq<NodeMappingV>,
    now: u64,
    i: int,
)
    requires
        dev_ids_unique(ds),
        0 <= i < ds.len(),
        id_for_address(addr) == Some(ds[i].id),
    ensures
        ({
            let r = spec_handle_datagram(ds, vs, addr, m, ms, now);
            &&& r.0.len() == ds.len()
            &&& r.0[i].id == ds[i].id
            &&& r.0[i].connected
            &&& r.0[i].last_received == now
        }),
{
    assert(has_dev(ds, ds[i].id));
    let j = dev_index(ds, ds[i].id);
    assert(0 <= j < ds.len() && ds[j].id == ds[i].id);
    assert(j == i);
    match m {
        DataMessageV::Identity(_claimed) => {
            assert(spec_register(ds, ds[i].id, addr, now)[i] == fresh_dev(ds[i].id, addr, now));
        },
        DataMessageV::FlightHeartbeat => {
            assert(spec_refresh_dev(ds, i, now)[i].connected);
        },
        _ => {
            assert(spec_refresh_dev(ds, i, now)[i].connected);
        },
    }
}

/// The set of known boards, and the vehicle state they feed.
pub struct Devices {
    pub devices: Vec<Device>,
    pub state: VehicleState,
}

impl Devices {
    /// Identities unique; state well-formed.
    pub open spec fn wf(&self) -> bool {
        dev_ids_unique(devices_view(self.devices@)) && self.state.wf()
    }

    /// An empty registry around an empty vehicle state.
    pub fn new() -> (r: Devices)
        ensures
            r.wf(),
            devices_view(r.devices@) =~= Seq::<DeviceV>::empty(),
            r.state@.readings.is_empty(),
            r.state@.valves.is_empty(),
    {
        let r = Devices { devices: Vec::new(), state: VehicleState::new() };
        proof {
            assert(devices_view(r.devices@) =~= Seq::<DeviceV>::empty());
        }
        r
    }

    /// The aggregated vehicle state.
    pub fn get_state(&self) -> (r: &VehicleState)
        ensures
            r == &self.state,
    {
        &self.state
    }

    /// The index of the board with this identity, if registered.
    fn find_device(&self, id: &String) -> (r: Option<usize>)
        requires
            self.wf(),
        ensures
            match r {
                Some(i) => i < self.devices@.len()
                    && devices_view(self.devices@)[i as int].id == id@
                    && i as int == dev_index(devices_view(self.devices@), id@),
                None => !has_dev(devices_view(self.devices@), id@),
            },
    {
        let ghost ds = devices_view(self.devices@);
        let n = self.devices.len();
        let mut i: usize = 0;
        while i < n
            invariant
                n == self.devices@.len(),
                i <= n,
                ds == devices_view(self.devices@),
                dev_ids_unique(ds),
                forall|j: int| 0 <= j < i ==> ds[j].id != id@,
            decreases n - i,
        {
            if self.devices[i].id.eq(id) {
                proof {
                    assert(ds[i as int].id == id@);
                    let k = dev_index(ds, id@);
                    assert(0 <= k < ds.len() && ds[k].id == id@);
                    assert(k == i as int);
                }
                return Some(i);
            }
            i += 1;
        }
        None
    }

    /// Inserts a board, or overwrites the same-identity board entirely, as
    /// if it were connecting for the first time. Returns the overwritten
    /// entry if one existed.
    pub fn register_device(&mut self, id: &String, address: Address, now: u64)
        -> (r: Option<Device>)
        requires
            old(self).wf(),
        ensures
            final(self).wf(),
            devices_view(final(self).devices@)
                == spec_register(devices_view(old(self).devices@), id@, address, now),
            final(self).state == old(self).state,
            r is Some <==> has_dev(devices_view(old(self).devices@), id@),
            match r {
                Some(d) => ({
                    let ds = devices_view(old(self).devices@);
                    d@ == ds[dev_index(ds, id@)]
                }),
                None => true,
            },
    {
        let ghost ds = devices_view(old(self).devices@);
        let fresh = Device { id: id.clone(), address, last_received: now, connected: true };
        match self.find_device(id) {
            Some(i) => {
                let prior = self.devices[i].duplicate();
                self.devices.set(i, fresh);
                proof {
                    assert(devices_view(self.devices@)
                        =~= ds.update(i as int, fresh_dev(id@, address, now)));
                    assert(dev_ids_unique(devices_view(self.devices@)));
                }
                Some(prior)
            },
            None => {
                self.devices.push(fresh);
                proof {
                    assert(devices_view(self.devices@)
                        =~= ds.push(fresh_dev(id@, address, now)));
                    assert(dev_ids_unique(devices_view(self.devices@)));
                }
                None
            },
        }
    }

    /// Resets the liveness clock of the board at `i`: Connected, received
    /// just now.
    fn refresh_at(&mut self, i: usize, now: u64)
        requires
            old(self).wf(),
            i < old(self).devices@.len(),
        ensures
            final(self).wf(),
            devices_view(final(self).devices@)
                == spec_refresh_dev(devices_view(old(self).devices@), i as int, now),
            final(self).state == old(self).state,
    {
        let ghost ds = devices_view(old(self).devices@);
        let mut d = self.devices[i].duplicate();
        d.last_received = now;
        d.connected = true;
        self.devices.set(i, d);
        proof {
            assert(devices_view(self.devices@) =~= spec_refresh_dev(ds, i as int, now));
            assert(dev_ids_unique(devices_view(self.devices@)));
        }
    }

    /// The liveness sweep: marks every Connected board silent for longer
    /// than the time-to-live as Disconnected. Nothing is removed.
    pub fn mark_if_expired(&mut self, now: u64)
        requires
            old(self).wf(),
        ensures
            final(self).wf(),
            devices_view(final(self).devices@)
                == spec_mark_expired(devices_view(old(self).devices@), now),
            final(self).state == old(self).state,
    {
        let ghost ds = devices_view(old(self).devices@);
        let n = self.devices.len();
        let mut i: usize = 0;
        while i < n
            invariant
                n == self.devices@.len(),
                i <= n,
                ds == devices_view(old(self).devices@),
                ds.len() == n,
                self.state == old(self).state,
                devices_view(self.devices@).len() == n,
                spec_mark_expired(ds, now).len() == n,
                forall|j: int| 0 <= j < i
                    ==> devices_view(self.devices@)[j] == spec_mark_expired(ds, now)[j],
                forall|j: int| i <= j < n ==> devices_view(self.devices@)[j] == ds[j],
            decreases n - i,
        {
            let expired = self.devices[i].connected && now >= self.devices[i].last_received
                && now - self.devices[i].last_received > TIME_TO_LIVE_MS;
            if expired {
                let mut d = self.devices[i].duplicate();
                d.connected = false;
                self.devices.set(i, d);
            }
            proof {
                assert(devices_view(self.devices@)[i as int]
                    == spec_mark_expired(ds, now)[i as int]);
            }
            i += 1;
        }
        proof {
            assert(devices_view(self.devices@) =~= spec_mark_expired(ds, now));
            assert(dev_ids_unique(devices_view(self.devices@)));
        }
    }

    /// The addresses owed a heartbeat this cycle: every Connected board.
    pub fn heartbeat_targets(&self) -> (r: Vec<Address>)
        ensures
            r@ == spec_heartbeat_targets(devices_view(self.devices@)),
    {
        let ghost ds = devices_view(self.devices@);
        let n = self.devices.len();
        let mut r: Vec<Address> = Vec::new();
        let mut i: usize = 0;
        while i < n
            invariant
                n == self.devices@.len(),
                i <= n,
                ds == devices_view(self.devices@),
                r@ == spec_heartbeat_targets(ds.take(i as int)),
            decreases n - i,
        {
            if self.devices[i].connected {
                r.push(self.devices[i].address);
            }
            proof {
                assert(ds.take(i + 1).drop_last() =~= ds.take(i as int));
                assert(ds.take(i + 1).last() == ds[i as int]);
            }
            i += 1;
        }
        proof {
            assert(ds.take(n as int) =~= ds);
        }
        r
    }

    /// The command-port address of the board with this identity, or nothing
    /// if it never handshook.
    pub fn command_address(&self, destination: &String) -> (r: Option<Address>)
        requires
            self.wf(),
        ensures
            ({
                let ds = devices_view(self.devices@);
                match r {
                    Some(a) => has_dev(ds, destination@)
                        && a == (Address {
                            ip: ds[dev_index(ds, destination@)].address.ip,
                            port: DEVICE_COMMAND_PORT,
                        }),
                    None => !has_dev(ds, destination@),
                }
            }),
    {
        match self.find_device(destination) {
            Some(i) => Some(
                Address { ip: self.devices[i].address.ip, port: DEVICE_COMMAND_PORT },
            ),
            None => None,
        }
    }

    /// Updates the registry and vehicle state with a batch of received
    /// datagrams, in arrival order, and returns the handshake replies to
    /// send. The identity embedded in a payload is never used for indexing:
    /// each datagram's board is re-derived from its sender address.
    pub fn update_state(
        &mut self,
        telemetry: Vec<(Address, DataMessage)>,
        mappings: &Vec<NodeMapping>,
        now: u64,
    ) -> (outbound: Vec<(Address, DataMessage)>)
        requires
            old(self).wf(),
        ensures
            final(self).wf(),
            ({
                let r = spec_update_state(devices_view(old(self).devices@), old(self).state@,
                    msgs_view(telemetry@), mappings_view(mappings@), now);
                &&& devices_view(final(self).devices@) == r.0
                &&& final(self).state@ == r.1
                &&& msgs_view(outbound@) == r.2
            }),
    {
        let ghost orig = msgs_view(telemetry@);
        let ghost ds0 = devices_view(old(self).devices@);
        let ghost vs0 = old(self).state@;
        let ghost msv = mappings_view(mappings@);
        let mut outbound: Vec<(Address, DataMessage)> = Vec::new();
        let n = telemetry.len();
        let mut i: usize = 0;
        proof {
            assert(orig.take(0) =~= Seq::<(Address, DataMessageV)>::empty());
        }
        while i < n
            invariant
                self.wf(),
                n == telemetry@.len(),
                i <= n,
                orig == msgs_view(telemetry@),
                msv == mappings_view(mappings@),
                ({
                    let r = spec_update_state(ds0, vs0, orig.take(i as int), msv, now);
                    &&& devices_view(self.devices@) == r.0
                    &&& self.state@ == r.1
                    &&& msgs_view(outbound@) == r.2
                }),
            decreases n - i,
        {
            let item = &telemetry[i];
            let addr = item.0;
            let msg = &item.1;
            proof {
                assert((addr, msg@) == orig[i as int]);
            }
            let ghost pre_ds = devices_view(self.devices@);
            let ghost pre_vs = self.state@;
            let ghost pre_out = msgs_view(outbound@);
            match msg {
                DataMessage::Identity(_claimed) => {
                    match ip_to_id(addr.ip) {
                        Ok(auth) => {
                            let auth_string = auth.to_owned();
                            let _prior = self.register_device(&auth_string, addr, now);
                            let reply = DataMessage::Identity(String::from_str("flight-01"));
                            outbound.push((addr, reply));
                            proof {
                                assert(msgs_view(outbound@) =~= pre_out
                                    + seq![(addr, DataMessageV::Identity("flight-01"@))]);
                            }
                        },
                        Err(_e) => {},
                    }
                },
                DataMessage::FlightHeartbeat => {
                    match ip_to_id(addr.ip) {
                        Ok(auth) => {
                            let auth_string = auth.to_owned();
                            match self.find_device(&auth_string) {
                                Some(k) => {
                                    self.refresh_at(k, now);
                                },
                                None => {},
                            }
                        },
                        Err(_e) => {},
                    }
                },
                other => {
                    match ip_to_id(addr.ip) {
                        Ok(auth) => {
                            let auth_string = auth.to_owned();
                            match self.find_device(&auth_string) {
                                Some(k) => {
                                    self.refresh_at(k, now);
                                    let dest = &mut self.state;
                                    crate::calibration::ingest_message(dest, &auth_string,
                                        other, mappings);
                                },
                                None => {},
                            }
                        },
                        Err(_e) => {},
                    }
                },
            }
            proof {
                let step = spec_handle_datagram(pre_ds, pre_vs, addr, orig[i as int].1, msv,
                    now);
                assert(devices_view(self.devices@) == step.0);
                assert(self.state@ == step.1);
                assert(msgs_view(outbound@) =~= pre_out + step.2);
                assert(orig.take(i + 1).drop_last() =~= orig.take(i as int));
                assert(orig.take(i + 1).last() == orig[i as int]);
            }
            i += 1;
        }
        proof {
            assert(orig.take(n as int) =~= orig);
        }
        outbound
    }
}

} // verus!
