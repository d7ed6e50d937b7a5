//! Registry of the mobile stations known to MM: their state, group affiliations,
//! energy-economy schedule and link context.
use vstd::prelude::*;
use std::collections::{HashMap, HashSet};
use crate::collections::{map_keys, set_elements};
use crate::mm::energy_saving::EnergySavingMode;

verus! {

broadcast use vstd::std_specs::hash::group_hash_axioms;

#[derive(Debug, Clone, Copy, PartialEq, Eq, Structural)]
pub enum ClientMgrErr {
    ClientNotFound { issi: u32 },
    GroupNotFound { gssi: u32 },
    IssiInGroupRange { issi: u32 },
    GssiInClientRange { gssi: u32 },
}

#[derive(Debug, Clone, Copy, PartialEq, Eq, Structural)]
pub enum MmClientState {
    Unknown,
    Attached,
    Detached,
}

/// An event for the telemetry channel.
#[derive(Debug, Clone, PartialEq, Eq)]
pub enum ClientEvent {
    MsRegistration { issi: u32 },
    MsDeregistration { issi: u32 },
    MsGroupAttach { issi: u32, gssis: Vec<u32> },
    MsGroupDetach { issi: u32, gssis: Vec<u32> },
}

pub struct MmClientProperties {
    pub issi: u32,
    pub state: MmClientState,
    pub groups: HashSet<u32>,
    pub energy_saving_mode: EnergySavingMode,
    /// TDMA frame number at which this MS wakes up to monitor MCCH; None for StayAlive.
    pub monitoring_frame: Option<u8>,
    /// Multiframe offset within the Eg cycle at which this MS wakes up; None for StayAlive.
    pub monitoring_multiframe: Option<u8>,
    /// Monotonic clock (ms) when this MS last registered; drives periodic-registration expiry.
    pub last_registration_ms: u64,
    /// Raw 24-bit class-of-MS element, once reported.
    pub class_of_ms: Option<u32>,
    /// Layer-2 handle from the last successful location update; 0 until then.
    pub last_handle: u32,
    /// Terminal Equipment Identity, once provided.
    pub tei: Option<u64>,
}

/// A client as freshly registered at `now_ms`.
pub open spec fn fresh_client(c: MmClientProperties, issi: u32, state: MmClientState, now_ms: u64) -> bool {
    &&& c.issi == issi
    &&& c.state == state
    &&& c.groups@ == Set::<u32>::empty()
    &&& c.energy_saving_mode == EnergySavingMode::StayAlive
    &&& c.monitoring_frame is None
    &&& c.monitoring_multiframe is None
    &&& c.last_registration_ms == now_ms
    &&& c.class_of_ms is None
    &&& c.last_handle == 0
    &&& c.tei is None
}

/// A client restored after a restart: known but detached, with groups `groups` and
/// energy-saving mode `esm`, registered as of `now_ms`, otherwise fresh.
pub open spec fn restored_client(c: MmClientProperties, issi: u32, groups: Set<u32>, esm: EnergySavingMode, now_ms: u64) -> bool {
    &&& c.issi == issi
    &&& c.state == MmClientState::Detached
    &&& c.groups@ == groups
    &&& c.energy_saving_mode == esm
    &&& c.monitoring_frame is None
    &&& c.monitoring_multiframe is None
    &&& c.last_registration_ms == now_ms
    &&& c.class_of_ms is None
    &&& c.last_handle == 0
    &&& c.tei is None
}

/// `e` is what restart recovery persists of client `issi` of `m`: its ISSI, its groups and its
/// energy-saving mode.
pub open spec fn snapshot_entry(e: (u32, Vec<u32>, EnergySavingMode), issi: u32, m: Map<u32, MmClientProperties>) -> bool {
    e.0 == issi && e.1@.to_set() == m[issi].groups@ && e.2 == m[issi].energy_saving_mode
}

/// `new` is `old` with the entry of `issi` replaced by `c` (the entry existed).
pub open spec fn replaced(
    old: Map<u32, MmClientProperties>,
    new: Map<u32, MmClientProperties>,
    issi: u32,
    c: MmClientProperties,
) -> bool {
    old.contains_key(issi) && new =~= old.insert(issi, c)
}

/// True when the client registered more than `interval_secs` before `now_ms`.
pub open spec fn registration_expired(c: MmClientProperties, now_ms: u64, interval_secs: u32) -> bool {
    now_ms - c.last_registration_ms > interval_secs as int * 1000
}

/// `ks` lists each key of `m` exactly once.
pub open spec fn key_order(ks: Seq<u32>, m: Map<u32, MmClientProperties>) -> bool {
    ks.to_set() == m.dom() && ks.no_duplicates()
}

/// The keys among `ks` whose registration has expired, in order.
pub open spec fn expired_of(m: Map<u32, MmClientProperties>, ks: Seq<u32>, now_ms: u64, interval_secs: u32) -> Seq<u32>
    decreases ks.len(),
{
    if ks.len() == 0 {
        Seq::empty()
    } else {
        let rest = expired_of(m, ks.drop_last(), now_ms, interval_secs);
        if registration_expired(m[ks.last()], now_ms, interval_secs) { rest.push(ks.last()) } else { rest }
    }
}

/// `(issi, last_handle)` of the clients among `ks` with a non-zero handle, in order.
pub open spec fn handles_of(m: Map<u32, MmClientProperties>, ks: Seq<u32>) -> Seq<(u32, u32)>
    decreases ks.len(),
{
    if ks.len() == 0 {
        Seq::empty()
    } else {
        let rest = handles_of(m, ks.drop_last());
        let c = m[ks.last()];
        if c.last_handle != 0 { rest.push((c.issi, c.last_handle)) } else { rest }
    }
}

/// `new` is `old` with exactly one event appended.
pub open spec fn appended_one(old: Seq<ClientEvent>, new: Seq<ClientEvent>) -> bool {
    new.len() == old.len() + 1 && new.take(old.len() as int) =~= old
}

impl MmClientProperties {
    pub fn new(ssi: u32, now_ms: u64) -> (c: Self)
        ensures
            fresh_client(c, ssi, MmClientState::Unknown, now_ms),
    {
        MmClientProperties {
            issi: ssi,
            state: MmClientState::Unknown,
            groups: HashSet::new(),
            energy_saving_mode: EnergySavingMode::StayAlive,
            monitoring_frame: None,
            monitoring_multiframe: None,
            last_registration_ms: now_ms,
            class_of_ms: None,
            last_handle: 0,
            tei: None,
        }
    }
}

/// Whether an ISSI lies in the individual range (every SSI, until configured ranges exist).
pub fn is_individual(_issi: u32) -> (r: bool)
    ensures
        r,
{
    true
}

/// Whether a GSSI lies in the group range (every SSI, until configured ranges exist).
pub fn in_group_range(_gssi: u32) -> (r: bool)
    ensures
        r,
{
    true
}

/// Whether a GSSI is a known group (every SSI, until configured groups exist).
pub fn is_group(_gssi: u32) -> (r: bool)
    ensures
        r,
{
    true
}

/// Whether an MS may attach to a group (always, until configured permissions exist).
pub fn may_attach(_issi: u32, _gssi: u32) -> (r: bool)
    ensures
        r,
{
    true
}

pub struct MmClientMgr {
    clients: HashMap<u32, MmClientProperties>,
    telemetry_enabled: bool,
    events: Vec<ClientEvent>,
}

impl MmClientMgr {
    /// The known clients by ISSI.
    pub closed spec fn clients(&self) -> Map<u32, MmClientProperties> {
        self.clients@
    }

    pub closed spec fn spec_telemetry(&self) -> bool {
        self.telemetry_enabled
    }

    /// Telemetry events not yet taken.
    pub closed spec fn pending_events(&self) -> Seq<ClientEvent> {
        self.events@
    }

    /// Events are only queued when telemetry is enabled.
    pub closed spec fn wf(&self) -> bool {
        !self.telemetry_enabled ==> self.events@.len() == 0
    }

    pub fn new(telemetry_enabled: bool) -> (m: Self)
        ensures
            m.wf(),
            m.clients() == Map::<u32, MmClientProperties>::empty(),
            m.spec_telemetry() == telemetry_enabled,
            m.pending_events().len() == 0,
    {
        MmClientMgr { clients: HashMap::new(), telemetry_enabled, events: Vec::new() }
    }

    /// Take the queued telemetry events, oldest first.
    pub fn take_events(&mut self) -> (evs: Vec<ClientEvent>)
        requires
            old(self).wf(),
        ensures
            final(self).wf(),
            evs@ == old(self).pending_events(),
            final(self).pending_events().len() == 0,
            final(self).clients() == old(self).clients(),
            final(self).spec_telemetry() == old(self).spec_telemetry(),
    {
        let mut evs: Vec<ClientEvent> = Vec::new();
        std::mem::swap(&mut evs, &mut self.events);
        evs
    }

    fn emit(&mut self, ev: ClientEvent)
        requires
            old(self).wf(),
        ensures
            final(self).wf(),
            final(self).clients() == old(self).clients(),
            final(self).spec_telemetry() == old(self).spec_telemetry(),
            final(self).pending_events() == (if old(self).spec_telemetry() {
                old(self).pending_events().push(ev)
            } else {
                old(self).pending_events()
            }),
    {
        if self.telemetry_enabled {
            self.events.push(ev);
        }
    }

    pub fn get_client_by_issi(&self, issi: u32) -> (r: Option<&MmClientProperties>)
        ensures
            match r {
                Some(c) => self.clients().contains_key(issi) && *c == self.clients()[issi],
                None => !self.clients().contains_key(issi),
            },
    {
        self.clients.get(&issi)
    }

    pub fn client_is_known(&self, issi: u32) -> (r: bool)
        ensures
            r == self.clients().contains_key(issi),
    {
        self.clients.contains_key(&issi)
    }

    pub fn set_client_state(&mut self, issi: u32, state: MmClientState) -> (r: Result<(), ClientMgrErr>)
        requires
            old(self).wf(),
        ensures
            final(self).wf(),
            final(self).pending_events() == old(self).pending_events(),
            final(self).spec_telemetry() == old(self).spec_telemetry(),
            r is Ok <==> old(self).clients().contains_key(issi),
            r is Err ==> r == Err::<(), _>(ClientMgrErr::ClientNotFound { issi })
                && final(self).clients() == old(self).clients(),
            r is Ok ==> replaced(
                old(self).clients(),
                final(self).clients(),
                issi,
                MmClientProperties { state, ..old(self).clients()[issi] },
            ),
    {
        match self.clients.remove(&issi) {
            Some(mut client) => {
                client.state = state;
                self.clients.insert(issi, client);
                Ok(())
            },
            None => Err(ClientMgrErr::ClientNotFound { issi }),
        }
    }

    pub fn set_client_energy_saving_mode(&mut self, issi: u32, mode: EnergySavingMode) -> (r: Result<(), ClientMgrErr>)
        requires
            old(self).wf(),
        ensures
            final(self).wf(),
            final(self).pending_events() == old(self).pending_events(),
            final(self).spec_telemetry() == old(self).spec_telemetry(),
            r is Ok <==> old(self).clients().contains_key(issi),
            r is Err ==> r == Err::<(), _>(ClientMgrErr::ClientNotFound { issi })
                && final(self).clients() == old(self).clients(),
            r is Ok ==> replaced(
                old(self).clients(),
                final(self).clients(),
                issi,
                MmClientProperties { energy_saving_mode: mode, ..old(self).clients()[issi] },
            ),
    {
        match self.clients.remove(&issi) {
            Some(mut client) => {
                client.energy_saving_mode = mode;
                self.clients.insert(issi, client);
                Ok(())
            },
            None => Err(ClientMgrErr::ClientNotFound { issi }),
        }
    }

    pub fn set_client_monitoring_window(&mut self, issi: u32, frame: Option<u8>, multiframe: Option<u8>) -> (r: Result<(), ClientMgrErr>)
        requires
            old(self).wf(),
        ensures
            final(self).wf(),
            final(self).pending_events() == old(self).pending_events(),
            final(self).spec_telemetry() == old(self).spec_telemetry(),
            r is Ok <==> old(self).clients().contains_key(issi),
            r is Err ==> r == Err::<(), _>(ClientMgrErr::ClientNotFound { issi })
                && final(self).clients() == old(self).clients(),
            r is Ok ==> replaced(
                old(self).clients(),
                final(self).clients(),
                issi,
                MmClientProperties {
                    monitoring_frame: frame,
                    monitoring_multiframe: multiframe,
                    ..old(self).clients()[issi]
                },
            ),
    {
        match self.clients.remove(&issi) {
            Some(mut client) => {
                client.monitoring_frame = frame;
                client.monitoring_multiframe = multiframe;
                self.clients.insert(issi, client);
                Ok(())
            },
            None => Err(ClientMgrErr::ClientNotFound { issi }),
        }
    }

    /// Reset the periodic registration timer of a known MS; unknown ISSIs are ignored.
    pub fn reset_registration_timer(&mut self, issi: u32, now_ms: u64)
        requires
            old(self).wf(),
        ensures
            final(self).wf(),
            final(self).pending_events() == old(self).pending_events(),
            final(self).spec_telemetry() == old(self).spec_telemetry(),
            old(self).clients().contains_key(issi) ==> replaced(
                old(self).clients(),
                final(self).clients(),
                issi,
                MmClientProperties { last_registration_ms: now_ms, ..old(self).clients()[issi] },
            ),
            !old(self).clients().contains_key(issi) ==> final(self).clients() == old(self).clients(),
    {
        match self.clients.remove(&issi) {
            Some(mut client) => {
                client.last_registration_ms = now_ms;
                self.clients.insert(issi, client);
            },
            None => {},
        }
    }

    /// ISSIs whose periodic registration has expired at `now_ms`: registered more than
    /// `interval_secs` ago. An interval of 0 disables expiry. The ISSIs come in the map's
    /// iteration order.
    pub fn collect_expired_registrations(&self, now_ms: u64, interval_secs: u32) -> (r: Vec<u32>)
        ensures
            interval_secs == 0 ==> r@.len() == 0,
            interval_secs > 0 ==> exists|ks: Seq<u32>|
                #[trigger] key_order(ks, self.clients()) && r@ == expired_of(
                    self.clients(),
                    ks,
                    now_ms,
                    interval_secs,
                ),
    {
        if interval_secs == 0 {
            return Vec::new();
        }
        let threshold: u64 = interval_secs as u64 * 1000;
        let keys = map_keys(&self.clients);
        let mut out: Vec<u32> = Vec::new();
        let mut i: usize = 0;
        while i < keys.len()
            invariant
                keys@.to_set() == self.clients@.dom(),
                threshold == interval_secs as int * 1000,
                i <= keys@.len(),
                out@ == expired_of(self.clients@, keys@.take(i as int), now_ms, interval_secs),
            decreases keys@.len() - i,
        {
            let k = keys[i];
            assert(keys@.to_set().contains(k));
            let c = self.clients.get(&k).unwrap();
            let expired = now_ms >= c.last_registration_ms && now_ms - c.last_registration_ms > threshold;
            assert(keys@.take(i + 1).drop_last() =~= keys@.take(i as int));
            if expired {
                out.push(k);
            }
            i = i + 1;
        }
        assert(keys@.take(keys@.len() as int) =~= keys@);
        assert(key_order(keys@, self.clients()));
        out
    }

    pub fn set_client_class_of_ms(&mut self, issi: u32, class: Option<u32>) -> (r: Result<(), ClientMgrErr>)
        requires
            old(self).wf(),
        ensures
            final(self).wf(),
            final(self).pending_events() == old(self).pending_events(),
            final(self).spec_telemetry() == old(self).spec_telemetry(),
            r is Ok <==> old(self).clients().contains_key(issi),
            r is Err ==> r == Err::<(), _>(ClientMgrErr::ClientNotFound { issi })
                && final(self).clients() == old(self).clients(),
            r is Ok ==> replaced(
                old(self).clients(),
                final(self).clients(),
                issi,
                MmClientProperties { class_of_ms: class, ..old(self).clients()[issi] },
            ),
    {
        match self.clients.remove(&issi) {
            Some(mut client) => {
                client.class_of_ms = class;
                self.clients.insert(issi, client);
                Ok(())
            },
            None => Err(ClientMgrErr::ClientNotFound { issi }),
        }
    }

    /// Store the TEI received from U-TEI-PROVIDE.
    pub fn set_client_tei(&mut self, issi: u32, tei: u64) -> (r: Result<(), ClientMgrErr>)
        requires
            old(self).wf(),
        ensures
            final(self).wf(),
            final(self).pending_events() == old(self).pending_events(),
            final(self).spec_telemetry() == old(self).spec_telemetry(),
            r is Ok <==> old(self).clients().contains_key(issi),
            r is Err ==> r == Err::<(), _>(ClientMgrErr::ClientNotFound { issi })
                && final(self).clients() == old(self).clients(),
            r is Ok ==> replaced(
                old(self).clients(),
                final(self).clients(),
                issi,
                MmClientProperties { tei: Some(tei), ..old(self).clients()[issi] },
            ),
    {
        match self.clients.remove(&issi) {
            Some(mut client) => {
                client.tei = Some(tei);
                self.clients.insert(issi, client);
                Ok(())
            },
            None => Err(ClientMgrErr::ClientNotFound { issi }),
        }
    }

    /// Register a fresh state for a client, discarding any previous state.
    pub fn try_register_client(&mut self, issi: u32, attached: bool, now_ms: u64) -> (r: Result<bool, ClientMgrErr>)
        requires
            old(self).wf(),
        ensures
            final(self).wf(),
            r == Ok::<bool, ClientMgrErr>(true),
            final(self).spec_telemetry() == old(self).spec_telemetry(),
            final(self).clients().dom() == old(self).clients().dom().insert(issi),
            forall|k: u32| k != issi && old(self).clients().contains_key(k) ==> #[trigger] final(self).clients()[k]
                == old(self).clients()[k],
            fresh_client(
                final(self).clients()[issi],
                issi,
                if attached { MmClientState::Attached } else { MmClientState::Unknown },
                now_ms,
            ),
            final(self).pending_events() == (if old(self).spec_telemetry() {
                old(self).pending_events().push(ClientEvent::MsRegistration { issi })
            } else {
                old(self).pending_events()
            }),
    {
        if !is_individual(issi) {
            return Err(ClientMgrErr::IssiInGroupRange { issi });
        }
        self.clients.remove(&issi);
        let mut elem = MmClientProperties::new(issi, now_ms);
        elem.state = if attached { MmClientState::Attached } else { MmClientState::Unknown };
        self.clients.insert(issi, elem);
        self.emit(ClientEvent::MsRegistration { issi });
        Ok(true)
    }

    /// `(issi, last_handle)` of every known client with a valid handle (non-zero), in the
    /// map's iteration order.
    pub fn all_clients_with_handle(&self) -> (r: Vec<(u32, u32)>)
        ensures
            exists|ks: Seq<u32>| #[trigger] key_order(ks, self.clients()) && r@ == handles_of(self.clients(), ks),
    {
        let keys = map_keys(&self.clients);
        let mut out: Vec<(u32, u32)> = Vec::new();
        let mut i: usize = 0;
        while i < keys.len()
            invariant
                keys@.to_set() == self.clients@.dom(),
                i <= keys@.len(),
                out@ == handles_of(self.clients@, keys@.take(i as int)),
            decreases keys@.len() - i,
        {
            let k = keys[i];
            assert(keys@.to_set().contains(k));
            let c = self.clients.get(&k).unwrap();
            assert(keys@.take(i + 1).drop_last() =~= keys@.take(i as int));
            if c.last_handle != 0 {
                out.push((c.issi, c.last_handle));
            }
            i = i + 1;
        }
        assert(keys@.take(keys@.len() as int) =~= keys@);
        assert(key_order(keys@, self.clients()));
        out
    }

    /// `(issi, groups, energy-saving mode)` of every known client, each once, in the map's
    /// iteration order: what restart recovery persists.
    pub fn snapshot_for_recovery(&self) -> (r: Vec<(u32, Vec<u32>, EnergySavingMode)>)
        ensures
            exists|ks: Seq<u32>|
                #[trigger] key_order(ks, self.clients()) && r@.len() == ks.len() && forall|i: int|
                    0 <= i < ks.len() ==> #[trigger] snapshot_entry(r@[i], ks[i], self.clients()),
    {
        let keys = map_keys(&self.clients);
        let mut out: Vec<(u32, Vec<u32>, EnergySavingMode)> = Vec::new();
        let mut i: usize = 0;
        while i < keys.len()
            invariant
                keys@.to_set() == self.clients@.dom(),
                i <= keys@.len(),
                out@.len() == i,
                forall|j: int| 0 <= j < i ==> #[trigger] snapshot_entry(out@[j], keys@[j], self.clients()),
            decreases keys@.len() - i,
        {
            let k = keys[i];
            assert(keys@.to_set().contains(k));
            let c = self.clients.get(&k).unwrap();
            let ghost o0 = out@;
            out.push((k, set_elements(&c.groups), c.energy_saving_mode));
            assert forall|j: int| 0 <= j < i + 1 implies #[trigger] snapshot_entry(out@[j], keys@[j], self.clients()) by {
                if j < i {
                    assert(out@[j] == o0[j]);
                    assert(snapshot_entry(o0[j], keys@[j], self.clients()));
                }
            }
            i = i + 1;
        }
        assert(key_order(keys@, self.clients()));
        out
    }

    /// The ISSIs of all known clients, each once, in the map's iteration order.
    pub fn all_known_issis(&self) -> (r: Vec<u32>)
        ensures
            key_order(r@, self.clients()),
    {
        map_keys(&self.clients)
    }

    /// Update the last known L2 handle of a known client; unknown ISSIs are ignored.
    pub fn set_client_handle(&mut self, issi: u32, handle: u32)
        requires
            old(self).wf(),
        ensures
            final(self).wf(),
            final(self).pending_events() == old(self).pending_events(),
            final(self).spec_telemetry() == old(self).spec_telemetry(),
            old(self).clients().contains_key(issi) ==> replaced(
                old(self).clients(),
                final(self).clients(),
                issi,
                MmClientProperties { last_handle: handle, ..old(self).clients()[issi] },
            ),
            !old(self).clients().contains_key(issi) ==> final(self).clients() == old(self).clients(),
    {
        match self.clients.remove(&issi) {
            Some(mut client) => {
                client.last_handle = handle;
                self.clients.insert(issi, client);
            },
            None => {},
        }
    }

    /// Put `issi` back into the registry as known but detached, with the groups `groups` and the
    /// energy-saving mode `esm` it had before a restart, registered as of `now_ms`; an entry it
    /// had is replaced. No telemetry event is queued.
    pub fn restore_client(&mut self, issi: u32, groups: &Vec<u32>, esm: EnergySavingMode, now_ms: u64)
        requires
            old(self).wf(),
        ensures
            final(self).wf(),
            final(self).pending_events() == old(self).pending_events(),
            final(self).spec_telemetry() == old(self).spec_telemetry(),
            final(self).clients().dom() == old(self).clients().dom().insert(issi),
            forall|k: u32| k != issi && old(self).clients().contains_key(k) ==> #[trigger] final(self).clients()[k]
                == old(self).clients()[k],
            restored_client(final(self).clients()[issi], issi, groups@.to_set(), esm, now_ms),
    {
        let mut set: HashSet<u32> = HashSet::new();
        let mut i: usize = 0;
        while i < groups.len()
            invariant
                i <= groups@.len(),
                set@ == groups@.take(i as int).to_set(),
            decreases groups@.len() - i,
        {
            let g = groups[i];
            set.insert(g);
            proof {
                assert(groups@.take(i + 1) == groups@.take(i as int).push(g));
                groups@.take(i as int).lemma_push_to_set_commute(g);
                assert(set@ =~= groups@.take(i + 1).to_set());
            }
            i = i + 1;
        }
        assert(groups@.take(groups@.len() as int) == groups@);
        let mut c = MmClientProperties::new(issi, now_ms);
        c.state = MmClientState::Detached;
        c.groups = set;
        c.energy_saving_mode = esm;
        self.clients.insert(issi, c);
    }

    /// Remove a client, returning its properties if it was known.
    pub fn remove_client(&mut self, ssi: u32) -> (r: Option<MmClientProperties>)
        requires
            old(self).wf(),
        ensures
            final(self).wf(),
            final(self).spec_telemetry() == old(self).spec_telemetry(),
            final(self).clients() == old(self).clients().remove(ssi),
            match r {
                Some(c) => old(self).clients().contains_key(ssi) && c == old(self).clients()[ssi]
                    && final(self).pending_events() == (if old(self).spec_telemetry() {
                    old(self).pending_events().push(ClientEvent::MsDeregistration { issi: ssi })
                } else {
                    old(self).pending_events()
                }),
                None => !old(self).clients().contains_key(ssi) && final(self).pending_events()
                    == old(self).pending_events(),
            },
    {
        match self.clients.remove(&ssi) {
            Some(client) => {
                self.emit(ClientEvent::MsDeregistration { issi: ssi });
                Some(client)
            },
            None => None,
        }
    }

    /// Detach a client from all its groups.
    pub fn client_detach_all_groups(&mut self, issi: u32) -> (r: Result<bool, ClientMgrErr>)
        requires
            old(self).wf(),
        ensures
            final(self).wf(),
            final(self).spec_telemetry() == old(self).spec_telemetry(),
            r is Err ==> r == Err::<bool, _>(ClientMgrErr::ClientNotFound { issi })
                && !old(self).clients().contains_key(issi) && final(self).clients() == old(self).clients()
                && final(self).pending_events() == old(self).pending_events(),
            r is Ok ==> r == Ok::<bool, ClientMgrErr>(true) && old(self).clients().contains_key(issi),
            old(self).clients().contains_key(issi) ==> {
                let c = old(self).clients()[issi];
                &&& final(self).clients().dom() == old(self).clients().dom()
                &&& forall|k: u32| k != issi && old(self).clients().contains_key(k) ==> #[trigger] final(self).clients()[k]
                    == old(self).clients()[k]
                &&& final(self).clients()[issi].groups@ == Set::<u32>::empty()
                &&& final(self).clients()[issi] == (MmClientProperties {
                    groups: final(self).clients()[issi].groups,
                    ..c
                })
                &&& old(self).spec_telemetry() ==> appended_one(old(self).pending_events(), final(self).pending_events())
                    && (final(self).pending_events().last() matches ClientEvent::MsGroupDetach { issi: ei, gssis }
                        && ei == c.issi && gssis@.to_set() == c.groups@ && gssis@.no_duplicates())
                &&& !old(self).spec_telemetry() ==> final(self).pending_events() == old(self).pending_events()
            },
    {
        match self.clients.remove(&issi) {
            Some(mut client) => {
                let gssis = set_elements(&client.groups);
                self.emit(ClientEvent::MsGroupDetach { issi: client.issi, gssis });
                client.groups.clear();
                self.clients.insert(issi, client);
                assert(self.clients@.dom() =~= old(self).clients@.dom());
                assert(self.events@.take(old(self).events@.len() as int) =~= old(self).events@);
                Ok(true)
            },
            None => Err(ClientMgrErr::ClientNotFound { issi }),
        }
    }

    /// Attach a client to, or detach it from, a group. Returns whether the affiliation changed.
    pub fn client_group_attach(&mut self, issi: u32, gssi: u32, do_attach: bool) -> (r: Result<bool, ClientMgrErr>)
        requires
            old(self).wf(),
        ensures
            final(self).wf(),
            final(self).spec_telemetry() == old(self).spec_telemetry(),
            r is Err <==> !old(self).clients().contains_key(issi),
            r is Err ==> r == Err::<bool, _>(ClientMgrErr::ClientNotFound { issi })
                && final(self).clients() == old(self).clients()
                && final(self).pending_events() == old(self).pending_events(),
            old(self).clients().contains_key(issi) ==> {
                let c = old(self).clients()[issi];
                let groups = if do_attach { c.groups@.insert(gssi) } else { c.groups@.remove(gssi) };
                &&& r == Ok::<bool, ClientMgrErr>(if do_attach { !c.groups@.contains(gssi) } else { c.groups@.contains(gssi) })
                &&& final(self).clients().dom() == old(self).clients().dom()
                &&& forall|k: u32| k != issi && old(self).clients().contains_key(k) ==> #[trigger] final(self).clients()[k]
                    == old(self).clients()[k]
                &&& final(self).clients()[issi].groups@ == groups
                &&& final(self).clients()[issi] == (MmClientProperties {
                    groups: final(self).clients()[issi].groups,
                    ..c
                })
                &&& do_attach && old(self).spec_telemetry() ==> appended_one(old(self).pending_events(), final(self).pending_events())
                    && (final(self).pending_events().last() matches ClientEvent::MsGroupAttach { issi: ei, gssis }
                        && ei == c.issi && gssis@ == seq![gssi])
                &&& !(do_attach && old(self).spec_telemetry()) ==> final(self).pending_events() == old(self).pending_events()
            },
    {
        if !in_group_range(gssi) {
            return Err(ClientMgrErr::GssiInClientRange { gssi });
        }
        if !is_group(gssi) {
            return Err(ClientMgrErr::GroupNotFound { gssi });
        }
        if !may_attach(issi, gssi) {
            return Err(ClientMgrErr::GroupNotFound { gssi });
        }
        match self.clients.remove(&issi) {
            Some(mut client) => {
                let changed = if do_attach {
                    let mut gssis: Vec<u32> = Vec::new();
                    gssis.push(gssi);
                    assert(gssis@ =~= seq![gssi]);
                    self.emit(ClientEvent::MsGroupAttach { issi: client.issi, gssis });
                    client.groups.insert(gssi)
                } else {
                    client.groups.remove(&gssi)
                };
                self.clients.insert(issi, client);
                assert(self.clients@.dom() =~= old(self).clients@.dom());
                assert(self.events@.take(old(self).events@.len() as int) =~= old(self).events@);
                Ok(changed)
            },
            None => Err(ClientMgrErr::ClientNotFound { issi }),
        }
    }
}

} // verus!
