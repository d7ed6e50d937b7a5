//! Group and individual call records, call priorities (ETSI EN 300 392-2 clause 14.8) and
//! call timers expressed in TDMA timeslots.
use vstd::prelude::*;
use crate::tdma::{TdmaTime, TetraAddress, spec_age};
use crate::cmce::components::circuit_mgr::{CircuitModeType, CommunicationType};

verus! {

/// Highest call priority — an emergency call.
pub const CALL_PRIORITY_EMERGENCY: u8 = 15;
/// Lowest of the four pre-emptive priority levels (12..=15).
pub const CALL_PRIORITY_PREEMPTIVE_MIN: u8 = 12;

/// True when a call at this priority may pre-empt a lower-priority call.
pub fn is_preemptive_priority(priority: u8) -> (r: bool)
    ensures
        r == (priority >= 12),
{
    priority >= CALL_PRIORITY_PREEMPTIVE_MIN
}

/// True when this priority denotes an emergency call.
pub fn is_emergency_priority(priority: u8) -> (r: bool)
    ensures
        r == (priority >= 15),
{
    priority >= CALL_PRIORITY_EMERGENCY
}

/// Timeslots in `seconds` seconds, one timeslot lasting 170/12 ms, rounded down and
/// saturated at `i32::MAX`.
pub open spec fn spec_seconds_to_timeslots(seconds: int) -> int {
    let v = seconds * 12000 / 170;
    if v > i32::MAX { i32::MAX as int } else { v }
}

pub fn seconds_to_timeslots(seconds: i32) -> (r: i32)
    requires
        seconds >= 0,
    ensures
        r == spec_seconds_to_timeslots(seconds as int),
{
    let v: i64 = (seconds as i64) * 12000 / 170;
    if v > i32::MAX as i64 { i32::MAX } else { v as i32 }
}

/// Call time-out of the set-up phase (ETSI EN 300 392-2 clause 14.8.19).
#[derive(Debug, Clone, Copy, PartialEq, Eq, Structural)]
pub enum CallTimeoutSetupPhase {
    Predefined,
    T1s,
    T2s,
    T5s,
    T10s,
    T20s,
    T30s,
    T60s,
}

/// Length in seconds of a set-up phase time-out (the predefined value is 10 s).
pub open spec fn setup_timeout_secs(t: CallTimeoutSetupPhase) -> int {
    match t {
        CallTimeoutSetupPhase::Predefined => 10,
        CallTimeoutSetupPhase::T1s => 1,
        CallTimeoutSetupPhase::T2s => 2,
        CallTimeoutSetupPhase::T5s => 5,
        CallTimeoutSetupPhase::T10s => 10,
        CallTimeoutSetupPhase::T20s => 20,
        CallTimeoutSetupPhase::T30s => 30,
        CallTimeoutSetupPhase::T60s => 60,
    }
}

pub fn setup_timeout_to_timeslots(timeout: CallTimeoutSetupPhase) -> (r: Option<i32>)
    ensures
        r == Some(spec_seconds_to_timeslots(setup_timeout_secs(timeout)) as i32),
{
    match timeout {
        CallTimeoutSetupPhase::Predefined => Some(seconds_to_timeslots(10)),
        CallTimeoutSetupPhase::T1s => Some(seconds_to_timeslots(1)),
        CallTimeoutSetupPhase::T2s => Some(seconds_to_timeslots(2)),
        CallTimeoutSetupPhase::T5s => Some(seconds_to_timeslots(5)),
        CallTimeoutSetupPhase::T10s => Some(seconds_to_timeslots(10)),
        CallTimeoutSetupPhase::T20s => Some(seconds_to_timeslots(20)),
        CallTimeoutSetupPhase::T30s => Some(seconds_to_timeslots(30)),
        CallTimeoutSetupPhase::T60s => Some(seconds_to_timeslots(60)),
    }
}

/// Call time-out of an established call (ETSI EN 300 392-2 clause 14.8.18).
#[derive(Debug, Clone, Copy, PartialEq, Eq, Structural)]
pub enum CallTimeout {
    Infinite,
    T30s,
    T45s,
    T60s,
    T2m,
    T3m,
    T4m,
    T5m,
    T6m,
    T8m,
    T10m,
    T12m,
    T15m,
    T20m,
    T30m,
    Reserved,
}

/// Length in seconds of a call time-out; `None` for an infinite (or reserved) time-out.
pub open spec fn call_timeout_secs(t: CallTimeout) -> Option<int> {
    match t {
        CallTimeout::Infinite => None,
        CallTimeout::Reserved => None,
        CallTimeout::T30s => Some(30),
        CallTimeout::T45s => Some(45),
        CallTimeout::T60s => Some(60),
        CallTimeout::T2m => Some(120),
        CallTimeout::T3m => Some(180),
        CallTimeout::T4m => Some(240),
        CallTimeout::T5m => Some(300),
        CallTimeout::T6m => Some(360),
        CallTimeout::T8m => Some(480),
        CallTimeout::T10m => Some(600),
        CallTimeout::T12m => Some(720),
        CallTimeout::T15m => Some(900),
        CallTimeout::T20m => Some(1200),
        CallTimeout::T30m => Some(1800),
    }
}

/// The time-out in timeslots, `None` when the call never times out.
pub open spec fn spec_call_timeout_timeslots(t: CallTimeout) -> Option<int> {
    match call_timeout_secs(t) {
        Some(s) => Some(spec_seconds_to_timeslots(s)),
        None => None,
    }
}

pub fn call_timeout_to_timeslots(timeout: CallTimeout) -> (r: Option<i32>)
    ensures
        match spec_call_timeout_timeslots(timeout) {
            Some(n) => r == Some(n as i32),
            None => r is None,
        },
{
    match timeout {
        CallTimeout::Infinite | CallTimeout::Reserved => None,
        CallTimeout::T30s => Some(seconds_to_timeslots(30)),
        CallTimeout::T45s => Some(seconds_to_timeslots(45)),
        CallTimeout::T60s => Some(seconds_to_timeslots(60)),
        CallTimeout::T2m => Some(seconds_to_timeslots(120)),
        CallTimeout::T3m => Some(seconds_to_timeslots(180)),
        CallTimeout::T4m => Some(seconds_to_timeslots(240)),
        CallTimeout::T5m => Some(seconds_to_timeslots(300)),
        CallTimeout::T6m => Some(seconds_to_timeslots(360)),
        CallTimeout::T8m => Some(seconds_to_timeslots(480)),
        CallTimeout::T10m => Some(seconds_to_timeslots(600)),
        CallTimeout::T12m => Some(seconds_to_timeslots(720)),
        CallTimeout::T15m => Some(seconds_to_timeslots(900)),
        CallTimeout::T20m => Some(seconds_to_timeslots(1200)),
        CallTimeout::T30m => Some(seconds_to_timeslots(1800)),
    }
}

/// Origin of a group call.
#[derive(Debug, Clone, Copy, PartialEq, Eq, Structural)]
pub enum CallOrigin {
    /// Local MS-initiated call.
    Local { caller_addr: TetraAddress },
    /// Network-initiated call from TetraPack/Brew (the Brew UUID as a 128-bit value).
    Network { brew_uuid: u128 },
}

#[derive(Debug, Clone, Copy, PartialEq, Eq, Structural)]
pub enum GroupCallState {
    /// An active speaker is currently transmitting.
    Transmitting,
    /// No active speaker; call is still alive during hangtime.
    NoActiveSpeaker { since: TdmaTime },
}

/// Outcome of queuing a transmission demand on a busy group call.
#[derive(Debug, Clone, Copy, PartialEq, Eq, Structural)]
pub enum TxDemandQueueResult {
    Queued,
    AlreadyQueuedBySameUser,
    QueueBusy,
    FromCurrentSpeaker,
}

/// An active group call (local or network-initiated).
#[derive(Debug, Clone, Copy, PartialEq, Eq, Structural)]
pub struct ActiveCall {
    pub origin: CallOrigin,
    pub dest_gssi: u32,
    pub source_issi: u32,
    /// ETSI call priority (0..=15) requested when the call was set up.
    pub priority: u8,
    pub created_at: TdmaTime,
    pub call_timeout: CallTimeout,
    pub ts: u8,
    pub usage: u8,
    pub tx_active: bool,
    pub hangtime_start: Option<TdmaTime>,
    pub queued_tx_demand: Option<TetraAddress>,
    pub brew_uuid: Option<u128>,
}

/// The state a group call is in.
pub open spec fn spec_group_state(c: ActiveCall) -> GroupCallState {
    if c.tx_active {
        GroupCallState::Transmitting
    } else {
        GroupCallState::NoActiveSpeaker {
            since: match c.hangtime_start {
                Some(t) => t,
                None => TdmaTime { h: 0, m: 1, f: 1, t: 1 },
            },
        }
    }
}

/// True when the group call's time-out has run out at `now`.
pub open spec fn spec_group_timeout_expired(c: ActiveCall, now: TdmaTime) -> bool {
    match spec_call_timeout_timeslots(c.call_timeout) {
        Some(limit) => spec_age(c.created_at, now) > limit,
        None => false,
    }
}

impl ActiveCall {
    pub fn new_local(
        caller_addr: TetraAddress,
        dest_gssi: u32,
        source_issi: u32,
        ts: u8,
        usage: u8,
        created_at: TdmaTime,
        call_timeout: CallTimeout,
        priority: u8,
    ) -> (c: Self)
        ensures
            c == (ActiveCall {
                origin: CallOrigin::Local { caller_addr },
                dest_gssi,
                source_issi,
                priority,
                created_at,
                call_timeout,
                ts,
                usage,
                tx_active: true,
                hangtime_start: None,
                queued_tx_demand: None,
                brew_uuid: None,
            }),
    {
        ActiveCall {
            origin: CallOrigin::Local { caller_addr },
            dest_gssi,
            source_issi,
            priority,
            created_at,
            call_timeout,
            ts,
            usage,
            tx_active: true,
            hangtime_start: None,
            queued_tx_demand: None,
            brew_uuid: None,
        }
    }

    pub fn new_network(
        brew_uuid: u128,
        dest_gssi: u32,
        source_issi: u32,
        ts: u8,
        usage: u8,
        created_at: TdmaTime,
        call_timeout: CallTimeout,
        priority: u8,
    ) -> (c: Self)
        ensures
            c == (ActiveCall {
                origin: CallOrigin::Network { brew_uuid },
                dest_gssi,
                source_issi,
                priority,
                created_at,
                call_timeout,
                ts,
                usage,
                tx_active: true,
                hangtime_start: None,
                queued_tx_demand: None,
                brew_uuid: Some(brew_uuid),
            }),
    {
        ActiveCall {
            origin: CallOrigin::Network { brew_uuid },
            dest_gssi,
            source_issi,
            priority,
            created_at,
            call_timeout,
            ts,
            usage,
            tx_active: true,
            hangtime_start: None,
            queued_tx_demand: None,
            brew_uuid: Some(brew_uuid),
        }
    }

    pub fn state(&self) -> (s: GroupCallState)
        ensures
            s == spec_group_state(*self),
    {
        if self.tx_active {
            GroupCallState::Transmitting
        } else {
            GroupCallState::NoActiveSpeaker {
                since: match self.hangtime_start {
                    Some(t) => t,
                    None => TdmaTime::start(),
                },
            }
        }
    }

    pub fn is_tx_active(&self) -> (r: bool)
        ensures
            r == self.tx_active,
    {
        match self.state() {
            GroupCallState::Transmitting => true,
            GroupCallState::NoActiveSpeaker { .. } => false,
        }
    }

    pub fn is_current_speaker(&self, issi: u32) -> (r: bool)
        ensures
            r == (self.tx_active && self.source_issi == issi),
    {
        self.tx_active && self.source_issi == issi
    }

    pub fn call_timeout_expired(&self, now: TdmaTime) -> (r: bool)
        ensures
            r == spec_group_timeout_expired(*self, now),
    {
        match call_timeout_to_timeslots(self.call_timeout) {
            Some(timeout) => self.created_at.age(now) > timeout as i64,
            None => false,
        }
    }

    pub fn enter_hangtime(&mut self, now: TdmaTime)
        ensures
            *final(self) == (ActiveCall { tx_active: false, hangtime_start: Some(now), ..*old(self) }),
    {
        self.tx_active = false;
        self.hangtime_start = Some(now);
    }

    /// Reset the call time-out clock (a new speaker took the floor).
    pub fn reset_timeout(&mut self, now: TdmaTime)
        ensures
            *final(self) == (ActiveCall { created_at: now, ..*old(self) }),
    {
        self.created_at = now;
    }

    /// Give the floor to `source_issi`; a local call also remembers the speaker's address.
    pub fn grant_floor(&mut self, source_issi: u32, speaker_addr: Option<TetraAddress>)
        ensures
            *final(self) == (ActiveCall {
                source_issi,
                tx_active: true,
                hangtime_start: None,
                queued_tx_demand: None,
                origin: match (old(self).origin, speaker_addr) {
                    (CallOrigin::Local { .. }, Some(addr)) => CallOrigin::Local { caller_addr: addr },
                    _ => old(self).origin,
                },
                ..*old(self)
            }),
    {
        self.source_issi = source_issi;
        self.tx_active = true;
        self.hangtime_start = None;
        self.queued_tx_demand = None;
        match (self.origin, speaker_addr) {
            (CallOrigin::Local { .. }, Some(addr)) => {
                self.origin = CallOrigin::Local { caller_addr: addr };
            },
            _ => {},
        }
    }

    /// Queue a transmission demand while someone else holds the floor (one slot).
    pub fn queue_tx_demand(&mut self, requester: TetraAddress) -> (r: TxDemandQueueResult)
        ensures
            old(self).tx_active && old(self).source_issi == requester.ssi ==> r
                == TxDemandQueueResult::FromCurrentSpeaker && *final(self) == *old(self),
            !(old(self).tx_active && old(self).source_issi == requester.ssi) ==> match old(
                self,
            ).queued_tx_demand {
                Some(existing) => *final(self) == *old(self) && r == (if existing.ssi
                    == requester.ssi {
                    TxDemandQueueResult::AlreadyQueuedBySameUser
                } else {
                    TxDemandQueueResult::QueueBusy
                }),
                None => r == TxDemandQueueResult::Queued && *final(self) == (ActiveCall {
                    queued_tx_demand: Some(requester),
                    ..*old(self)
                }),
            },
    {
        if self.is_current_speaker(requester.ssi) {
            return TxDemandQueueResult::FromCurrentSpeaker;
        }
        match self.queued_tx_demand {
            Some(existing) => {
                if existing.ssi == requester.ssi {
                    TxDemandQueueResult::AlreadyQueuedBySameUser
                } else {
                    TxDemandQueueResult::QueueBusy
                }
            },
            None => {
                self.queued_tx_demand = Some(requester);
                TxDemandQueueResult::Queued
            },
        }
    }

    pub fn take_queued_tx_demand(&mut self) -> (r: Option<TetraAddress>)
        ensures
            r == old(self).queued_tx_demand,
            *final(self) == (ActiveCall { queued_tx_demand: None, ..*old(self) }),
    {
        let r = self.queued_tx_demand;
        self.queued_tx_demand = None;
        r
    }
}

#[derive(Debug, Clone, Copy, PartialEq, Eq, Structural)]
pub enum IndividualCallState {
    /// Generic setup state for locally initiated individual calls.
    CallSetupPending,
    /// Setup state for incoming call leg while awaiting local user/app response.
    IncomingSetupPending,
    /// Incoming call has alerted the destination side.
    IncomingAlerting,
    /// Incoming call setup is waiting for backhaul/network confirmation.
    IncomingSetupWaitNetworkAck,
    /// Call is established.
    Active,
}

/// Basic service information of a call set-up (ETSI EN 300 392-2 clause 14.8.2).
#[derive(Debug, Clone, Copy, PartialEq, Eq, Structural)]
pub struct BasicService {
    pub circuit_mode: CircuitModeType,
    pub encryption: bool,
    pub comm_type: CommunicationType,
    /// Speech service, for speech circuits.
    pub speech_service: Option<u8>,
}

/// An individual (point-to-point) call.
#[derive(Debug, Clone, Copy, PartialEq, Eq, Structural)]
pub struct IndividualCall {
    pub calling_addr: TetraAddress,
    pub called_addr: TetraAddress,
    pub calling_handle: u32,
    pub calling_link_id: u32,
    pub calling_endpoint_id: u32,
    pub called_handle: Option<u32>,
    pub called_link_id: Option<u32>,
    pub called_endpoint_id: Option<u32>,
    pub calling_carrier_num: u16,
    pub calling_ts: u8,
    pub called_carrier_num: u16,
    pub called_ts: u8,
    pub calling_usage: u8,
    pub called_usage: u8,
    /// true = full duplex, false = simplex.
    pub simplex_duplex: bool,
    /// ETSI call priority (0..=15) from the originating U-SETUP.
    pub priority: u8,
    pub state: IndividualCallState,
    pub setup_timer_started: Option<TdmaTime>,
    pub setup_timeout: Option<CallTimeoutSetupPhase>,
    pub active_timer_started: Option<TdmaTime>,
    pub call_timeout: CallTimeout,
    /// True when the called party lives behind Brew/TetraPack.
    pub called_over_brew: bool,
    /// True when the calling party lives behind Brew/TetraPack.
    pub calling_over_brew: bool,
    pub brew_uuid: Option<u128>,
    /// True once CONNECT_REQUEST has been sent for a Brew-originated setup.
    pub connect_request_sent: bool,
    /// SSI of the party currently holding the floor (simplex only).
    pub floor_holder: Option<u32>,
    /// Hook method selection of the cached D-SETUP.
    pub hook_method: bool,
    /// Basic service of the cached D-SETUP.
    pub service: BasicService,
    /// Brew's raw set-up fields of a call Brew originated, forwarded again with its connect
    /// request; `None` for any other call.
    pub network_params: Option<NetworkCallParams>,
}

/// The raw set-up fields of a call Brew originated, as Brew sent them.
#[derive(Debug, Clone, Copy, PartialEq, Eq, Structural)]
pub struct NetworkCallParams {
    pub priority: u8,
    pub service: u8,
    pub mode: u8,
    pub communication: u8,
    pub timeout: u8,
    pub ownership: u8,
    pub queued: u8,
}

/// The set-up fields forwarded for a call without Brew's own: priority 0, service 0, speech
/// (TCH/S, raw 0), point-to-point (raw 0), five-minute time-out (raw 7), no ownership, not
/// queued.
pub open spec fn default_network_params() -> NetworkCallParams {
    NetworkCallParams { priority: 0, service: 0, mode: 0, communication: 0, timeout: 7, ownership: 0, queued: 0 }
}

/// Brew's set-up fields `p`, or the defaults without them.
pub open spec fn spec_network_params_or_default(p: Option<NetworkCallParams>) -> NetworkCallParams {
    match p {
        Some(v) => v,
        None => default_network_params(),
    }
}

pub fn network_params_or_default(p: Option<NetworkCallParams>) -> (r: NetworkCallParams)
    ensures
        r == spec_network_params_or_default(p),
{
    match p {
        Some(v) => v,
        None => NetworkCallParams { priority: 0, service: 0, mode: 0, communication: 0, timeout: 7, ownership: 0, queued: 0 },
    }
}

pub open spec fn spec_is_alerted(s: IndividualCallState) -> bool {
    s == IndividualCallState::IncomingAlerting || s == IndividualCallState::IncomingSetupWaitNetworkAck
        || s == IndividualCallState::Active
}

pub open spec fn spec_setup_timeout_expired(c: IndividualCall, now: TdmaTime) -> bool {
    &&& c.state != IndividualCallState::Active
    &&& c.setup_timer_started is Some
    &&& c.setup_timeout is Some
    &&& spec_age(c.setup_timer_started.unwrap(), now) > spec_seconds_to_timeslots(
        setup_timeout_secs(c.setup_timeout.unwrap()),
    )
}

/// Only active simplex calls time out; full-duplex calls may last as long as wanted.
pub open spec fn spec_active_timeout_expired(c: IndividualCall, now: TdmaTime) -> bool {
    &&& c.state == IndividualCallState::Active
    &&& !c.simplex_duplex
    &&& c.active_timer_started is Some
    &&& spec_call_timeout_timeslots(c.call_timeout) is Some
    &&& spec_age(c.active_timer_started.unwrap(), now) > spec_call_timeout_timeslots(
        c.call_timeout,
    ).unwrap()
}

impl IndividualCall {
    pub fn is_alerted(&self) -> (r: bool)
        ensures
            r == spec_is_alerted(self.state),
    {
        match self.state {
            IndividualCallState::IncomingAlerting
            | IndividualCallState::IncomingSetupWaitNetworkAck
            | IndividualCallState::Active => true,
            _ => false,
        }
    }

    pub fn mark_alerted(&mut self, now: TdmaTime, setup_timeout: CallTimeoutSetupPhase)
        ensures
            *final(self) == (IndividualCall {
                state: if old(self).state == IndividualCallState::CallSetupPending || old(
                    self,
                ).state == IndividualCallState::IncomingSetupPending {
                    IndividualCallState::IncomingAlerting
                } else {
                    old(self).state
                },
                setup_timer_started: Some(now),
                setup_timeout: Some(setup_timeout),
                ..*old(self)
            }),
    {
        match self.state {
            IndividualCallState::CallSetupPending | IndividualCallState::IncomingSetupPending => {
                self.state = IndividualCallState::IncomingAlerting;
            },
            _ => {},
        }
        self.setup_timer_started = Some(now);
        self.setup_timeout = Some(setup_timeout);
    }

    pub fn is_active(&self) -> (r: bool)
        ensures
            r == (self.state == IndividualCallState::Active),
    {
        match self.state {
            IndividualCallState::Active => true,
            _ => false,
        }
    }

    pub fn activate(&mut self, now: TdmaTime)
        ensures
            *final(self) == (IndividualCall {
                state: IndividualCallState::Active,
                setup_timer_started: None,
                setup_timeout: None,
                active_timer_started: Some(now),
                connect_request_sent: false,
                ..*old(self)
            }),
    {
        self.state = IndividualCallState::Active;
        self.setup_timer_started = None;
        self.setup_timeout = None;
        self.active_timer_started = Some(now);
        self.connect_request_sent = false;
    }

    pub fn setup_timeout_expired(&self, now: TdmaTime) -> (r: bool)
        ensures
            r == spec_setup_timeout_expired(*self, now),
    {
        if self.is_active() {
            return false;
        }
        let started = match self.setup_timer_started {
            Some(s) => s,
            None => return false,
        };
        let timeout = match self.setup_timeout {
            Some(t) => t,
            None => return false,
        };
        let limit = match setup_timeout_to_timeslots(timeout) {
            Some(l) => l,
            None => return false,
        };
        started.age(now) > limit as i64
    }

    pub fn active_timeout_expired(&self, now: TdmaTime) -> (r: bool)
        ensures
            r == spec_active_timeout_expired(*self, now),
    {
        if !self.is_active() {
            return false;
        }
        if self.simplex_duplex {
            return false;
        }
        let started = match self.active_timer_started {
            Some(s) => s,
            None => return false,
        };
        let limit = match call_timeout_to_timeslots(self.call_timeout) {
            Some(l) => l,
            None => return false,
        };
        started.age(now) > limit as i64
    }
}

} // verus!
