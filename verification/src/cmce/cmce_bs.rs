//! Decisions of the CMCE entity itself, around its sub-entities: which subscriber updates
//! reach call control, what an operator control command does, and kicking every subscriber.
use vstd::prelude::*;
use crate::cmce::cc_bs::subentity::{CcAction, CcBsSubentity, MmSubscriberUpdate, SubscriberAction};
use crate::net_brew::brew_routable::{is_brew_external_subscriber_allowed, spec_inbound_allowed, RoutingConfig};

verus! {

/// Delay before a requested service restart or stop takes effect, in milliseconds.
pub const SERVICE_ACTION_DELAY_MS: u64 = 500;

/// An operator control command addressed to CMCE.
#[derive(Debug, Clone)]
pub enum ControlCommand {
    /// De-register one subscriber.
    KickMs { issi: u32 },
    /// Dynamic group number assignment (`attach`) or de-assignment of `gssi` on `issi`.
    Dgna { issi: u32, gssi: u32, mnemonic: Option<String>, attachment_mode: u8, attach: bool },
    RestartService,
    ShutdownService,
    /// A command that belongs to the SDS sub-entity (sending SDS, live SDS, clearing an
    /// emergency); `kind` names it.
    Sds { kind: u8 },
}

/// A service action scheduled on the host.
#[derive(Debug, Clone, Copy, PartialEq, Eq, Structural)]
pub enum ServiceAction {
    Restart,
    Stop,
}

/// What executing a control command asks of the rest of the base station.
#[derive(Debug, Clone)]
pub enum ControlEffect {
    /// The kick was carried out; `success` is whether the ISSI was registered. Sent back
    /// to the requester, if the command came with one.
    KickMsResponse { issi: u32, success: bool },
    /// The kick was carried out and nobody waits for the answer.
    KickMsDone,
    /// Forward the DGNA request to MM, which owns group registration.
    DgnaToMm { issi: u32, gssi: u32, mnemonic: Option<String>, attachment_mode: u8, attach: bool },
    /// Schedule a service action after `delay_ms`.
    Service { action: ServiceAction, delay_ms: u64 },
    /// Hand the command to the SDS sub-entity.
    ToSds { kind: u8 },
}

/// Whether a subscriber update reaches call control: one relayed from Brew only for an ISSI
/// whose state Brew may mirror, and never a presence-only registration (no groups) from Brew.
pub open spec fn spec_accepts_subscriber_update(routing: RoutingConfig, from_brew: bool, issi: u32, action: SubscriberAction, n_groups: nat) -> bool {
    !from_brew || (spec_inbound_allowed(&routing, issi) && !(action == SubscriberAction::Register && n_groups == 0))
}

pub fn accepts_subscriber_update(routing: &RoutingConfig, from_brew: bool, update: &MmSubscriberUpdate) -> (r: bool)
    ensures
        r == spec_accepts_subscriber_update(*routing, from_brew, update.issi, update.action, update.groups@.len()),
{
    if !from_brew {
        return true;
    }
    if !is_brew_external_subscriber_allowed(routing, update.issi) {
        return false;
    }
    !(update.action == SubscriberAction::Register && update.groups.len() == 0)
}

/// Execute one control command. A kick is carried out on call control at once (see
/// `CcBsSubentity::kick_ms`) and answered only when the command came with a requester
/// (`respond`); every other command becomes an effect for the entity that owns it.
pub fn do_control_command(cc: &mut CcBsSubentity, queue: &mut Vec<CcAction>, cmd: ControlCommand, respond: bool) -> (r: ControlEffect)
    requires
        old(cc).wf(),
    ensures
        final(cc).wf(),
        match cmd {
            ControlCommand::KickMs { issi } => {
                let success = old(cc).subscribers().contains_key(issi);
                &&& final(cc).subscribers() == old(cc).subscribers().remove(issi)
                &&& !success ==> *final(cc) == *old(cc) && final(queue)@ == old(queue)@
                &&& success ==> final(queue)@.len() > old(queue)@.len() && final(queue)@.last()
                    == CcAction::DeregisterSubscriber { issi }
                &&& if respond { r == ControlEffect::KickMsResponse { issi, success } } else { r == ControlEffect::KickMsDone }
            },
            ControlCommand::Dgna { issi, gssi, mnemonic, attachment_mode, attach } => {
                &&& *final(cc) == *old(cc)
                &&& final(queue)@ == old(queue)@
                &&& r == ControlEffect::DgnaToMm { issi, gssi, mnemonic, attachment_mode, attach }
            },
            ControlCommand::RestartService => *final(cc) == *old(cc) && final(queue)@ == old(queue)@ && r
                == ControlEffect::Service { action: ServiceAction::Restart, delay_ms: SERVICE_ACTION_DELAY_MS },
            ControlCommand::ShutdownService => *final(cc) == *old(cc) && final(queue)@ == old(queue)@ && r
                == ControlEffect::Service { action: ServiceAction::Stop, delay_ms: SERVICE_ACTION_DELAY_MS },
            ControlCommand::Sds { kind } => *final(cc) == *old(cc) && final(queue)@ == old(queue)@ && r
                == ControlEffect::ToSds { kind },
        },
{
    match cmd {
        ControlCommand::KickMs { issi } => {
            let success = cc.kick_ms(queue, issi);
            if respond {
                ControlEffect::KickMsResponse { issi, success }
            } else {
                ControlEffect::KickMsDone
            }
        },
        ControlCommand::Dgna { issi, gssi, mnemonic, attachment_mode, attach } => {
            ControlEffect::DgnaToMm { issi, gssi, mnemonic, attachment_mode, attach }
        },
        ControlCommand::RestartService => ControlEffect::Service {
            action: ServiceAction::Restart,
            delay_ms: SERVICE_ACTION_DELAY_MS,
        },
        ControlCommand::ShutdownService => ControlEffect::Service {
            action: ServiceAction::Stop,
            delay_ms: SERVICE_ACTION_DELAY_MS,
        },
        ControlCommand::Sds { kind } => ControlEffect::ToSds { kind },
    }
}

/// Kick every registered subscriber (the SDS "kick all" command): afterwards none is left.
pub fn kick_all(cc: &mut CcBsSubentity, queue: &mut Vec<CcAction>)
    requires
        old(cc).wf(),
    ensures
        final(cc).wf(),
        final(cc).subscribers().dom() == Set::<u32>::empty(),
        final(queue)@.len() >= old(queue)@.len(),
        final(queue)@.take(old(queue)@.len() as int) == old(queue)@,
{
    let issis = cc.subscriber_issis();
    let ghost d0 = cc.subscribers().dom();
    let ghost q0 = queue@;
    let mut i: usize = 0;
    while i < issis.len()
        invariant
            cc.wf(),
            issis@.to_set() == d0,
            issis@.no_duplicates(),
            i <= issis@.len(),
            cc.subscribers().dom() == d0.difference(issis@.take(i as int).to_set()),
            queue@.len() >= q0.len(),
            queue@.take(q0.len() as int) == q0,
        decreases issis@.len() - i,
    {
        let issi = issis[i];
        let ghost qb = queue@;
        let _ = cc.kick_ms(queue, issi);
        proof {
            assert(issis@.take(i + 1).to_set() =~= issis@.take(i as int).to_set().insert(issi)) by {
                assert(issis@.take(i + 1) =~= issis@.take(i as int).push(issi));
                issis@.take(i as int).lemma_push_to_set_commute(issi);
            }
            assert(cc.subscribers().dom() =~= d0.difference(issis@.take(i + 1).to_set()));
            assert(queue@.take(q0.len() as int) =~= q0) by {
                assert(queue@.take(q0.len() as int) =~= queue@.take(qb.len() as int).take(q0.len() as int));
            }
        }
        i = i + 1;
    }
    proof {
        assert(issis@.take(issis@.len() as int) =~= issis@);
        assert(cc.subscribers().dom() =~= Set::<u32>::empty());
    }
}

} // verus!
