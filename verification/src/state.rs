//! The coordinator: the façade behind the two external-facing operations.
//!
//! `trigger_boot` (operator-facing) validates a machine and payload against
//! the registry, arms the boot-arming table, and hands back the machine's
//! pre-boot actions to run.  The arming write happens before any
//! side-effecting action, so that even if an action later fails the machine
//! is already armed and a manual reboot still receives the correct payload.
//!
//! `resolve_boot` (loader-facing) claims the armed payload for a MAC
//! address without removing it, so repeated loader queries during one boot
//! attempt all succeed.
//!
//! A `State` is constructed explicitly by [`load_state`] and passed to
//! every request handler; concurrent use is the surrounding program's
//! affair (a readers-writer lock around the whole value: claims may share
//! it, arming needs it exclusively).

use vstd::prelude::*;

use crate::actions::copy_actions;
use crate::attempt::BootAttempt;
use crate::attempt::BootAttemptV;
use crate::errors::BootError;
use crate::errors::BootErrorV;
use crate::registry::machine_ids_unique;
use crate::registry::machine_macs_unique;
use crate::registry::payload_names_unique;
use crate::registry::registry_wf;
use crate::registry::Machine;
use crate::registry::Payload;
use crate::registry::PayloadV;
use crate::registry::Registry;
use crate::registry::RegistryV;
use crate::table::BootArmingTable;
use crate::table::BootEntry;

verus! {

/// The mathematical shape of a [`State`]: the immutable registry, the
/// boot-arming map from MAC address to payload name, and the default
/// payload name.
#[verifier::ext_equal]
pub struct StateV {
    pub registry: RegistryV,
    pub booting: Map<Seq<char>, Seq<char>>,
    pub default_payload: Seq<char>,
}

/// The coordinator's state: the registry, the boot-arming table it owns,
/// and the name of the payload shown as the default choice.
pub struct State {
    registry: Registry,
    booting: BootArmingTable,
    default_payload: String,
}

impl View for State {
    type V = StateV;

    closed spec fn view(&self) -> StateV {
        StateV {
            registry: self.registry@,
            booting: self.booting@,
            default_payload: self.default_payload@,
        }
    }
}

/// What `trigger_boot` returns: the payload name is looked up first, then
/// the machine; on success, a fresh attempt over the machine's pre-boot
/// actions.
pub open spec fn trigger_outcome(s: StateV, id: Seq<char>, payload_name: Seq<char>) -> Result<
    BootAttemptV,
    BootErrorV,
> {
    if !s.registry.payloads.contains_key(payload_name) {
        Err(BootErrorV::UnknownPayload)
    } else if !s.registry.machines.contains_key(id) {
        Err(BootErrorV::UnknownMachine)
    } else {
        Ok(
            BootAttemptV {
                actions: s.registry.machines[id].pre_boot_actions,
                next: 0,
                failure: None,
            },
        )
    }
}

/// The boot-arming map after `trigger_boot`: on success the machine's MAC
/// is armed with the payload name, overwriting any pending entry; a
/// rejected request leaves the map unchanged.
pub open spec fn trigger_booting_after(s: StateV, id: Seq<char>, payload_name: Seq<char>) -> Map<
    Seq<char>,
    Seq<char>,
> {
    if s.registry.payloads.contains_key(payload_name) && s.registry.machines.contains_key(id) {
        s.booting.insert(s.registry.machines[id].mac, payload_name)
    } else {
        s.booting
    }
}

/// What `resolve_boot` returns: not armed, armed with a payload that has
/// since left the registry, or the armed payload itself.
pub open spec fn resolve_outcome(s: StateV, mac: Seq<char>) -> Result<PayloadV, BootErrorV> {
    if !s.booting.contains_key(mac) {
        Err(BootErrorV::NotArmed)
    } else if !s.registry.payloads.contains_key(s.booting[mac]) {
        Err(BootErrorV::ConfigurationInconsistency)
    } else {
        Ok(s.registry.payloads[s.booting[mac]])
    }
}

/// Builds the coordinator state from already-parsed machine and payload
/// lists.  No machine is armed initially.  Returns `None` exactly when the
/// lists violate a registry invariant: a duplicate machine identifier, a
/// duplicate MAC address, or a duplicate payload name.
pub fn load_state(machines: Vec<Machine>, payloads: Vec<Payload>, default_payload: String) -> (r:
    Option<State>)
    ensures
        r is Some <==> machine_ids_unique(machines.deep_view()) && machine_macs_unique(
            machines.deep_view(),
        ) && payload_names_unique(payloads.deep_view()),
        r matches Some(s) ==> {
            &&& registry_wf(s@.registry)
            &&& s@.booting == Map::<Seq<char>, Seq<char>>::empty()
            &&& s@.default_payload == default_payload@
            &&& forall|j: int|
                0 <= j < machines.deep_view().len() ==> s@.registry.machines.contains_key(
                    #[trigger] machines.deep_view()[j].id,
                ) && s@.registry.machines[machines.deep_view()[j].id] == machines.deep_view()[j]
            &&& forall|k: Seq<char>|
                #[trigger] s@.registry.machines.contains_key(k) ==> exists|j: int|
                    0 <= j < machines.deep_view().len() && machines.deep_view()[j].id == k
            &&& forall|j: int|
                0 <= j < payloads.deep_view().len() ==> s@.registry.payloads.contains_key(
                    #[trigger] payloads.deep_view()[j].name,
                ) && s@.registry.payloads[payloads.deep_view()[j].name] == payloads.deep_view()[j]
            &&& forall|k: Seq<char>|
                #[trigger] s@.registry.payloads.contains_key(k) ==> exists|j: int|
                    0 <= j < payloads.deep_view().len() && payloads.deep_view()[j].name == k
        },
{
    match Registry::from_parts(machines, payloads) {
        Some(registry) => Some(
            State { registry, booting: BootArmingTable::new(), default_payload },
        ),
        None => None,
    }
}

impl State {
    /// Arms `machine_id` to netboot `payload_name`.
    ///
    /// The payload name is validated first, then the machine; a rejected
    /// request leaves the boot-arming table unchanged.  On success the
    /// machine's MAC is armed — before any side effect — and the machine's
    /// pre-boot actions are returned as a [`BootAttempt`] for the caller to
    /// run in order.  An action failure reported later does not roll the
    /// arming back.
    pub fn trigger_boot(&mut self, machine_id: &String, payload_name: &String) -> (r: Result<
        BootAttempt,
        BootError,
    >)
        ensures
            final(self)@.registry == old(self)@.registry,
            final(self)@.default_payload == old(self)@.default_payload,
            final(self)@.booting == trigger_booting_after(old(self)@, machine_id@, payload_name@),
            (match r {
                Ok(a) => Ok::<BootAttemptV, BootErrorV>(a@),
                Err(e) => Err::<BootAttemptV, BootErrorV>(e@),
            }) == trigger_outcome(old(self)@, machine_id@, payload_name@),
    {
        if self.registry.payload(payload_name).is_none() {
            return Err(BootError::UnknownPayload);
        }
        let machine = match self.registry.machine(machine_id) {
            Some(m) => m,
            None => {
                return Err(BootError::UnknownMachine);
            },
        };
        let actions = copy_actions(&machine.pre_boot_actions);
        self.booting.arm(&machine.mac, payload_name);
        Ok(BootAttempt::new(actions))
    }

    /// Answers the netboot loader's query: the payload armed for `mac`.
    ///
    /// Not armed is indistinguishable from unknown: both answer
    /// `NotArmed`.  The entry is not removed, so an immediate second query
    /// returns the same payload.  An armed payload name that no longer
    /// resolves in the registry is a configuration inconsistency, not a
    /// client error.
    pub fn resolve_boot(&self, mac: &String) -> (r: Result<&Payload, BootError>)
        ensures
            (match r {
                Ok(p) => Ok::<PayloadV, BootErrorV>(p@),
                Err(e) => Err::<PayloadV, BootErrorV>(e@),
            }) == resolve_outcome(self@, mac@),
    {
        let payload_name = match self.booting.claim(mac) {
            Some(name) => name,
            None => {
                return Err(BootError::NotArmed);
            },
        };
        match self.registry.payload(payload_name) {
            Some(p) => Ok(p),
            None => Err(BootError::ConfigurationInconsistency),
        }
    }

    /// Disarms `mac`; used once boot has progressed far enough that
    /// re-claims are no longer expected, or to cancel a pending boot.
    pub fn release_boot(&mut self, mac: &String)
        ensures
            final(self)@.registry == old(self)@.registry,
            final(self)@.default_payload == old(self)@.default_payload,
            final(self)@.booting == old(self)@.booting.remove(mac@),
    {
        self.booting.release(mac);
    }

    /// The currently armed entries, for read-only display.
    pub fn armed_entries(&self) -> (r: &Vec<BootEntry>)
        ensures
            forall|i: int|
                0 <= i < r.deep_view().len() ==> self@.booting.contains_key(
                    #[trigger] r.deep_view()[i].mac,
                ) && self@.booting[r.deep_view()[i].mac] == r.deep_view()[i].payload_name,
            forall|k: Seq<char>|
                self@.booting.contains_key(k) ==> exists|i: int|
                    0 <= i < r.deep_view().len() && r.deep_view()[i].mac == k,
    {
        self.booting.entries()
    }

    /// The name of the payload offered as the default choice.
    pub fn default_payload(&self) -> (r: &String)
        ensures
            r@ == self@.default_payload,
    {
        &self.default_payload
    }
}

/// A payload name not in the registry is rejected with `UnknownPayload`
/// and leaves the boot-arming table unchanged, whatever the machine was.
pub proof fn lemma_unknown_payload_rejected(s: StateV, id: Seq<char>, payload_name: Seq<char>)
    requires
        !s.registry.payloads.contains_key(payload_name),
    ensures
        trigger_outcome(s, id, payload_name) == Err::<BootAttemptV, BootErrorV>(
            BootErrorV::UnknownPayload,
        ),
        trigger_booting_after(s, id, payload_name) == s.booting,
{
}

/// A machine not in the registry is rejected with `UnknownMachine` and
/// leaves the boot-arming table unchanged.  The payload name is looked up
/// first, so this holds for every payload the registry knows; with an
/// unknown payload the `UnknownPayload` rejection wins.
pub proof fn lemma_unknown_machine_rejected(s: StateV, id: Seq<char>, payload_name: Seq<char>)
    requires
        s.registry.payloads.contains_key(payload_name),
        !s.registry.machines.contains_key(id),
    ensures
        trigger_outcome(s, id, payload_name) == Err::<BootAttemptV, BootErrorV>(
            BootErrorV::UnknownMachine,
        ),
        trigger_booting_after(s, id, payload_name) == s.booting,
{
}

/// A MAC address that is not armed — never armed, or released since —
/// resolves to `NotArmed`.
pub proof fn lemma_not_armed(s: StateV, mac: Seq<char>)
    requires
        !s.booting.contains_key(mac),
    ensures
        resolve_outcome(s, mac) == Err::<PayloadV, BootErrorV>(BootErrorV::NotArmed),
{
}

/// Arming then resolving: after a successful `trigger_boot` of `id` with
/// `payload_name`, resolving the machine's MAC returns exactly the armed
/// payload.  `resolve_boot` takes the state immutably and removes nothing,
/// so an immediate second resolution answers from the same state and
/// returns the same payload.
pub proof fn lemma_trigger_then_resolve(s: StateV, id: Seq<char>, payload_name: Seq<char>)
    requires
        s.registry.machines.contains_key(id),
        s.registry.payloads.contains_key(payload_name),
    ensures
        trigger_outcome(s, id, payload_name) is Ok,
        ({
            let armed = (StateV { booting: trigger_booting_after(s, id, payload_name), ..s });
            resolve_outcome(armed, s.registry.machines[id].mac) == Ok::<PayloadV, BootErrorV>(
                s.registry.payloads[payload_name],
            )
        }),
{
}

/// Last write wins: re-arming the same machine with a different payload
/// before it is claimed makes resolution see only the latest payload.
pub proof fn lemma_rearm_replaces(s: StateV, id: Seq<char>, first: Seq<char>, second: Seq<char>)
    requires
        s.registry.machines.contains_key(id),
        s.registry.payloads.contains_key(first),
        s.registry.payloads.contains_key(second),
    ensures
        ({
            let once = (StateV { booting: trigger_booting_after(s, id, first), ..s });
            let twice = (StateV { booting: trigger_booting_after(once, id, second), ..once });
            resolve_outcome(twice, s.registry.machines[id].mac) == Ok::<PayloadV, BootErrorV>(
                s.registry.payloads[second],
            )
        }),
{
}

/// Arming requests for distinct machines are independent: after arming one
/// machine and then another, each machine's MAC resolves to its own
/// payload.  Exchanging the arguments covers the other interleaving, so
/// the result does not depend on which request came first.
pub proof fn lemma_distinct_machines_independent(
    s: StateV,
    id1: Seq<char>,
    id2: Seq<char>,
    first: Seq<char>,
    second: Seq<char>,
)
    requires
        registry_wf(s.registry),
        id1 != id2,
        s.registry.machines.contains_key(id1),
        s.registry.machines.contains_key(id2),
        s.registry.payloads.contains_key(first),
        s.registry.payloads.contains_key(second),
    ensures
        ({
            let one = (StateV { booting: trigger_booting_after(s, id1, first), ..s });
            let both = (StateV { booting: trigger_booting_after(one, id2, second), ..one });
            &&& resolve_outcome(both, s.registry.machines[id1].mac) == Ok::<PayloadV, BootErrorV>(
                s.registry.payloads[first],
            )
            &&& resolve_outcome(both, s.registry.machines[id2].mac) == Ok::<PayloadV, BootErrorV>(
                s.registry.payloads[second],
            )
        }),
{
    assert(s.registry.machines[id1].mac != s.registry.machines[id2].mac);
}

} // verus!
