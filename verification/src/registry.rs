//! The registry: the immutable, process-lifetime mapping from machine
//! identity to machine descriptor and from payload name to payload
//! descriptor.
//!
//! A registry is built once at startup from already-parsed machine and
//! payload lists and is read-only thereafter.  Construction validates the
//! registry invariants: machine identifiers are unique, MAC addresses are
//! unique per machine, and payload names are unique.

use vstd::hash_map::StringHashMap;
use vstd::prelude::*;

use crate::actions::Action;
use crate::actions::ActionV;
use crate::actions::Ipmi;
use crate::actions::IpmiV;

verus! {

/// A known machine: an operator-chosen identifier, its network identity,
/// an optional management endpoint for power control, and the ordered
/// side-effecting steps to run when the machine is armed.
#[derive(Debug, Clone, PartialEq, Eq)]
pub struct Machine {
    pub id: String,
    pub mac: String,
    pub ipmi: Option<Ipmi>,
    pub pre_boot_actions: Vec<Action>,
}

/// The mathematical shape of a [`Machine`].
#[verifier::ext_equal]
pub struct MachineV {
    pub id: Seq<char>,
    pub mac: Seq<char>,
    pub ipmi: Option<IpmiV>,
    pub pre_boot_actions: Seq<ActionV>,
}

impl View for Machine {
    type V = MachineV;

    open spec fn view(&self) -> MachineV {
        MachineV {
            id: self.id@,
            mac: self.mac@,
            ipmi: self.ipmi.deep_view(),
            pre_boot_actions: self.pre_boot_actions.deep_view(),
        }
    }
}

impl DeepView for Machine {
    type V = MachineV;

    open spec fn deep_view(&self) -> MachineV {
        self.view()
    }
}

/// A bootable payload: what is delivered to a machine once it reaches the
/// network boot stage.
#[derive(Debug, Clone, PartialEq, Eq)]
pub struct Payload {
    pub name: String,
    pub kernel: String,
    pub initrd: Vec<String>,
    pub cmdline: String,
    pub message: String,
}

/// The mathematical shape of a [`Payload`].
#[verifier::ext_equal]
pub struct PayloadV {
    pub name: Seq<char>,
    pub kernel: Seq<char>,
    pub initrd: Seq<Seq<char>>,
    pub cmdline: Seq<char>,
    pub message: Seq<char>,
}

impl View for Payload {
    type V = PayloadV;

    open spec fn view(&self) -> PayloadV {
        PayloadV {
            name: self.name@,
            kernel: self.kernel@,
            initrd: self.initrd.deep_view(),
            cmdline: self.cmdline@,
            message: self.message@,
        }
    }
}

impl DeepView for Payload {
    type V = PayloadV;

    open spec fn deep_view(&self) -> PayloadV {
        self.view()
    }
}

/// No two machines share an identifier.
pub open spec fn machine_ids_unique(s: Seq<MachineV>) -> bool {
    forall|i: int, j: int| 0 <= i < j < s.len() ==> s[i].id != s[j].id
}

/// No two machines share a MAC address.
pub open spec fn machine_macs_unique(s: Seq<MachineV>) -> bool {
    forall|i: int, j: int| 0 <= i < j < s.len() ==> s[i].mac != s[j].mac
}

/// No two payloads share a name.
pub open spec fn payload_names_unique(s: Seq<PayloadV>) -> bool {
    forall|i: int, j: int| 0 <= i < j < s.len() ==> s[i].name != s[j].name
}

/// The mathematical shape of a [`Registry`].
#[verifier::ext_equal]
pub struct RegistryV {
    pub machines: Map<Seq<char>, MachineV>,
    pub payloads: Map<Seq<char>, PayloadV>,
}

/// The registry invariants: every machine is keyed by its own identifier,
/// distinct machines have distinct MAC addresses, and every payload is
/// keyed by its own name.
pub open spec fn registry_wf(r: RegistryV) -> bool {
    &&& forall|k: Seq<char>| #[trigger] r.machines.contains_key(k) ==> r.machines[k].id == k
    &&& forall|k1: Seq<char>, k2: Seq<char>|
        #![trigger r.machines[k1], r.machines[k2]]
        r.machines.contains_key(k1) && r.machines.contains_key(k2) && k1 != k2
            ==> r.machines[k1].mac != r.machines[k2].mac
    &&& forall|k: Seq<char>| #[trigger] r.payloads.contains_key(k) ==> r.payloads[k].name == k
}

/// The immutable registry of known machines and payloads.
pub struct Registry {
    machines: StringHashMap<Machine>,
    payloads: StringHashMap<Payload>,
}

impl View for Registry {
    type V = RegistryV;

    closed spec fn view(&self) -> RegistryV {
        RegistryV {
            machines: self.machines@.map_values(|m: Machine| m@),
            payloads: self.payloads@.map_values(|p: Payload| p@),
        }
    }
}

/// Builds the machine map, rejecting duplicate identifiers and duplicate
/// MAC addresses.
#[verifier::loop_isolation(false)]
fn build_machine_map(machines: Vec<Machine>) -> (r: Option<StringHashMap<Machine>>)
    ensures
        r is Some <==> machine_ids_unique(machines.deep_view()) && machine_macs_unique(
            machines.deep_view(),
        ),
        r matches Some(m) ==> {
            &&& forall|j: int|
                0 <= j < machines.deep_view().len() ==> m@.contains_key(
                    #[trigger] machines.deep_view()[j].id,
                ) && m@[machines.deep_view()[j].id]@ == machines.deep_view()[j]
            &&& forall|k: Seq<char>|
                #[trigger] m@.contains_key(k) ==> exists|j: int|
                    0 <= j < machines.deep_view().len() && machines.deep_view()[j].id == k
        },
{
    let ghost msx: Seq<Machine> = machines@;
    let ghost ms: Seq<MachineV> = machines.deep_view();
    let n: usize = machines.len();
    let mut rest = machines;
    let mut map: StringHashMap<Machine> = StringHashMap::new();
    let mut mac_seen: StringHashMap<bool> = StringHashMap::new();
    while rest.len() > 0
        invariant
            n == msx.len(),
            ms.len() == msx.len(),
            forall|j: int| 0 <= j < msx.len() ==> ms[j] == #[trigger] msx[j]@,
            rest@.len() <= msx.len(),
            rest@ == msx.subrange(msx.len() - rest@.len(), msx.len() as int),
            forall|j: int|
                0 <= j < msx.len() - rest@.len() ==> map@.contains_key(#[trigger] ms[j].id)
                    && map@[ms[j].id] == msx[j],
            forall|k: Seq<char>|
                #[trigger] map@.contains_key(k) ==> exists|j: int|
                    0 <= j < msx.len() - rest@.len() && ms[j].id == k,
            forall|k: Seq<char>|
                #[trigger] mac_seen@.contains_key(k) <==> exists|j: int|
                    0 <= j < msx.len() - rest@.len() && #[trigger] ms[j].mac == k,
            forall|j1: int, j2: int|
                0 <= j1 < j2 < msx.len() - rest@.len() ==> ms[j1].id != ms[j2].id && ms[j1].mac
                    != ms[j2].mac,
        decreases rest@.len(),
    {
        let ghost i: int = msx.len() - rest@.len();
        let m = rest.remove(0);
        proof {
            assert(m == msx[i]);
            assert(m@ == ms[i]);
            assert(rest@ =~= msx.subrange(msx.len() - rest@.len(), msx.len() as int));
        }
        if map.contains_key(m.id.as_str()) {
            proof {
                let j = choose|j: int| 0 <= j < i && ms[j].id == m.id@;
                assert(ms[j].id == ms[i].id);
                assert(!machine_ids_unique(ms));
            }
            return None;
        }
        if mac_seen.contains_key(m.mac.as_str()) {
            proof {
                let j = choose|j: int| 0 <= j < i && ms[j].mac == m.mac@;
                assert(ms[j].mac == ms[i].mac);
                assert(!machine_macs_unique(ms));
            }
            return None;
        }
        let id = m.id.clone();
        let mac = m.mac.clone();
        mac_seen.insert(mac, true);
        map.insert(id, m);
        proof {
            assert forall|k: Seq<char>| #[trigger] mac_seen@.contains_key(k) implies exists|j: int|
                0 <= j < i + 1 && #[trigger] ms[j].mac == k by {
                if k == ms[i].mac {
                    assert(0 <= i < i + 1 && ms[i].mac == k);
                }
            }
            assert forall|k: Seq<char>|
                exists|j: int| 0 <= j < i + 1 && #[trigger] ms[j].mac == k
                implies #[trigger] mac_seen@.contains_key(k) by {
                let j = choose|j: int| 0 <= j < i + 1 && ms[j].mac == k;
                if j < i {
                    assert(exists|j2: int| 0 <= j2 < i && #[trigger] ms[j2].mac == k);
                }
            }
        }
    }
    proof {
        assert(rest@.len() == 0);
        assert(machine_ids_unique(ms));
        assert(machine_macs_unique(ms));
    }
    Some(map)
}

/// Builds the payload map, rejecting duplicate names.
#[verifier::loop_isolation(false)]
fn build_payload_map(payloads: Vec<Payload>) -> (r: Option<StringHashMap<Payload>>)
    ensures
        r is Some <==> payload_names_unique(payloads.deep_view()),
        r matches Some(m) ==> {
            &&& forall|j: int|
                0 <= j < payloads.deep_view().len() ==> m@.contains_key(
                    #[trigger] payloads.deep_view()[j].name,
                ) && m@[payloads.deep_view()[j].name]@ == payloads.deep_view()[j]
            &&& forall|k: Seq<char>|
                #[trigger] m@.contains_key(k) ==> exists|j: int|
                    0 <= j < payloads.deep_view().len() && payloads.deep_view()[j].name == k
        },
{
    let ghost psx: Seq<Payload> = payloads@;
    let ghost ps: Seq<PayloadV> = payloads.deep_view();
    let mut rest = payloads;
    let mut map: StringHashMap<Payload> = StringHashMap::new();
    while rest.len() > 0
        invariant
            ps.len() == psx.len(),
            forall|j: int| 0 <= j < psx.len() ==> ps[j] == #[trigger] psx[j]@,
            rest@.len() <= psx.len(),
            rest@ == psx.subrange(psx.len() - rest@.len(), psx.len() as int),
            forall|j: int|
                0 <= j < psx.len() - rest@.len() ==> map@.contains_key(#[trigger] ps[j].name)
                    && map@[ps[j].name] == psx[j],
            forall|k: Seq<char>|
                #[trigger] map@.contains_key(k) ==> exists|j: int|
                    0 <= j < psx.len() - rest@.len() && ps[j].name == k,
            forall|j1: int, j2: int|
                0 <= j1 < j2 < psx.len() - rest@.len() ==> ps[j1].name != ps[j2].name,
        decreases rest@.len(),
    {
        let ghost i: int = psx.len() - rest@.len();
        let p = rest.remove(0);
        proof {
            assert(p == psx[i]);
            assert(p@ == ps[i]);
            assert(rest@ =~= psx.subrange(psx.len() - rest@.len(), psx.len() as int));
        }
        if map.contains_key(p.name.as_str()) {
            proof {
                let j = choose|j: int| 0 <= j < i && ps[j].name == p.name@;
                assert(ps[j].name == ps[i].name);
                assert(!payload_names_unique(ps));
            }
            return None;
        }
        let name = p.name.clone();
        map.insert(name, p);
    }
    proof {
        assert(payload_names_unique(ps));
    }
    Some(map)
}

impl Registry {
    /// Builds a registry from already-parsed machine and payload lists.
    /// Returns `None` exactly when the lists violate a registry invariant:
    /// a duplicate machine identifier, a duplicate MAC address, or a
    /// duplicate payload name.
    pub fn from_parts(machines: Vec<Machine>, payloads: Vec<Payload>) -> (r: Option<Registry>)
        ensures
            r is Some <==> machine_ids_unique(machines.deep_view()) && machine_macs_unique(
                machines.deep_view(),
            ) && payload_names_unique(payloads.deep_view()),
            r matches Some(reg) ==> {
                &&& registry_wf(reg@)
                &&& forall|j: int|
                    0 <= j < machines.deep_view().len() ==> reg@.machines.contains_key(
                        #[trigger] machines.deep_view()[j].id,
                    ) && reg@.machines[machines.deep_view()[j].id] == machines.deep_view()[j]
                &&& forall|k: Seq<char>|
                    #[trigger] reg@.machines.contains_key(k) ==> exists|j: int|
                        0 <= j < machines.deep_view().len() && machines.deep_view()[j].id == k
                &&& forall|j: int|
                    0 <= j < payloads.deep_view().len() ==> reg@.payloads.contains_key(
                        #[trigger] payloads.deep_view()[j].name,
                    ) && reg@.payloads[payloads.deep_view()[j].name] == payloads.deep_view()[j]
                &&& forall|k: Seq<char>|
                    #[trigger] reg@.payloads.contains_key(k) ==> exists|j: int|
                        0 <= j < payloads.deep_view().len() && payloads.deep_view()[j].name == k
            },
    {
        let ghost ms = machines.deep_view();
        let ghost ps = payloads.deep_view();
        let machine_map = match build_machine_map(machines) {
            Some(m) => m,
            None => {
                return None;
            },
        };
        let payload_map = match build_payload_map(payloads) {
            Some(m) => m,
            None => {
                return None;
            },
        };
        let reg = Registry { machines: machine_map, payloads: payload_map };
        proof {
            assert forall|k: Seq<char>| #[trigger] reg@.machines.contains_key(k)
                implies reg@.machines[k].id == k && (exists|j: int|
                0 <= j < ms.len() && ms[j].id == k) by {
                assert(machine_map@.contains_key(k));
                let j = choose|j: int| 0 <= j < ms.len() && ms[j].id == k;
                assert(machine_map@[k]@ == ms[j]);
                assert(reg@.machines[k] == machine_map@[k]@);
            }
            assert forall|j: int| 0 <= j < ms.len() implies reg@.machines.contains_key(
                #[trigger] ms[j].id,
            ) && reg@.machines[ms[j].id] == ms[j] by {
                assert(machine_map@.contains_key(ms[j].id));
                assert(machine_map@[ms[j].id]@ == ms[j]);
            }
            assert forall|k1: Seq<char>, k2: Seq<char>|
                #![trigger reg@.machines[k1], reg@.machines[k2]]
                reg@.machines.contains_key(k1) && reg@.machines.contains_key(k2) && k1 != k2
                implies reg@.machines[k1].mac != reg@.machines[k2].mac by {
                let j1 = choose|j: int| 0 <= j < ms.len() && ms[j].id == k1;
                let j2 = choose|j: int| 0 <= j < ms.len() && ms[j].id == k2;
                assert(reg@.machines[k1] == ms[j1]);
                assert(reg@.machines[k2] == ms[j2]);
                assert(j1 != j2);
                assert(machine_macs_unique(ms));
            }
            assert forall|k: Seq<char>| #[trigger] reg@.payloads.contains_key(k)
                implies reg@.payloads[k].name == k && (exists|j: int|
                0 <= j < ps.len() && ps[j].name == k) by {
                assert(payload_map@.contains_key(k));
                let j = choose|j: int| 0 <= j < ps.len() && ps[j].name == k;
                assert(payload_map@[k]@ == ps[j]);
            }
            assert forall|j: int| 0 <= j < ps.len() implies reg@.payloads.contains_key(
                #[trigger] ps[j].name,
            ) && reg@.payloads[ps[j].name] == ps[j] by {
                assert(payload_map@.contains_key(ps[j].name));
                assert(payload_map@[ps[j].name]@ == ps[j]);
            }
        }
        Some(reg)
    }

    /// Looks up a machine by its identifier.
    pub fn machine(&self, id: &String) -> (r: Option<&Machine>)
        ensures
            match r {
                Some(m) => self@.machines.contains_key(id@) && m@ == self@.machines[id@],
                None => !self@.machines.contains_key(id@),
            },
    {
        let r = self.machines.get(id.as_str());
        proof {
            if self.machines@.contains_key(id@) {
                assert(self@.machines.contains_key(id@));
                assert(self@.machines[id@] == self.machines@[id@]@);
            } else {
                assert(!self@.machines.contains_key(id@));
            }
        }
        r
    }

    /// Looks up a payload by its name.
    pub fn payload(&self, name: &String) -> (r: Option<&Payload>)
        ensures
            match r {
                Some(p) => self@.payloads.contains_key(name@) && p@ == self@.payloads[name@],
                None => !self@.payloads.contains_key(name@),
            },
    {
        let r = self.payloads.get(name.as_str());
        proof {
            if self.payloads@.contains_key(name@) {
                assert(self@.payloads.contains_key(name@));
                assert(self@.payloads[name@] == self.payloads@[name@]@);
            } else {
                assert(!self@.payloads.contains_key(name@));
            }
        }
        r
    }
}

} // verus!
