//! The boot-arming table: the single piece of mutable state.
//!
//! It maps a machine's network identity (MAC address) to the name of the
//! payload that machine is armed to netboot.  A key is present if and only if
//! the machine is currently armed; absence means "not armed" and the claim
//! operation treats it exactly like an unknown machine.
//!
//! The table is a sequence of entries with pairwise-distinct MAC addresses,
//! abstracted as a `Map<Seq<char>, Seq<char>>`.  Claiming is non-destructive:
//! repeated claims for the same MAC return the same payload name until an
//! explicit release or a re-arm, so a loader that queries several times
//! during one boot attempt never gets a spurious "not armed".

use vstd::prelude::*;

verus! {

/// One armed machine: a MAC address and the payload name it will boot.
#[derive(Debug, Clone, PartialEq, Eq)]
pub struct BootEntry {
    pub mac: String,
    pub payload_name: String,
}

/// The mathematical shape of a [`BootEntry`].
#[verifier::ext_equal]
pub struct BootEntryV {
    pub mac: Seq<char>,
    pub payload_name: Seq<char>,
}

impl View for BootEntry {
    type V = BootEntryV;

    open spec fn view(&self) -> BootEntryV {
        BootEntryV { mac: self.mac@, payload_name: self.payload_name@ }
    }
}

impl DeepView for BootEntry {
    type V = BootEntryV;

    open spec fn deep_view(&self) -> BootEntryV {
        self.view()
    }
}

/// No two entries share a MAC address.
pub open spec fn macs_unique(s: Seq<BootEntryV>) -> bool {
    forall|i: int, j: int| 0 <= i < j < s.len() ==> s[i].mac != s[j].mac
}

/// The mapping an entry sequence stands for; a later entry for the same MAC
/// overrides an earlier one.
pub open spec fn map_of(s: Seq<BootEntryV>) -> Map<Seq<char>, Seq<char>>
    decreases s.len(),
{
    if s.len() == 0 {
        Map::empty()
    } else {
        map_of(s.drop_last()).insert(s.last().mac, s.last().payload_name)
    }
}

proof fn lemma_map_of_contains(s: Seq<BootEntryV>, k: Seq<char>)
    ensures
        map_of(s).contains_key(k) <==> exists|i: int| 0 <= i < s.len() && s[i].mac == k,
    decreases s.len(),
{
    if s.len() > 0 {
        lemma_map_of_contains(s.drop_last(), k);
        if map_of(s).contains_key(k) {
            if k == s.last().mac {
                assert(s[s.len() - 1].mac == k);
            } else {
                let i = choose|i: int| 0 <= i < s.drop_last().len() && s.drop_last()[i].mac == k;
                assert(s[i].mac == k);
            }
        }
        if exists|i: int| 0 <= i < s.len() && s[i].mac == k {
            let i = choose|i: int| 0 <= i < s.len() && s[i].mac == k;
            if i < s.len() - 1 {
                assert(s.drop_last()[i].mac == k);
            }
        }
    }
}

proof fn lemma_map_of_index(s: Seq<BootEntryV>, i: int)
    requires
        macs_unique(s),
        0 <= i < s.len(),
    ensures
        map_of(s).contains_key(s[i].mac),
        map_of(s)[s[i].mac] == s[i].payload_name,
    decreases s.len(),
{
    if i < s.len() - 1 {
        assert(macs_unique(s.drop_last()));
        assert(s.drop_last()[i] == s[i]);
        lemma_map_of_index(s.drop_last(), i);
        assert(s[i].mac != s.last().mac);
    }
}

proof fn lemma_map_of_update(s: Seq<BootEntryV>, i: int, e: BootEntryV)
    requires
        macs_unique(s),
        0 <= i < s.len(),
        e.mac == s[i].mac,
    ensures
        map_of(s.update(i, e)) =~= map_of(s).insert(e.mac, e.payload_name),
        macs_unique(s.update(i, e)),
    decreases s.len(),
{
    let t = s.update(i, e);
    assert(macs_unique(t));
    if i == s.len() - 1 {
        assert(t.drop_last() =~= s.drop_last());
        assert(t.last() == e);
    } else {
        assert(macs_unique(s.drop_last()));
        assert(s.drop_last()[i] == s[i]);
        lemma_map_of_update(s.drop_last(), i, e);
        assert(t.drop_last() =~= s.drop_last().update(i, e));
        assert(t.last() == s.last());
        assert(e.mac != s.last().mac);
    }
}

proof fn lemma_map_of_remove(s: Seq<BootEntryV>, i: int)
    requires
        macs_unique(s),
        0 <= i < s.len(),
    ensures
        map_of(s.remove(i)) =~= map_of(s).remove(s[i].mac),
        macs_unique(s.remove(i)),
    decreases s.len(),
{
    let t = s.remove(i);
    assert(macs_unique(t));
    if i == s.len() - 1 {
        assert(t =~= s.drop_last());
        lemma_map_of_contains(s.drop_last(), s[i].mac);
        assert(forall|j: int|
            0 <= j < s.drop_last().len() ==> s.drop_last()[j].mac != s[i].mac);
        assert(!map_of(s.drop_last()).contains_key(s[i].mac));
    } else {
        assert(macs_unique(s.drop_last()));
        assert(s.drop_last()[i] == s[i]);
        lemma_map_of_remove(s.drop_last(), i);
        assert(t.drop_last() =~= s.drop_last().remove(i));
        assert(t.last() == s.last());
        assert(s[i].mac != s.last().mac);
    }
}

/// The boot-arming table.  Arm unconditionally inserts or overwrites, claim
/// is a non-destructive lookup, release removes.
#[derive(Debug)]
pub struct BootArmingTable {
    entries: Vec<BootEntry>,
}

impl View for BootArmingTable {
    type V = Map<Seq<char>, Seq<char>>;

    closed spec fn view(&self) -> Map<Seq<char>, Seq<char>> {
        map_of(self.entries.deep_view())
    }
}

impl BootArmingTable {
    #[verifier::type_invariant]
    spec fn inv(self) -> bool {
        macs_unique(self.entries.deep_view())
    }

    /// An empty table: no machine is armed.
    pub fn new() -> (t: Self)
        ensures
            t@ == Map::<Seq<char>, Seq<char>>::empty(),
    {
        BootArmingTable { entries: Vec::new() }
    }

    /// The position of the entry for `mac`, if one exists.
    fn find_index(&self, mac: &String) -> (r: Option<usize>)
        ensures
            match r {
                Some(i) => i < self.entries.deep_view().len()
                    && self.entries.deep_view()[i as int].mac == mac@,
                None => forall|j: int|
                    0 <= j < self.entries.deep_view().len()
                        ==> self.entries.deep_view()[j].mac != mac@,
            },
    {
        let mut i: usize = 0;
        while i < self.entries.len()
            invariant
                i <= self.entries.len(),
                forall|j: int| 0 <= j < i ==> self.entries.deep_view()[j].mac != mac@,
            decreases self.entries.len() - i,
        {
            if self.entries[i].mac == *mac {
                return Some(i);
            }
            i = i + 1;
        }
        None
    }

    /// Arms `mac` to boot `payload_name`, overwriting any pending payload.
    /// No constraint on prior state; re-arming simply replaces the entry.
    pub fn arm(&mut self, mac: &String, payload_name: &String)
        ensures
            final(self)@ == old(self)@.insert(mac@, payload_name@),
    {
        proof {
            use_type_invariant(&*self);
        }
        let idx = self.find_index(mac);
        let entry = BootEntry { mac: mac.clone(), payload_name: payload_name.clone() };
        let ghost s = self.entries.deep_view();
        let mut entries: Vec<BootEntry> = Vec::new();
        std::mem::swap(&mut entries, &mut self.entries);
        match idx {
            Some(i) => {
                entries.set(i, entry);
                proof {
                    assert(entries.deep_view() =~= s.update(i as int, (BootEntryV {
                        mac: mac@,
                        payload_name: payload_name@,
                    })));
                    lemma_map_of_update(s, i as int, (BootEntryV {
                        mac: mac@,
                        payload_name: payload_name@,
                    }));
                }
            },
            None => {
                entries.push(entry);
                proof {
                    assert(entries.deep_view() =~= s.push((BootEntryV {
                        mac: mac@,
                        payload_name: payload_name@,
                    })));
                    assert(entries.deep_view().drop_last() =~= s);
                    assert(macs_unique(entries.deep_view()));
                }
            },
        }
        self.entries = entries;
    }

    /// The payload name `mac` is armed to boot, or `None` if it is not
    /// armed.  The entry is not removed: claiming is idempotent.
    pub fn claim(&self, mac: &String) -> (r: Option<&String>)
        ensures
            match r {
                Some(p) => self@.contains_key(mac@) && p@ == self@[mac@],
                None => !self@.contains_key(mac@),
            },
    {
        proof {
            use_type_invariant(&*self);
        }
        match self.find_index(mac) {
            Some(i) => {
                proof {
                    lemma_map_of_index(self.entries.deep_view(), i as int);
                }
                Some(&self.entries[i].payload_name)
            },
            None => {
                proof {
                    lemma_map_of_contains(self.entries.deep_view(), mac@);
                }
                None
            },
        }
    }

    /// Disarms `mac`.  Nothing happens if it was not armed.
    pub fn release(&mut self, mac: &String)
        ensures
            final(self)@ == old(self)@.remove(mac@),
    {
        proof {
            use_type_invariant(&*self);
        }
        let idx = self.find_index(mac);
        let ghost s = self.entries.deep_view();
        match idx {
            Some(i) => {
                let mut entries: Vec<BootEntry> = Vec::new();
                std::mem::swap(&mut entries, &mut self.entries);
                entries.remove(i);
                proof {
                    assert(entries.deep_view() =~= s.remove(i as int));
                    lemma_map_of_remove(s, i as int);
                }
                self.entries = entries;
            },
            None => {
                proof {
                    lemma_map_of_contains(s, mac@);
                    assert(self@ =~= old(self)@.remove(mac@));
                }
            },
        }
    }

    /// The armed entries, for read-only display.  Every listed entry is in
    /// the table, and every armed MAC is listed exactly once.
    pub fn entries(&self) -> (r: &Vec<BootEntry>)
        ensures
            macs_unique(r.deep_view()),
            forall|i: int|
                0 <= i < r.deep_view().len()
                    ==> self@.contains_key(#[trigger] r.deep_view()[i].mac)
                        && self@[r.deep_view()[i].mac] == r.deep_view()[i].payload_name,
            forall|k: Seq<char>|
                self@.contains_key(k)
                    ==> exists|i: int| 0 <= i < r.deep_view().len() && r.deep_view()[i].mac == k,
    {
        proof {
            use_type_invariant(&*self);
            assert forall|i: int| 0 <= i < self.entries.deep_view().len() implies self@.contains_key(
                #[trigger] self.entries.deep_view()[i].mac,
            ) && self@[self.entries.deep_view()[i].mac]
                == self.entries.deep_view()[i].payload_name by {
                lemma_map_of_index(self.entries.deep_view(), i);
            }
            assert forall|k: Seq<char>| self@.contains_key(k) implies exists|i: int|
                0 <= i < self.entries.deep_view().len() && self.entries.deep_view()[i].mac
                    == k by {
                lemma_map_of_contains(self.entries.deep_view(), k);
            }
        }
        &self.entries
    }
}

} // verus!
