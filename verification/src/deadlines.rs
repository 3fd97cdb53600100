//! Moments and deadlines, and a map from names to deadlines.
//!
//! A moment is a count of nanoseconds since some fixed start, as a monotonic
//! clock gives it. A deadline has more bits, so that adding a wait to a
//! moment cannot overflow.

use crate::text::same_text;
use vstd::prelude::*;

verus! {

pub const NANOS_PER_SEC: u64 = 1_000_000_000;

/// The deadline this many seconds behind `now`.
pub open spec fn deadline(now: u64, secs: u64) -> u128 {
    (now + secs * NANOS_PER_SEC) as u128
}

pub fn deadline_after(now: u64, secs: u64) -> (until: u128)
    ensures
        until == deadline(now, secs),
        until == now + secs * NANOS_PER_SEC,
{
    proof {
        assert(secs * NANOS_PER_SEC <= u64::MAX * 1_000_000_000) by (nonlinear_arith)
            requires
                secs <= u64::MAX,
                NANOS_PER_SEC == 1_000_000_000,
        ;
    }
    now as u128 + secs as u128 * NANOS_PER_SEC as u128
}

/// Whether at least this many seconds lie between two moments.
pub open spec fn has_elapsed(since: u64, now: u64, secs: u64) -> bool {
    now >= deadline(since, secs)
}

pub fn elapsed(since: u64, now: u64, secs: u64) -> (yes: bool)
    ensures
        yes == has_elapsed(since, now, secs),
{
    now as u128 >= deadline_after(since, secs)
}

/// A deadline for each of some names.
#[derive(Debug)]
pub struct DeadlineMap {
    entries: Vec<(String, u128)>,
}

impl View for DeadlineMap {
    type V = Map<Seq<char>, u128>;

    closed spec fn view(&self) -> Map<Seq<char>, u128> {
        entry_map(self.entries@)
    }
}

spec fn unique_names(entries: Seq<(String, u128)>) -> bool {
    forall|i: int, j: int|
        0 <= i < j < entries.len() ==> (#[trigger] entries[i]).0@ != (#[trigger] entries[j]).0@
}

spec fn has_name(entries: Seq<(String, u128)>, i: int, name: Seq<char>) -> bool {
    0 <= i < entries.len() && entries[i].0@ == name
}

spec fn entry_map(entries: Seq<(String, u128)>) -> Map<Seq<char>, u128> {
    Map::new(
        |name: Seq<char>| exists|i: int| has_name(entries, i, name),
        |name: Seq<char>| entries[choose|i: int| has_name(entries, i, name)].1,
    )
}

proof fn lemma_entry(entries: Seq<(String, u128)>, i: int)
    requires
        unique_names(entries),
        0 <= i < entries.len(),
    ensures
        entry_map(entries).dom().contains(entries[i].0@),
        entry_map(entries)[entries[i].0@] == entries[i].1,
{
    let name = entries[i].0@;
    assert(has_name(entries, i, name));
    let j = choose|j: int| has_name(entries, j, name);
    assert(j == i);
}

impl DeadlineMap {
    #[verifier::type_invariant]
    spec fn well_formed(self) -> bool {
        unique_names(self.entries@)
    }

    pub fn new() -> (map: DeadlineMap)
        ensures
            map@ == Map::<Seq<char>, u128>::empty(),
    {
        let map = DeadlineMap { entries: Vec::new() };
        proof {
            assert forall|name: Seq<char>| !map@.dom().contains(name) by {
                assert forall|i: int| !has_name(map.entries@, i, name) by {}
            }
            assert(map@ =~= Map::<Seq<char>, u128>::empty());
        }
        map
    }

    fn find(&self, name: &str) -> (index: Option<usize>)
        ensures
            match index {
                Some(i) => i < self.entries@.len() && self.entries@[i as int].0@ == name@,
                None => !self@.dom().contains(name@),
            },
    {
        let mut i: usize = 0;
        while i < self.entries.len()
            invariant
                i <= self.entries.len(),
                forall|j: int| 0 <= j < i ==> (#[trigger] self.entries@[j]).0@ != name@,
            decreases self.entries.len() - i,
        {
            if same_text(self.entries[i].0.as_str(), name) {
                return Some(i);
            }
            i += 1;
        }
        None
    }

    pub fn get(&self, name: &str) -> (until: Option<u128>)
        ensures
            until == (if self@.dom().contains(name@) {
                Some(self@[name@])
            } else {
                None
            }),
    {
        proof {
            use_type_invariant(self);
        }
        match self.find(name) {
            Some(i) => {
                proof {
                    lemma_entry(self.entries@, i as int);
                }
                Some(self.entries[i].1)
            },
            None => None,
        }
    }

    pub fn remove(&mut self, name: &str)
        ensures
            final(self)@ == old(self)@.remove(name@),
    {
        proof {
            use_type_invariant(&*self);
        }
        let ghost before = self.entries@;
        match self.find(name) {
            Some(i) => {
                let mut entries: Vec<(String, u128)> = Vec::new();
                std::mem::swap(&mut entries, &mut self.entries);
                let _ = entries.remove(i);
                self.entries = entries;
                proof {
                    let after = self.entries@;
                    assert(after == before.remove(i as int));
                    assert forall|k: int| 0 <= k < after.len() implies #[trigger] after[k]
                        == before[if k < i {
                        k
                    } else {
                        k + 1
                    }] by {}
                    assert forall|other: Seq<char>| #[trigger]
                        entry_map(after).dom().contains(other) == entry_map(before).remove(
                            name@,
                        ).dom().contains(other) by {
                        if entry_map(after).dom().contains(other) {
                            let k = choose|k: int| has_name(after, k, other);
                            let m = if k < i {
                                k
                            } else {
                                k + 1
                            };
                            assert(has_name(before, m, other));
                            assert(before[m].0@ != before[i as int].0@);
                        }
                        if entry_map(before).remove(name@).dom().contains(other) {
                            let m = choose|m: int| has_name(before, m, other);
                            let k = if m < i {
                                m
                            } else {
                                m - 1
                            };
                            assert(has_name(after, k, other));
                        }
                    }
                    assert forall|other: Seq<char>|
                        entry_map(after).dom().contains(other) implies entry_map(after)[other]
                        == entry_map(before)[other] by {
                        let k = choose|k: int| has_name(after, k, other);
                        let m = if k < i {
                            k
                        } else {
                            k + 1
                        };
                        assert(has_name(before, m, other));
                        lemma_entry(after, k);
                        lemma_entry(before, m);
                    }
                    assert(entry_map(after) =~= entry_map(before).remove(name@));
                }
            },
            None => {
                proof {
                    assert(self@.remove(name@) =~= self@);
                }
            },
        }
    }

    pub fn insert(&mut self, name: &str, until: u128)
        ensures
            final(self)@ == old(self)@.insert(name@, until),
    {
        self.remove(name);
        proof {
            use_type_invariant(&*self);
        }
        let ghost before = self.entries@;
        let ghost known = self@;
        let mut entries: Vec<(String, u128)> = Vec::new();
        std::mem::swap(&mut entries, &mut self.entries);
        entries.push((name.to_owned(), until));
        proof {
            let after = entries@;
            assert(!known.dom().contains(name@));
            assert forall|i: int| 0 <= i < before.len() implies (#[trigger] before[i]).0@
                != name@ by {
                lemma_entry(before, i);
            }
            assert(unique_names(after));
            assert forall|other: Seq<char>| #[trigger]
                entry_map(after).dom().contains(other) == entry_map(before).insert(
                    name@,
                    until,
                ).dom().contains(other) by {
                if entry_map(after).dom().contains(other) {
                    let k = choose|k: int| has_name(after, k, other);
                    if k < before.len() {
                        assert(has_name(before, k, other));
                    }
                }
                if entry_map(before).dom().contains(other) {
                    let k = choose|k: int| has_name(before, k, other);
                    assert(has_name(after, k, other));
                }
                if other == name@ {
                    assert(has_name(after, before.len() as int, other));
                }
            }
            assert forall|other: Seq<char>|
                entry_map(after).dom().contains(other) implies entry_map(after)[other]
                == entry_map(before).insert(name@, until)[other] by {
                let k = choose|k: int| has_name(after, k, other);
                lemma_entry(after, k);
                if k < before.len() {
                    lemma_entry(before, k);
                }
            }
            assert(entry_map(after) =~= entry_map(before).insert(name@, until));
        }
        self.entries = entries;
        proof {
            assert(self@ =~= old(self)@.insert(name@, until));
        }
    }
}

/// A wait of so many seconds is over exactly when as many thousand million
/// nanoseconds have passed.
pub proof fn lemma_wait_is_over_in_time(since: u64, now: u64, secs: u64)
    requires
        secs <= 1_000_000_000,
    ensures
        deadline(since, secs) == since + secs * 1_000_000_000,
        has_elapsed(since, now, secs) <==> now - since >= secs * 1_000_000_000,
{
    assert(secs * NANOS_PER_SEC <= 1_000_000_000 * 1_000_000_000) by (nonlinear_arith)
        requires
            secs <= 1_000_000_000,
            NANOS_PER_SEC == 1_000_000_000,
    ;
}

} // verus!
