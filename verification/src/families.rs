//! Process families: a set of processes with everything that descends from
//! them. Input is attributed to an application through the family that it heads.

use crate::processes::RunningProcess;
use std::collections::HashSet;
use vstd::prelude::*;

verus! {

broadcast use {vstd::std_specs::hash::group_hash_axioms, vstd::set::group_set_axioms};

/// Every child of a member is a member.
pub open spec fn closed_under_children(set: Set<u32>, processes: Seq<RunningProcess>) -> bool {
    forall|i: int|
        0 <= i < processes.len() && set.contains(#[trigger] processes[i].ppid) ==> set.contains(
            processes[i].pid,
        )
}

/// The pids in `roots` and all that descend from them: what every set that
/// holds `roots` and each child of a member holds.
pub open spec fn family(roots: Set<u32>, processes: Seq<RunningProcess>) -> Set<u32> {
    Set::new(
        |pid: u32|
            forall|set: Set<u32>|
                roots.subset_of(set) && closed_under_children(set, processes)
                    ==> #[trigger] set.contains(pid),
    )
}

/// How many processes of the table are not in `set`.
spec fn outside(set: Set<u32>, processes: Seq<RunningProcess>) -> nat
    decreases processes.len(),
{
    if processes.len() == 0 {
        0
    } else {
        outside(set, processes.drop_last()) + if set.contains(processes.last().pid) {
            0nat
        } else {
            1nat
        }
    }
}

proof fn lemma_outside_insert(set: Set<u32>, pid: u32, processes: Seq<RunningProcess>)
    ensures
        outside(set.insert(pid), processes) <= outside(set, processes),
        !set.contains(pid) && (exists|i: int|
            0 <= i < processes.len() && #[trigger] processes[i].pid == pid) ==> outside(
            set.insert(pid),
            processes,
        ) < outside(set, processes),
    decreases processes.len(),
{
    if processes.len() > 0 {
        lemma_outside_insert(set, pid, processes.drop_last());
        if !set.contains(pid) && exists|i: int|
            0 <= i < processes.len() && #[trigger] processes[i].pid == pid {
            let i = choose|i: int| 0 <= i < processes.len() && #[trigger] processes[i].pid == pid;
            if i < processes.len() - 1 {
                assert(processes.drop_last()[i].pid == pid);
            }
        }
    }
}

/// Add every descendant (through ppid, transitively) of the pids already in
/// `family`.
pub fn expand_process_family(family: &mut HashSet<u32>, processes: &[RunningProcess])
    ensures
        final(family)@ == self::family(old(family)@, processes@),
{
    let ghost roots = family@;
    let mut changed: bool = true;
    while changed
        invariant
            roots.subset_of(family@),
            forall|set: Set<u32>|
                roots.subset_of(set) && closed_under_children(set, processes@)
                    ==> #[trigger] family@.subset_of(set),
            !changed ==> closed_under_children(family@, processes@),
        decreases outside(family@, processes@), changed as int,
    {
        changed = false;
        let ghost before = family@;
        let mut i: usize = 0;
        while i < processes.len()
            invariant
                i <= processes.len(),
                roots.subset_of(family@),
                forall|set: Set<u32>|
                    roots.subset_of(set) && closed_under_children(set, processes@)
                        ==> #[trigger] family@.subset_of(set),
                changed ==> outside(family@, processes@) < outside(before, processes@),
                !changed ==> family@ == before,
                !changed ==> forall|j: int|
                    0 <= j < i && family@.contains(#[trigger] processes@[j].ppid)
                        ==> family@.contains(processes@[j].pid),
            decreases processes.len() - i,
        {
            let ghost known = family@;
            if family.contains(&processes[i].ppid) {
                proof {
                    lemma_outside_insert(known, processes@[i as int].pid, processes@);
                    assert forall|set: Set<u32>|
                        roots.subset_of(set) && closed_under_children(
                            set,
                            processes@,
                        ) implies #[trigger] known.insert(processes@[i as int].pid).subset_of(
                        set,
                    ) by {
                        assert(known.subset_of(set));
                        assert(set.contains(processes@[i as int].ppid));
                    }
                }
                if family.insert(processes[i].pid) {
                    changed = true;
                } else {
                    proof {
                        assert(family@ =~= known);
                    }
                }
            }
            i += 1;
        }
    }
    proof {
        assert(family@ =~= self::family(roots, processes@)) by {
            assert forall|pid: u32| family@.contains(pid) implies self::family(
                roots,
                processes@,
            ).contains(pid) by {
                assert forall|set: Set<u32>|
                    roots.subset_of(set) && closed_under_children(
                        set,
                        processes@,
                    ) implies #[trigger] set.contains(pid) by {
                    assert(family@.subset_of(set));
                }
            }
        }
    }
}

/// A family holds its roots, and every child of a member.
pub proof fn lemma_family_is_closed(roots: Set<u32>, processes: Seq<RunningProcess>)
    ensures
        roots.subset_of(family(roots, processes)),
        closed_under_children(family(roots, processes), processes),
{
    let f = family(roots, processes);
    assert forall|i: int|
        0 <= i < processes.len() && f.contains(#[trigger] processes[i].ppid) implies f.contains(
        processes[i].pid,
    ) by {
        assert forall|set: Set<u32>|
            roots.subset_of(set) && closed_under_children(
                set,
                processes,
            ) implies #[trigger] set.contains(processes[i].pid) by {
            assert(set.contains(processes[i].ppid));
        }
    }
}

/// A family holds nothing that it need not: every set that holds the roots
/// and each child of a member holds the family.
pub proof fn lemma_family_is_least(
    roots: Set<u32>,
    processes: Seq<RunningProcess>,
    set: Set<u32>,
)
    requires
        roots.subset_of(set),
        closed_under_children(set, processes),
    ensures
        family(roots, processes).subset_of(set),
{
}

/// Expanding a family a second time adds nothing.
pub proof fn lemma_family_is_stable(roots: Set<u32>, processes: Seq<RunningProcess>)
    ensures
        family(family(roots, processes), processes) == family(roots, processes),
{
    let f = family(roots, processes);
    lemma_family_is_closed(roots, processes);
    lemma_family_is_closed(f, processes);
    lemma_family_is_least(f, processes, f);
    assert(family(f, processes) =~= f);
}

/// More roots make no smaller family.
pub proof fn lemma_family_grows_with_roots(
    fewer: Set<u32>,
    more: Set<u32>,
    processes: Seq<RunningProcess>,
)
    requires
        fewer.subset_of(more),
    ensures
        family(fewer, processes).subset_of(family(more, processes)),
{
    lemma_family_is_closed(more, processes);
    lemma_family_is_least(fewer, processes, family(more, processes));
}

/// The pids in the table.
pub open spec fn pids(processes: Seq<RunningProcess>) -> Set<u32> {
    Set::new(|pid: u32| exists|i: int| 0 <= i < processes.len() && #[trigger] processes[i].pid == pid)
}

/// A family that is rooted in the table stays in the table.
pub proof fn lemma_family_is_running(roots: Set<u32>, processes: Seq<RunningProcess>)
    requires
        roots.subset_of(pids(processes)),
    ensures
        family(roots, processes).subset_of(pids(processes)),
{
    lemma_family_is_least(roots, processes, pids(processes));
}

/// Whether some process of the family is capturing.
pub open spec fn captures(family: Set<u32>, active: Set<u32>) -> bool {
    exists|pid: u32| family.contains(pid) && #[trigger] active.contains(pid)
}

/// Only input of the family counts: where none of its processes captures,
/// whatever else holds the microphone makes no difference.
pub proof fn lemma_foreign_input_does_not_count(
    family: Set<u32>,
    active: Set<u32>,
    foreign: Set<u32>,
)
    requires
        family.disjoint(foreign),
    ensures
        captures(family, active.union(foreign)) == captures(family, active),
{
    if captures(family, active) {
        let pid = choose|pid: u32| family.contains(pid) && #[trigger] active.contains(pid);
        assert(active.union(foreign).contains(pid));
    }
    if captures(family, active.union(foreign)) {
        let pid = choose|pid: u32|
            family.contains(pid) && #[trigger] active.union(foreign).contains(pid);
        assert(active.contains(pid));
    }
}

/// Tells whether a family that is rooted in the table captures.
pub(crate) fn family_captures(
    family: &HashSet<u32>,
    processes: &[RunningProcess],
    active_input_pids: &HashSet<u32>,
) -> (yes: bool)
    requires
        family@.subset_of(pids(processes@)),
    ensures
        yes == captures(family@, active_input_pids@),
{
    let mut i: usize = 0;
    while i < processes.len()
        invariant
            i <= processes.len(),
            forall|j: int|
                0 <= j < i ==> !(family@.contains(#[trigger] processes@[j].pid)
                    && active_input_pids@.contains(processes@[j].pid)),
        decreases processes.len() - i,
    {
        let pid: u32 = processes[i].pid;
        if family.contains(&pid) && active_input_pids.contains(&pid) {
            return true;
        }
        i += 1;
    }
    proof {
        assert forall|pid: u32| family@.contains(pid) implies !(
        #[trigger] active_input_pids@.contains(pid)) by {
            assert(pids(processes@).contains(pid));
        }
    }
    false
}

/// The processes of a table are those that it lists.
pub proof fn lemma_pids_are_those_listed(
    processes: Seq<RunningProcess>,
    process: RunningProcess,
    pid: u32,
)
    ensures
        pids(processes.push(process)) == pids(processes).insert(process.pid),
        !pids(Seq::empty()).contains(pid),
{
    let more = processes.push(process);
    assert(more[processes.len() as int] == process);
    assert forall|p: u32| pids(more).contains(p) <==> pids(processes).insert(process.pid).contains(
        p,
    ) by {
        if pids(processes).contains(p) {
            let i = choose|i: int| 0 <= i < processes.len() && #[trigger] processes[i].pid == p;
            assert(more[i].pid == p);
        }
        if pids(more).contains(p) && p != process.pid {
            let i = choose|i: int| 0 <= i < more.len() && #[trigger] more[i].pid == p;
            assert(processes[i].pid == p);
        }
    }
    assert(pids(more) =~= pids(processes).insert(process.pid));
}

/// A root captures for its family, and so does each child of one of the
/// family; a process that descends from none of the roots does not.
pub proof fn lemma_who_captures_for_a_family(
    roots: Set<u32>,
    processes: Seq<RunningProcess>,
    pid: u32,
    child: int,
)
    requires
        0 <= child < processes.len(),
    ensures
        roots.contains(pid) ==> captures(family(roots, processes), set![pid]),
        captures(family(roots, processes), set![processes[child].ppid]) ==> captures(
            family(roots, processes),
            set![processes[child].pid],
        ),
        !captures(family(roots, processes), Set::empty()),
        !captures(family(Set::empty(), processes), set![pid]),
{
    let kin = family(roots, processes);
    lemma_family_is_closed(roots, processes);
    if roots.contains(pid) {
        assert(kin.contains(pid) && set![pid].contains(pid));
    }
    if captures(kin, set![processes[child].ppid]) {
        let p = choose|p: u32| kin.contains(p) && #[trigger] set![processes[child].ppid].contains(p);
        assert(p == processes[child].ppid);
        assert(kin.contains(processes[child].pid));
        assert(set![processes[child].pid].contains(processes[child].pid));
    }
    lemma_family_is_least(Set::empty(), processes, Set::empty());
}

} // verus!
