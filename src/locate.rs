//! Choice of the target process among the running ones.
use crate::error::SessionError;
use crate::maps::same_text;
use vstd::prelude::*;

verus! {

/// One running process, as the host lists it.
pub struct ProcessEntry {
    pub pid: u32,
    pub name: String,
}

/// Entry `i` is a process named `name`.
pub open spec fn is_match(procs: Seq<ProcessEntry>, name: Seq<char>, i: int) -> bool {
    0 <= i < procs.len() && procs[i].name@ == name
}

/// Some process is named `name`.
pub open spec fn has_match(procs: Seq<ProcessEntry>, name: Seq<char>) -> bool {
    exists|i: int| is_match(procs, name, i)
}

/// `p` is the smallest id among the processes named `name`.
pub open spec fn is_least_match(procs: Seq<ProcessEntry>, name: Seq<char>, p: u32) -> bool {
    &&& exists|i: int| is_match(procs, name, i) && procs[i].pid == p
    &&& forall|i: int| is_match(procs, name, i) ==> p <= #[trigger] procs[i].pid
}

/// What locating `name` among `procs` gives: the smallest id of a process
/// with exactly that name, an error when there is none, or an error when
/// that id does not fit the 16 bits of the select-target payload.
pub open spec fn locate_outcome(
    procs: Seq<ProcessEntry>,
    name: Seq<char>,
    r: Result<u16, SessionError>,
) -> bool {
    match r {
        Ok(pid) => is_least_match(procs, name, pid as u32),
        Err(SessionError::ProcessNotFound) => !has_match(procs, name),
        Err(SessionError::PidOutOfRange(p)) => is_least_match(procs, name, p) && p > u16::MAX,
        _ => false,
    }
}

/// Each process of listing `a` is in listing `b`, with the same id and name.
pub open spec fn listed_in(a: Seq<ProcessEntry>, b: Seq<ProcessEntry>) -> bool {
    forall|i: int|
        0 <= i < a.len() ==> exists|j: int|
            0 <= j < b.len() && b[j].pid == #[trigger] a[i].pid && b[j].name@ == a[i].name@
}

/// The two listings hold the same processes, in any order.
pub open spec fn same_processes(a: Seq<ProcessEntry>, b: Seq<ProcessEntry>) -> bool {
    listed_in(a, b) && listed_in(b, a)
}

/// Finds the process to work on: among the processes named exactly `name`,
/// the one with the smallest id, whatever the order of the listing.
pub fn locate_pid(processes: &Vec<ProcessEntry>, name: &str) -> (r: Result<u16, SessionError>)
    ensures
        locate_outcome(processes@, name@, r),
{
    let mut best: Option<u32> = None;
    let ghost mut at: int = 0;
    let mut i: usize = 0;
    while i < processes.len()
        invariant
            i <= processes@.len(),
            best is None ==> forall|j: int| 0 <= j < i ==> !is_match(processes@, name@, j),
            best matches Some(p) ==> {
                &&& 0 <= at < i && is_match(processes@, name@, at) && processes@[at].pid == p
                &&& forall|j: int|
                    0 <= j < i && is_match(processes@, name@, j) ==> p <= #[trigger] processes@[j].pid
            },
        decreases processes.len() - i,
    {
        let entry = &processes[i];
        if same_text(entry.name.as_str(), name) {
            match best {
                None => {
                    best = Some(entry.pid);
                    proof {
                        at = i as int;
                    }
                },
                Some(p) => {
                    if entry.pid < p {
                        best = Some(entry.pid);
                        proof {
                            at = i as int;
                        }
                    }
                },
            }
        }
        i = i + 1;
    }
    match best {
        None => Err(SessionError::ProcessNotFound),
        Some(p) => {
            if p <= 0xffff {
                Ok(p as u16)
            } else {
                Err(SessionError::PidOutOfRange(p))
            }
        },
    }
}

/// With no process of that name, locating fails with `ProcessNotFound`.
pub proof fn lemma_no_match_not_found(
    procs: Seq<ProcessEntry>,
    name: Seq<char>,
    r: Result<u16, SessionError>,
)
    requires
        locate_outcome(procs, name, r),
        forall|i: int| 0 <= i < procs.len() ==> procs[i].name@ != name,
    ensures
        r == Err::<u16, SessionError>(SessionError::ProcessNotFound),
{
    assert(!has_match(procs, name));
}

proof fn lemma_least_match_unique(procs: Seq<ProcessEntry>, name: Seq<char>, p: u32, q: u32)
    requires
        is_least_match(procs, name, p),
        is_least_match(procs, name, q),
    ensures
        p == q,
{
    let i = choose|i: int| is_match(procs, name, i) && procs[i].pid == p;
    let j = choose|j: int| is_match(procs, name, j) && procs[j].pid == q;
    assert(p <= procs[j].pid);
    assert(q <= procs[i].pid);
}

proof fn lemma_least_match_carries(a: Seq<ProcessEntry>, b: Seq<ProcessEntry>, name: Seq<char>, p: u32)
    requires
        same_processes(a, b),
        is_least_match(a, name, p),
    ensures
        is_least_match(b, name, p),
{
    let i = choose|i: int| is_match(a, name, i) && a[i].pid == p;
    let j = choose|j: int| 0 <= j < b.len() && b[j].pid == a[i].pid && b[j].name@ == a[i].name@;
    assert(is_match(b, name, j) && b[j].pid == p);
    assert forall|k: int| is_match(b, name, k) implies p <= #[trigger] b[k].pid by {
        let m = choose|m: int| 0 <= m < a.len() && a[m].pid == b[k].pid && a[m].name@ == b[k].name@;
        assert(is_match(a, name, m));
        assert(p <= a[m].pid);
    }
}

proof fn lemma_has_match_carries(a: Seq<ProcessEntry>, b: Seq<ProcessEntry>, name: Seq<char>)
    requires
        same_processes(a, b),
        has_match(a, name),
    ensures
        has_match(b, name),
{
    let i = choose|i: int| is_match(a, name, i);
    let j = choose|j: int| 0 <= j < b.len() && b[j].pid == a[i].pid && b[j].name@ == a[i].name@;
    assert(is_match(b, name, j));
}

/// Two listings of the same processes, in any order, locate the same
/// process: the choice does not depend on the order of the listing.
pub proof fn lemma_locate_order_independent(
    a: Seq<ProcessEntry>,
    b: Seq<ProcessEntry>,
    name: Seq<char>,
    ra: Result<u16, SessionError>,
    rb: Result<u16, SessionError>,
)
    requires
        same_processes(a, b),
        locate_outcome(a, name, ra),
        locate_outcome(b, name, rb),
    ensures
        ra == rb,
{
    if has_match(a, name) {
        lemma_has_match_carries(a, b, name);
    }
    if has_match(b, name) {
        lemma_has_match_carries(b, a, name);
    }
    match ra {
        Ok(pa) => {
            lemma_least_match_carries(a, b, name, pa as u32);
            match rb {
                Ok(pb) => {
                    lemma_least_match_unique(b, name, pa as u32, pb as u32);
                },
                Err(SessionError::PidOutOfRange(q)) => {
                    lemma_least_match_unique(b, name, pa as u32, q);
                },
                _ => {},
            }
        },
        Err(SessionError::PidOutOfRange(p)) => {
            lemma_least_match_carries(a, b, name, p);
            match rb {
                Ok(pb) => {
                    lemma_least_match_unique(b, name, p, pb as u32);
                },
                Err(SessionError::PidOutOfRange(q)) => {
                    lemma_least_match_unique(b, name, p, q);
                },
                _ => {},
            }
        },
        _ => {},
    }
}

} // verus!
