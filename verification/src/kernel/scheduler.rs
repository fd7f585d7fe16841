//! Round-robin process scheduler.
use vstd::prelude::*;
use std::collections::VecDeque;
use crate::kernel::process::{Process, ProcessId, ProcessState, is_new_process};
use crate::types::Address;

verus! {

/// Abstract scheduler state.
pub struct SchedModel {
    /// All processes, in creation order
    pub procs: Seq<Process>,
    /// Ready queue of process IDs, front first
    pub queue: Seq<ProcessId>,
    /// The running process, if any
    pub current: Option<ProcessId>,
    /// Next process ID to hand out
    pub next_pid: ProcessId,
    /// Context switches so far
    pub switches: u64,
}

/// Index of the first process with the given ID at or after `from`.
pub open spec fn pid_pos(procs: Seq<Process>, pid: ProcessId, from: nat) -> Option<nat>
    decreases procs.len() - from,
{
    if from >= procs.len() {
        None
    } else if procs[from as int].pid == pid {
        Some(from)
    } else {
        pid_pos(procs, pid, from + 1)
    }
}

/// A found position holds the ID, and no earlier one does.
pub proof fn lemma_pid_pos(procs: Seq<Process>, pid: ProcessId, from: nat)
    ensures
        pid_pos(procs, pid, from) matches Some(i) ==> from <= i < procs.len() && procs[i as int].pid == pid
            && forall|j: int| from <= j < i ==> procs[j].pid != pid,
        pid_pos(procs, pid, from) is None ==> forall|j: int| from <= j < procs.len() ==> procs[j].pid != pid,
    decreases procs.len() - from,
{
    if from < procs.len() {
        lemma_pid_pos(procs, pid, from + 1);
    }
}

/// The process with the given ID, if any (the first one, should IDs repeat).
pub open spec fn find_process(procs: Seq<Process>, pid: ProcessId) -> Option<Process> {
    match pid_pos(procs, pid, 0) {
        Some(i) => Some(procs[i as int]),
        None => None,
    }
}

/// Number of processes that have not terminated.
pub open spec fn active_count(procs: Seq<Process>) -> nat
    decreases procs.len(),
{
    if procs.len() == 0 {
        0
    } else {
        active_count(procs.drop_last()) + (if procs.last().state != ProcessState::Terminated { 1nat } else { 0nat })
    }
}

/// Takes IDs off the front of the ready queue until one names a ready process, which starts
/// running and becomes current (one more context switch). With the queue exhausted nothing runs.
pub open spec fn dispatch(m: SchedModel) -> (SchedModel, Option<ProcessId>)
    decreases m.queue.len(),
{
    if m.queue.len() == 0 {
        (SchedModel { current: None, ..m }, None)
    } else {
        let pid = m.queue[0];
        let m1 = SchedModel { queue: m.queue.drop_first(), ..m };
        match pid_pos(m.procs, pid, 0) {
            Some(i) => if m.procs[i as int].state == ProcessState::Ready {
                (SchedModel {
                    procs: m.procs.update(i as int, Process { state: ProcessState::Running, ..m.procs[i as int] }),
                    current: Some(pid),
                    switches: (m.switches + 1) as u64,
                    ..m1
                }, Some(pid))
            } else {
                dispatch(m1)
            },
            None => dispatch(m1),
        }
    }
}

/// Round-robin scheduling: a running process with quantum left keeps the processor; one whose
/// quantum is spent goes back, ready and with a fresh quantum, to the end of the queue; then the
/// queue is served from the front.
pub open spec fn schedule_spec(m: SchedModel) -> (SchedModel, Option<ProcessId>) {
    match m.current {
        Some(c) => match pid_pos(m.procs, c, 0) {
            Some(i) => {
                let p = m.procs[i as int];
                if p.state == ProcessState::Running && p.time_quantum > 0 {
                    (m, Some(c))
                } else if p.state == ProcessState::Running {
                    dispatch(SchedModel {
                        procs: m.procs.update(i as int, Process { state: ProcessState::Ready, time_quantum: 100, ..p }),
                        queue: m.queue.push(c),
                        ..m
                    })
                } else {
                    dispatch(m)
                }
            },
            None => dispatch(m),
        },
        None => dispatch(m),
    }
}

/// Whether `pid` names a ready process.
pub open spec fn ready_pid(procs: Seq<Process>, pid: ProcessId) -> bool {
    pid_pos(procs, pid, 0) matches Some(i) && procs[i as int].state == ProcessState::Ready
}

/// The queue part of the scheduler's invariant: IDs are positive, below the next one and
/// distinct; the queue holds each ready process once and nothing else.
pub open spec fn queue_ok(m: SchedModel) -> bool {
    &&& 0 < m.next_pid
    &&& forall|i: int| #![trigger m.procs[i]] 0 <= i < m.procs.len() ==> 0 < m.procs[i].pid < m.next_pid
    &&& forall|i: int, j: int| #![trigger m.procs[i], m.procs[j]]
        0 <= i < j < m.procs.len() ==> m.procs[i].pid != m.procs[j].pid
    &&& forall|k: int| 0 <= k < m.queue.len() ==> #[trigger] ready_pid(m.procs, m.queue[k])
    &&& forall|k: int, l: int| #![trigger m.queue[k], m.queue[l]] 0 <= k < l < m.queue.len() ==> m.queue[k] != m.queue[l]
    &&& forall|i: int| #![trigger m.procs[i]]
        0 <= i < m.procs.len() && m.procs[i].state == ProcessState::Ready ==> m.queue.contains(m.procs[i].pid)
}

/// The scheduler's invariant: the queue part, and the running process is exactly the current
/// one.
pub open spec fn sched_ok(m: SchedModel) -> bool {
    &&& queue_ok(m)
    &&& forall|i: int| #![trigger m.procs[i]]
        0 <= i < m.procs.len() ==> (m.procs[i].state == ProcessState::Running <==> m.current == Some(m.procs[i].pid))
    &&& m.current matches Some(c) ==> pid_pos(m.procs, c, 0) is Some
}

/// With distinct IDs, a process is found at its own index.
pub proof fn lemma_pid_pos_unique(procs: Seq<Process>, i: int)
    requires
        0 <= i < procs.len(),
        forall|a: int, b: int| #![trigger procs[a], procs[b]] 0 <= a < b < procs.len() ==> procs[a].pid != procs[b].pid,
    ensures
        pid_pos(procs, procs[i].pid, 0) == Some(i as nat),
{
    lemma_pid_pos(procs, procs[i].pid, 0);
    match pid_pos(procs, procs[i].pid, 0) {
        Some(j) => {
            if (j as int) < i {
                assert(procs[j as int].pid != procs[i].pid);
            }
        },
        None => {
            assert(procs[i].pid != procs[i].pid);
        },
    }
}

/// Finding a process depends on the IDs alone.
pub proof fn lemma_pid_pos_same_ids(a: Seq<Process>, b: Seq<Process>, pid: ProcessId, from: nat)
    requires
        a.len() == b.len(),
        forall|i: int| 0 <= i < a.len() ==> #[trigger] a[i].pid == b[i].pid,
    ensures
        pid_pos(a, pid, from) == pid_pos(b, pid, from),
    decreases a.len() - from,
{
    if from < a.len() {
        assert(a[from as int].pid == b[from as int].pid);
        lemma_pid_pos_same_ids(a, b, pid, from + 1);
    }
}

/// Serving the queue when nothing runs: the front process starts running and leaves the queue
/// (nothing runs if the queue is empty); the invariant holds afterwards.
pub proof fn lemma_dispatch_ok(m: SchedModel)
    requires
        queue_ok(m),
        forall|i: int| #![trigger m.procs[i]] 0 <= i < m.procs.len() ==> m.procs[i].state != ProcessState::Running,
        m.switches < u64::MAX,
    ensures
        sched_ok(dispatch(m).0),
        m.queue.len() == 0 ==> dispatch(m).1 is None && dispatch(m).0 == (SchedModel { current: None, ..m }),
        m.queue.len() > 0 ==> dispatch(m).1 == Some(m.queue[0]) && dispatch(m).0.queue == m.queue.drop_first()
            && dispatch(m).0.current == Some(m.queue[0]),
{
    if m.queue.len() > 0 {
        let pid = m.queue[0];
        assert(ready_pid(m.procs, m.queue[0]));
        let i = pid_pos(m.procs, pid, 0)->0 as int;
        lemma_pid_pos(m.procs, pid, 0);
        let p2 = m.procs.update(i, Process { state: ProcessState::Running, ..m.procs[i] });
        let m2 = dispatch(m).0;
        assert(m2.procs == p2);
        assert forall|a: int| 0 <= a < p2.len() implies #[trigger] p2[a].pid == m.procs[a].pid by {}
        assert forall|k: ProcessId| true implies pid_pos(p2, k, 0) == pid_pos(m.procs, k, 0) by {
            lemma_pid_pos_same_ids(p2, m.procs, k, 0);
        }
        assert forall|k: int| 0 <= k < m2.queue.len() implies #[trigger] ready_pid(m2.procs, m2.queue[k]) by {
            assert(m2.queue[k] == m.queue[k + 1]);
            assert(ready_pid(m.procs, m.queue[k + 1]));
            assert(m.queue[0] != m.queue[k + 1]);
            lemma_pid_pos(m.procs, m.queue[k + 1], 0);
        }
        assert forall|a: int| #![trigger m2.procs[a]]
            0 <= a < m2.procs.len() && m2.procs[a].state == ProcessState::Ready implies m2.queue.contains(m2.procs[a].pid) by {
            assert(a != i);
            assert(m.queue.contains(m.procs[a].pid));
            let k = choose|k: int| 0 <= k < m.queue.len() && m.queue[k] == m.procs[a].pid;
            if k == 0 {
                lemma_pid_pos_unique(m.procs, a);
            } else {
                assert(m2.queue[k - 1] == m.procs[a].pid);
            }
        }
        assert forall|a: int| #![trigger m2.procs[a]] 0 <= a < m2.procs.len() implies
            (m2.procs[a].state == ProcessState::Running <==> m2.current == Some(m2.procs[a].pid)) by {
            if a != i && m2.procs[a].pid == pid {
                lemma_pid_pos_unique(m.procs, a);
            }
        }
        assert forall|k: int, l: int| #![trigger m2.queue[k], m2.queue[l]] 0 <= k < l < m2.queue.len()
            implies m2.queue[k] != m2.queue[l] by {
            assert(m.queue[k + 1] != m.queue[l + 1]);
        }
    }
}

/// A process that has run goes back, ready with a fresh quantum, to the end of the queue; the
/// queue part of the invariant holds and nothing runs afterwards.
pub proof fn lemma_requeue_ok(m: SchedModel, c: ProcessId, i: int)
    requires
        sched_ok(m),
        m.current == Some(c),
        0 <= i,
        pid_pos(m.procs, c, 0) == Some(i as nat),
    ensures
        ({
            let p = m.procs[i];
            let m2 = SchedModel {
                procs: m.procs.update(i, Process { state: ProcessState::Ready, time_quantum: 100, ..p }),
                queue: m.queue.push(c),
                ..m
            };
            &&& queue_ok(m2)
            &&& forall|a: int| #![trigger m2.procs[a]] 0 <= a < m2.procs.len() ==> m2.procs[a].state != ProcessState::Running
        }),
{
    lemma_pid_pos(m.procs, c, 0);
    let p = m.procs[i];
    let p2 = m.procs.update(i, Process { state: ProcessState::Ready, time_quantum: 100, ..p });
    let m2 = SchedModel { procs: p2, queue: m.queue.push(c), ..m };
    assert(m.procs[i].state == ProcessState::Running);
    assert forall|a: int| 0 <= a < p2.len() implies #[trigger] p2[a].pid == m.procs[a].pid by {}
    assert forall|k: ProcessId| true implies pid_pos(p2, k, 0) == pid_pos(m.procs, k, 0) by {
        lemma_pid_pos_same_ids(p2, m.procs, k, 0);
    }
    assert(!m.queue.contains(c)) by {
        if m.queue.contains(c) {
            let k = choose|k: int| 0 <= k < m.queue.len() && m.queue[k] == c;
            assert(ready_pid(m.procs, m.queue[k]));
        }
    }
    assert forall|k: int| 0 <= k < m2.queue.len() implies #[trigger] ready_pid(m2.procs, m2.queue[k]) by {
        if k < m.queue.len() {
            assert(m2.queue[k] == m.queue[k]);
            assert(ready_pid(m.procs, m.queue[k]));
            lemma_pid_pos(m.procs, m.queue[k], 0);
        }
    }
    assert forall|k: int, l: int| #![trigger m2.queue[k], m2.queue[l]] 0 <= k < l < m2.queue.len()
        implies m2.queue[k] != m2.queue[l] by {
        if l == m.queue.len() {
            assert(m.queue[k] != c);
        }
    }
    assert forall|a: int| #![trigger m2.procs[a]]
        0 <= a < m2.procs.len() && m2.procs[a].state == ProcessState::Ready implies m2.queue.contains(m2.procs[a].pid) by {
        if a == i {
            assert(m2.queue[m.queue.len() as int] == c);
        } else {
            assert(m.queue.contains(m.procs[a].pid));
            let k = choose|k: int| 0 <= k < m.queue.len() && m.queue[k] == m.procs[a].pid;
            assert(m2.queue[k] == m.procs[a].pid);
        }
    }
    assert forall|a: int| #![trigger m2.procs[a]] 0 <= a < m2.procs.len() implies m2.procs[a].state != ProcessState::Running by {
        if a != i && m.procs[a].state == ProcessState::Running {
            assert(m.current == Some(m.procs[a].pid));
            lemma_pid_pos_unique(m.procs, a);
        }
    }
}

/// Scheduling keeps the invariant.
pub proof fn lemma_schedule_ok(m: SchedModel)
    requires
        sched_ok(m),
        m.switches < u64::MAX,
    ensures
        sched_ok(schedule_spec(m).0),
{
    match m.current {
        Some(c) => {
            let i = pid_pos(m.procs, c, 0)->0 as int;
            lemma_pid_pos(m.procs, c, 0);
            let p = m.procs[i];
            assert(p.state == ProcessState::Running);
            if p.time_quantum == 0 {
                lemma_requeue_ok(m, c, i);
                lemma_dispatch_ok(SchedModel {
                    procs: m.procs.update(i, Process { state: ProcessState::Ready, time_quantum: 100, ..p }),
                    queue: m.queue.push(c),
                    ..m
                });
            }
        },
        None => {
            lemma_dispatch_ok(m);
        },
    }
}

/// Round robin: with nothing running, scheduling runs the process at the front of the queue
/// and takes it off the queue.
pub proof fn lemma_schedule_takes_front(m: SchedModel)
    requires
        sched_ok(m),
        m.current is None,
        m.queue.len() > 0,
        m.switches < u64::MAX,
    ensures
        schedule_spec(m).1 == Some(m.queue[0]),
        schedule_spec(m).0.queue == m.queue.drop_first(),
{
    lemma_dispatch_ok(m);
}

/// Whether the current process runs with quantum left, so that scheduling keeps it.
pub open spec fn keeps_running(m: SchedModel) -> bool {
    m.current matches Some(c) && find_process(m.procs, c) matches Some(p)
        && p.state == ProcessState::Running && p.time_quantum > 0
}

/// Serving the queue counts one context switch when a process is picked, none otherwise.
proof fn lemma_dispatch_counts(m: SchedModel)
    requires
        queue_ok(m),
        forall|i: int| #![trigger m.procs[i]] 0 <= i < m.procs.len() ==> m.procs[i].state != ProcessState::Running,
        m.switches < u64::MAX,
    ensures
        dispatch(m).0.switches == m.switches + (if dispatch(m).1 is Some { 1int } else { 0int }),
{
    lemma_dispatch_ok(m);
    if m.queue.len() > 0 {
        assert(ready_pid(m.procs, m.queue[0]));
    }
}

/// What scheduling answers: the process it picks becomes the current one and runs. A running
/// process with quantum left keeps the processor and nothing changes; otherwise the count of
/// context switches goes up by one exactly when a process is picked.
pub proof fn lemma_schedule_result(m: SchedModel)
    requires
        sched_ok(m),
        m.switches < u64::MAX,
    ensures
        ({
            let (n, r) = schedule_spec(m);
            &&& n.current == r
            &&& r matches Some(pid) ==> (find_process(n.procs, pid) matches Some(p) && p.state == ProcessState::Running)
            &&& keeps_running(m) ==> r == m.current && n == m
            &&& !keeps_running(m) ==> n.switches == m.switches + (if r is Some { 1int } else { 0int })
        }),
{
    lemma_schedule_ok(m);
    match m.current {
        Some(c) => {
            let i = pid_pos(m.procs, c, 0)->0 as int;
            lemma_pid_pos(m.procs, c, 0);
            let p = m.procs[i];
            assert(p.state == ProcessState::Running);
            if p.time_quantum == 0 {
                lemma_requeue_ok(m, c, i);
                let m2 = SchedModel {
                    procs: m.procs.update(i, Process { state: ProcessState::Ready, time_quantum: 100, ..p }),
                    queue: m.queue.push(c),
                    ..m
                };
                lemma_dispatch_ok(m2);
                lemma_dispatch_counts(m2);
            }
        },
        None => {
            lemma_dispatch_ok(m);
            lemma_dispatch_counts(m);
        },
    }
    let (n, r) = schedule_spec(m);
    if let Some(pid) = r {
        lemma_pid_pos(n.procs, pid, 0);
        let j = pid_pos(n.procs, pid, 0)->0 as int;
        assert(n.procs[j].pid == pid);
    }
}

/// At most one process runs at a time.
pub proof fn lemma_one_running(m: SchedModel, i: int, j: int)
    requires
        sched_ok(m),
        0 <= i < m.procs.len(),
        0 <= j < m.procs.len(),
        m.procs[i].state == ProcessState::Running,
        m.procs[j].state == ProcessState::Running,
    ensures
        i == j,
{
    if i < j {
        assert(m.procs[i].pid != m.procs[j].pid);
    } else if j < i {
        assert(m.procs[j].pid != m.procs[i].pid);
    }
}

/// Creating a process keeps the invariant.
pub proof fn lemma_create_ok(m: SchedModel, p: Process)
    requires
        sched_ok(m),
        m.next_pid < u32::MAX,
        p.pid == m.next_pid,
        p.state == ProcessState::Ready,
    ensures
        sched_ok(SchedModel { procs: m.procs.push(p), queue: m.queue.push(p.pid), next_pid: (m.next_pid + 1) as u32, ..m }),
{
    let m2 = SchedModel { procs: m.procs.push(p), queue: m.queue.push(p.pid), next_pid: (m.next_pid + 1) as u32, ..m };
    let n = m.procs.len() as int;
    assert forall|k: ProcessId| k != p.pid implies pid_pos(m2.procs, k, 0) == pid_pos(m.procs, k, 0) by {
        lemma_pid_pos_push(m.procs, p, k, 0);
    }
    assert(!m.queue.contains(p.pid)) by {
        if m.queue.contains(p.pid) {
            let k = choose|k: int| 0 <= k < m.queue.len() && m.queue[k] == p.pid;
            assert(ready_pid(m.procs, m.queue[k]));
            lemma_pid_pos(m.procs, p.pid, 0);
            let i = pid_pos(m.procs, p.pid, 0)->0 as int;
            assert(m.procs[i].pid < m.next_pid);
        }
    }
    assert forall|a: int| #![trigger m2.procs[a]] 0 <= a < n implies m2.procs[a].pid != p.pid by {
        assert(m.procs[a].pid < m.next_pid);
    }
    assert(pid_pos(m2.procs, p.pid, 0) == Some(n as nat)) by {
        assert forall|a: int, b: int| #![trigger m2.procs[a], m2.procs[b]] 0 <= a < b < m2.procs.len()
            implies m2.procs[a].pid != m2.procs[b].pid by {
            if b == n {
                assert(m2.procs[a].pid != p.pid);
            } else {
                assert(m.procs[a].pid != m.procs[b].pid);
            }
        }
        lemma_pid_pos_unique(m2.procs, n);
    }
    assert forall|k: int| 0 <= k < m2.queue.len() implies #[trigger] ready_pid(m2.procs, m2.queue[k]) by {
        if k < m.queue.len() {
            assert(m2.queue[k] == m.queue[k]);
            assert(ready_pid(m.procs, m.queue[k]));
            assert(m.queue[k] != p.pid);
            lemma_pid_pos(m.procs, m.queue[k], 0);
        }
    }
    assert forall|k: int, l: int| #![trigger m2.queue[k], m2.queue[l]] 0 <= k < l < m2.queue.len()
        implies m2.queue[k] != m2.queue[l] by {
        if l == m.queue.len() {
            assert(m.queue[k] != p.pid);
        } else {
            assert(m.queue[k] != m.queue[l]);
        }
    }
    assert forall|a: int| #![trigger m2.procs[a]]
        0 <= a < m2.procs.len() && m2.procs[a].state == ProcessState::Ready implies m2.queue.contains(m2.procs[a].pid) by {
        if a == n {
            assert(m2.queue[m.queue.len() as int] == p.pid);
        } else {
            assert(m.queue.contains(m.procs[a].pid));
            let k = choose|k: int| 0 <= k < m.queue.len() && m.queue[k] == m.procs[a].pid;
            assert(m2.queue[k] == m.procs[a].pid);
        }
    }
    assert forall|a: int| #![trigger m2.procs[a]] 0 <= a < m2.procs.len() implies
        (m2.procs[a].state == ProcessState::Running <==> m2.current == Some(m2.procs[a].pid)) by {
        if a == n {
            if m.current == Some(p.pid) {
                lemma_pid_pos(m.procs, p.pid, 0);
                let i = pid_pos(m.procs, p.pid, 0)->0 as int;
                assert(m.procs[i].pid < m.next_pid);
            }
        } else {
            assert(m2.procs[a] == m.procs[a]);
        }
    }
    if let Some(c) = m.current {
        lemma_pid_pos(m.procs, c, 0);
        let i = pid_pos(m.procs, c, 0)->0 as int;
        assert(m.procs[i].pid < m.next_pid);
        assert(c != p.pid);
    }
    assert forall|a: int| #![trigger m2.procs[a]] 0 <= a < m2.procs.len() implies 0 < m2.procs[a].pid < m2.next_pid by {
        if a < n {
            assert(m2.procs[a] == m.procs[a]);
        }
    }
}

/// Adding a process leaves where other IDs are found.
pub proof fn lemma_pid_pos_push(procs: Seq<Process>, p: Process, pid: ProcessId, from: nat)
    requires
        pid != p.pid,
    ensures
        pid_pos(procs.push(p), pid, from) == pid_pos(procs, pid, from),
    decreases procs.len() + 1 - from,
{
    if from < procs.len() {
        assert(procs.push(p)[from as int] == procs[from as int]);
        lemma_pid_pos_push(procs, p, pid, from + 1);
    } else if from == procs.len() {
        assert(procs.push(p)[from as int] == p);
        assert(pid_pos(procs.push(p), pid, from + 1) is None);
    }
}

/// Terminating the running process keeps the invariant.
pub proof fn lemma_terminate_ok(m: SchedModel, c: ProcessId)
    requires
        sched_ok(m),
        m.current == Some(c),
    ensures
        ({
            let i = pid_pos(m.procs, c, 0)->0 as int;
            sched_ok(SchedModel {
                procs: m.procs.update(i, Process { state: ProcessState::Terminated, ..m.procs[i] }),
                current: None,
                ..m
            })
        }),
{
    lemma_pid_pos(m.procs, c, 0);
    let i = pid_pos(m.procs, c, 0)->0 as int;
    let p2 = m.procs.update(i, Process { state: ProcessState::Terminated, ..m.procs[i] });
    let m2 = SchedModel { procs: p2, current: None, ..m };
    assert(m.procs[i].state == ProcessState::Running);
    assert forall|a: int| 0 <= a < p2.len() implies #[trigger] p2[a].pid == m.procs[a].pid by {}
    assert forall|k: ProcessId| true implies pid_pos(p2, k, 0) == pid_pos(m.procs, k, 0) by {
        lemma_pid_pos_same_ids(p2, m.procs, k, 0);
    }
    assert forall|k: int| 0 <= k < m2.queue.len() implies #[trigger] ready_pid(m2.procs, m2.queue[k]) by {
        assert(ready_pid(m.procs, m.queue[k]));
        lemma_pid_pos(m.procs, m.queue[k], 0);
    }
    assert forall|a: int| #![trigger m2.procs[a]]
        0 <= a < m2.procs.len() && m2.procs[a].state == ProcessState::Ready implies m2.queue.contains(m2.procs[a].pid) by {
        assert(m.queue.contains(m.procs[a].pid));
    }
    assert forall|a: int| #![trigger m2.procs[a]] 0 <= a < m2.procs.len() implies m2.procs[a].state != ProcessState::Running by {
        if a != i && m.procs[a].state == ProcessState::Running {
            assert(m.current == Some(m.procs[a].pid));
            lemma_pid_pos_unique(m.procs, a);
        }
    }
}

/// The scheduler.
#[derive(Debug)]
pub struct Scheduler {
    /// All processes in the system
    processes: Vec<Process>,
    /// Ready queue (process IDs)
    ready_queue: VecDeque<ProcessId>,
    /// Currently running process ID
    current_pid: Option<ProcessId>,
    /// Next process ID to assign
    next_pid: ProcessId,
    /// Total context switches
    context_switches: u64,
}

impl Scheduler {
    /// Abstract state.
    pub closed spec fn state(&self) -> SchedModel {
        SchedModel {
            procs: self.processes@,
            queue: self.ready_queue@,
            current: self.current_pid,
            next_pid: self.next_pid,
            switches: self.context_switches,
        }
    }

    /// The invariant holds: IDs distinct and handed out in order, the ready queue holding each
    /// ready process once, and the current process the one running.
    pub open spec fn wf(&self) -> bool {
        sched_ok(self.state())
    }

    /// An empty scheduler whose first process gets ID 1.
    pub fn new() -> (s: Self)
        ensures
            s.state() == (SchedModel { procs: Seq::empty(), queue: Seq::empty(), current: None, next_pid: 1, switches: 0 }),
            s.wf(),
    {
        Self { processes: Vec::new(), ready_queue: VecDeque::new(), current_pid: None, next_pid: 1, context_switches: 0 }
    }

    fn find(&self, pid: ProcessId) -> (r: Option<usize>)
        ensures
            r is Some <==> pid_pos(self.processes@, pid, 0) is Some,
            r matches Some(i) ==> pid_pos(self.processes@, pid, 0) == Some(i as nat),
            pid_pos(self.processes@, pid, 0) matches Some(i) ==> i < self.processes@.len(),
    {
        proof {
            lemma_pid_pos(self.processes@, pid, 0);
        }
        let mut i: usize = 0;
        while i < self.processes.len()
            invariant
                i <= self.processes.len(),
                pid_pos(self.processes@, pid, 0) == pid_pos(self.processes@, pid, i as nat),
            decreases self.processes.len() - i,
        {
            if self.processes[i].pid == pid {
                return Some(i);
            }
            i += 1;
        }
        None
    }

    /// Creates a process and puts it at the back of the ready queue; returns its ID.
    pub fn create_process(&mut self, pc: Address, base_address: Address, memory_size: usize) -> (pid: ProcessId)
        requires
            old(self).state().next_pid < u32::MAX,
            base_address + (memory_size as u32) <= u32::MAX,
        ensures
            pid == old(self).state().next_pid,
            final(self).state().procs.len() == old(self).state().procs.len() + 1,
            final(self).state().procs.drop_last() == old(self).state().procs,
            is_new_process(final(self).state().procs.last(), pid, pc, base_address, memory_size),
            final(self).state().queue == old(self).state().queue.push(pid),
            final(self).state().next_pid == pid + 1,
            final(self).state().current == old(self).state().current,
            final(self).state().switches == old(self).state().switches,
            old(self).wf() ==> final(self).wf(),
    {
        let pid = self.next_pid;
        self.next_pid += 1;
        let process = Process::new(pid, pc, base_address, memory_size);
        self.processes.push(process);
        self.ready_queue.push_back(pid);
        assert(self.processes@.drop_last() =~= old(self).processes@);
        proof {
            if old(self).wf() {
                lemma_create_ok(old(self).state(), process);
                assert(self.processes@ =~= old(self).processes@.push(process));
            }
        }
        pid
    }

    /// A process by ID.
    pub fn get_process(&self, pid: ProcessId) -> (r: Option<&Process>)
        ensures
            match find_process(self.state().procs, pid) {
                Some(p) => r == Some(&p),
                None => r is None,
            },
    {
        match self.find(pid) {
            Some(i) => Some(&self.processes[i]),
            None => None,
        }
    }

    /// A process by ID, for changes.
    pub fn get_process_mut(&mut self, pid: ProcessId) -> (r: Option<&mut Process>)
        ensures
            match pid_pos(old(self).state().procs, pid, 0) {
                Some(i) => r is Some && *r->0 == old(self).state().procs[i as int]
                    && final(self).state() == (SchedModel { procs: old(self).state().procs.update(i as int, *final(r->0)), ..old(self).state() }),
                None => r is None && final(self).state() == old(self).state(),
            },
    {
        match self.find(pid) {
            Some(i) => Some(&mut self.processes[i]),
            None => None,
        }
    }

    /// The running process.
    pub fn current_process(&self) -> (r: Option<&Process>)
        ensures
            match self.state().current {
                Some(pid) => match find_process(self.state().procs, pid) {
                    Some(p) => r == Some(&p),
                    None => r is None,
                },
                None => r is None,
            },
    {
        match self.current_pid {
            Some(pid) => self.get_process(pid),
            None => None,
        }
    }

    /// The running process, for changes.
    pub fn current_process_mut(&mut self) -> (r: Option<&mut Process>)
        ensures
            match old(self).state().current {
                Some(pid) => match pid_pos(old(self).state().procs, pid, 0) {
                    Some(i) => r is Some && *r->0 == old(self).state().procs[i as int]
                        && final(self).state() == (SchedModel { procs: old(self).state().procs.update(i as int, *final(r->0)), ..old(self).state() }),
                    None => r is None && final(self).state() == old(self).state(),
                },
                None => r is None && final(self).state() == old(self).state(),
            },
    {
        match self.current_pid {
            Some(pid) => self.get_process_mut(pid),
            None => None,
        }
    }

    fn dispatch_next(&mut self) -> (r: Option<ProcessId>)
        requires
            old(self).state().switches < u64::MAX,
        ensures
            (final(self).state(), r) == dispatch(old(self).state()),
    {
        loop
            invariant
                dispatch(old(self).state()) == dispatch(self.state()),
                self.state().switches == old(self).state().switches,
                old(self).state().switches < u64::MAX,
            decreases self.ready_queue@.len(),
        {
            let ghost before = self.state();
            match self.ready_queue.pop_front() {
                None => {
                    self.current_pid = None;
                    return None;
                },
                Some(pid) => {
                    assert(self.ready_queue@ == before.queue.drop_first());
                    if let Some(i) = self.find(pid) {
                        let mut process = self.processes[i];
                        if process.is_runnable() {
                            process.start_running();
                            self.processes.set(i, process);
                            self.current_pid = Some(pid);
                            self.context_switches += 1;
                            return Some(pid);
                        }
                    }
                    assert(self.state() == SchedModel { queue: before.queue.drop_first(), ..before });
                },
            }
        }
    }

    /// Picks the process to run next, round robin; `None` when no process is ready.
    pub fn schedule(&mut self) -> (r: Option<ProcessId>)
        requires
            old(self).state().switches < u64::MAX,
        ensures
            (final(self).state(), r) == schedule_spec(old(self).state()),
            old(self).wf() ==> final(self).wf(),
    {
        proof {
            if old(self).wf() {
                lemma_schedule_ok(old(self).state());
            }
        }
        if let Some(current_pid) = self.current_pid {
            if let Some(i) = self.find(current_pid) {
                let mut process = self.processes[i];
                if process.state == ProcessState::Running && process.time_quantum > 0 {
                    return Some(current_pid);
                }
                if process.state == ProcessState::Running {
                    process.stop_running();
                    process.reset_quantum();
                    self.processes.set(i, process);
                    self.ready_queue.push_back(current_pid);
                }
            }
        }
        self.dispatch_next()
    }

    /// Terminates the running process; nothing runs afterwards.
    pub fn terminate_current(&mut self)
        ensures
            final(self).state() == (match old(self).state().current {
                Some(pid) => SchedModel {
                    procs: match pid_pos(old(self).state().procs, pid, 0) {
                        Some(i) => old(self).state().procs.update(i as int,
                            Process { state: ProcessState::Terminated, ..old(self).state().procs[i as int] }),
                        None => old(self).state().procs,
                    },
                    current: None,
                    ..old(self).state()
                },
                None => old(self).state(),
            }),
            old(self).wf() ==> final(self).wf(),
    {
        proof {
            if old(self).wf() {
                if let Some(c) = old(self).state().current {
                    lemma_terminate_ok(old(self).state(), c);
                }
            }
        }
        if let Some(pid) = self.current_pid {
            if let Some(i) = self.find(pid) {
                let mut process = self.processes[i];
                process.terminate();
                self.processes.set(i, process);
            }
            self.current_pid = None;
        }
    }

    /// The running process, if still running, goes back ready with a fresh quantum to the end of
    /// the queue; nothing runs afterwards.
    pub fn yield_current(&mut self)
        ensures
            final(self).state() == (match old(self).state().current {
                Some(pid) => match pid_pos(old(self).state().procs, pid, 0) {
                    Some(i) => if old(self).state().procs[i as int].state == ProcessState::Running {
                        SchedModel {
                            procs: old(self).state().procs.update(i as int,
                                Process { state: ProcessState::Ready, time_quantum: 100, ..old(self).state().procs[i as int] }),
                            queue: old(self).state().queue.push(pid),
                            current: None,
                            ..old(self).state()
                        }
                    } else {
                        SchedModel { current: None, ..old(self).state() }
                    },
                    None => SchedModel { current: None, ..old(self).state() },
                },
                None => old(self).state(),
            }),
            old(self).wf() ==> final(self).wf(),
    {
        proof {
            if old(self).wf() {
                if let Some(c) = old(self).state().current {
                    lemma_pid_pos(old(self).state().procs, c, 0);
                    lemma_requeue_ok(old(self).state(), c, pid_pos(old(self).state().procs, c, 0)->0 as int);
                }
            }
        }
        if let Some(pid) = self.current_pid {
            if let Some(i) = self.find(pid) {
                let mut process = self.processes[i];
                if process.state == ProcessState::Running {
                    process.stop_running();
                    process.reset_quantum();
                    self.processes.set(i, process);
                    self.ready_queue.push_back(pid);
                }
            }
            self.current_pid = None;
        }
    }

    /// Number of processes that have not terminated.
    pub fn process_count(&self) -> (n: usize)
        ensures
            n == active_count(self.state().procs),
    {
        let mut n: usize = 0;
        let mut i: usize = 0;
        while i < self.processes.len()
            invariant
                i <= self.processes@.len(),
                n <= i,
                n == active_count(self.processes@.subrange(0, i as int)),
            decreases self.processes@.len() - i,
        {
            assert(self.processes@.subrange(0, i + 1).drop_last() =~= self.processes@.subrange(0, i as int));
            if self.processes[i].state != ProcessState::Terminated {
                n += 1;
            }
            i += 1;
        }
        assert(self.processes@.subrange(0, i as int) =~= self.processes@);
        n
    }

    /// Number of IDs in the ready queue.
    pub fn ready_count(&self) -> (n: usize)
        ensures
            n == self.state().queue.len(),
    {
        self.ready_queue.len()
    }

    /// Context switches so far.
    pub fn context_switches(&self) -> (n: u64)
        ensures
            n == self.state().switches,
    {
        self.context_switches
    }

    /// Every process, in creation order.
    pub fn list_processes(&self) -> (v: Vec<&Process>)
        ensures
            v@.len() == self.state().procs.len(),
            forall|i: int| 0 <= i < v@.len() ==> *v@[i] == self.state().procs[i],
    {
        let mut v: Vec<&Process> = Vec::new();
        let mut i: usize = 0;
        while i < self.processes.len()
            invariant
                i <= self.processes@.len(),
                v@.len() == i,
                forall|j: int| 0 <= j < i ==> *v@[j] == self.processes@[j],
            decreases self.processes@.len() - i,
        {
            v.push(&self.processes[i]);
            i += 1;
        }
        v
    }
}

impl Default for Scheduler {
    /// An empty scheduler.
    fn default() -> (s: Self)
        ensures
            s.state() == (SchedModel { procs: Seq::empty(), queue: Seq::empty(), current: None, next_pid: 1, switches: 0 }),
            s.wf(),
    {
        Self::new()
    }
}

} // verus!
