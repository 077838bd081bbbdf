use vstd::prelude::*;

use crate::context::{initial_context, CpuContext};

verus! {

/// Lifecycle state of a process control record.
#[derive(Clone, Copy, Debug, PartialEq, Eq, Structural)]
pub enum ProcessState {
    /// Eligible to run, not currently running.
    Ready,
    /// Currently has the processor.
    Running,
    /// Waiting for an event; not eligible.
    Blocked,
    /// Has exited; kept until reaped.
    Zombie,
    /// Fully cleaned up; kept until removed.
    Terminated,
}

/// A record in this state may be picked to run.
pub open spec fn eligible(s: ProcessState) -> bool {
    s == ProcessState::Ready || s == ProcessState::Running
}

/// A record in this state has not exited.
pub open spec fn live(s: ProcessState) -> bool {
    !(s == ProcessState::Zombie || s == ProcessState::Terminated)
}

impl ProcessState {
    /// Whether a record in this state may be picked to run.
    pub fn is_eligible(&self) -> (r: bool)
        ensures
            r == eligible(*self),
    {
        match self {
            ProcessState::Ready | ProcessState::Running => true,
            _ => false,
        }
    }

    /// Whether a record in this state has not exited.
    pub fn is_live(&self) -> (r: bool)
        ensures
            r == live(*self),
    {
        match self {
            ProcessState::Zombie | ProcessState::Terminated => false,
            _ => true,
        }
    }
}

/// Identity, lifecycle state and saved registers of one schedulable unit.
#[derive(Clone, Copy, Debug, PartialEq, Eq, Structural)]
pub struct ProcessControlBlock {
    pub pid: u32,
    pub state: ProcessState,
    pub context: CpuContext,
}

impl ProcessControlBlock {
    /// A `Ready` record that starts at `entry_address` on the stack whose
    /// top is `stack_top`, with interrupts enabled. The stack itself stays
    /// owned by whoever allocated it.
    pub fn create(pid: u32, entry_address: u64, stack_top: u64) -> (r: ProcessControlBlock)
        ensures
            r.pid == pid,
            r.state == ProcessState::Ready,
            r.context == initial_context(entry_address, stack_top),
    {
        let mut context = CpuContext::zeroed();
        context.set_initial_state(entry_address, stack_top);
        ProcessControlBlock { pid, state: ProcessState::Ready, context }
    }
}

/// No two records share an identifier.
pub open spec fn unique_pids(s: Seq<ProcessControlBlock>) -> bool {
    forall|i: int, j: int| 0 <= i < j < s.len() ==> s[i].pid != s[j].pid
}

/// Some record carries identifier `pid`.
pub open spec fn has_pid(s: Seq<ProcessControlBlock>, pid: u32) -> bool {
    exists|i: int| 0 <= i < s.len() && s[i].pid == pid
}

/// Some record may be picked to run.
pub open spec fn has_eligible(s: Seq<ProcessControlBlock>) -> bool {
    exists|i: int| 0 <= i < s.len() && eligible(s[i].state)
}

/// How many steps forward, in a ring of `n` slots, lead from `c` to `j`:
/// 1 for the next slot, up to `n` for `c` itself.
pub open spec fn ring_distance(n: int, c: int, j: int) -> int {
    if j > c {
        j - c
    } else {
        j - c + n
    }
}

/// `j` is the first eligible slot after `c` in ring order, `c` itself
/// counted last.
pub open spec fn next_eligible(s: Seq<ProcessControlBlock>, c: int, j: int) -> bool {
    &&& 0 <= j < s.len()
    &&& eligible(s[j].state)
    &&& forall|i: int|
        0 <= i < s.len() && eligible(s[i].state) ==> ring_distance(s.len() as int, c, j)
            <= #[trigger] ring_distance(s.len() as int, c, i)
}

/// The slot `x` steps after `c` in a ring of `n` slots (`1 <= x <= n`).
pub open spec fn slot_after(n: int, c: int, x: int) -> int {
    if c + x < n {
        c + x
    } else {
        c + x - n
    }
}

/// Number of eligible records among the `x` slots that follow `c`.
pub open spec fn eligible_within(s: Seq<ProcessControlBlock>, c: int, x: int) -> nat
    decreases x,
{
    if x <= 0 {
        0
    } else {
        eligible_within(s, c, x - 1) + if eligible(s[slot_after(s.len() as int, c, x)].state) {
            1nat
        } else {
            0nat
        }
    }
}

/// The cursor after `k` round-robin steps from `c`, each step moving to the
/// next eligible record.
pub open spec fn round_robin_visit(s: Seq<ProcessControlBlock>, c: int, k: nat) -> int
    decreases k,
{
    if k == 0 {
        c
    } else {
        choose|j: int| #[trigger] next_eligible(s, round_robin_visit(s, c, (k - 1) as nat), j)
    }
}

proof fn lemma_within_monotone(s: Seq<ProcessControlBlock>, c: int, x: int, y: int)
    requires
        0 <= x <= y,
    ensures
        eligible_within(s, c, x) <= eligible_within(s, c, y),
    decreases y - x,
{
    if x < y {
        lemma_within_monotone(s, c, x, y - 1);
    }
}

proof fn lemma_within_hits(s: Seq<ProcessControlBlock>, c: int, a: int, b: int, v: nat) -> (y: int)
    requires
        0 <= a < b,
        eligible_within(s, c, a) < v <= eligible_within(s, c, b),
    ensures
        a < y <= b,
        eligible_within(s, c, y) == v,
        eligible_within(s, c, y - 1) + 1 == v,
    decreases b - a,
{
    if eligible_within(s, c, b - 1) >= v {
        lemma_within_hits(s, c, a, b - 1, v)
    } else {
        b
    }
}

/// The next eligible record after a slot is unique.
pub proof fn lemma_next_unique(s: Seq<ProcessControlBlock>, p: int, j1: int, j2: int)
    requires
        0 <= p < s.len(),
        next_eligible(s, p, j1),
        next_eligible(s, p, j2),
    ensures
        j1 == j2,
{
    assert(ring_distance(s.len() as int, p, j1) <= ring_distance(s.len() as int, p, j2));
    assert(ring_distance(s.len() as int, p, j2) <= ring_distance(s.len() as int, p, j1));
}

/// From the record `x` slots after `c` (or from `c` itself, `x == 0`), with
/// `k` eligible records among those `x` slots and more to come, the next
/// eligible record is the one at which the count reaches `k + 1`.
proof fn lemma_round_robin_step(s: Seq<ProcessControlBlock>, c: int, x: int, p: int) -> (y: int)
    requires
        0 <= c < s.len(),
        0 <= x < s.len(),
        x == 0 ==> p == c,
        x >= 1 ==> p == slot_after(s.len() as int, c, x),
        eligible_within(s, c, x) < eligible_within(s, c, s.len() as int),
    ensures
        x < y <= s.len(),
        eligible_within(s, c, y) == eligible_within(s, c, x) + 1,
        eligible_within(s, c, y - 1) == eligible_within(s, c, x),
        next_eligible(s, p, slot_after(s.len() as int, c, y)),
{
    let n = s.len() as int;
    let k = eligible_within(s, c, x);
    let y = lemma_within_hits(s, c, x, n, k + 1);
    let j = slot_after(n, c, y);
    assert forall|i: int| 0 <= i < n && eligible(s[i].state) implies ring_distance(n, p, j)
        <= #[trigger] ring_distance(n, p, i) by {
        let yi = ring_distance(n, c, i);
        assert(slot_after(n, c, yi) == i);
        if yi > x {
            if yi < y {
                lemma_within_monotone(s, c, yi, y - 1);
                lemma_within_monotone(s, c, x, yi - 1);
            }
        }
    }
    y
}

proof fn lemma_round_robin_visit_at(s: Seq<ProcessControlBlock>, c: int, k: nat) -> (y: int)
    requires
        0 <= c < s.len(),
        1 <= k <= eligible_within(s, c, s.len() as int),
    ensures
        1 <= y <= s.len(),
        eligible_within(s, c, y) == k,
        eligible_within(s, c, y - 1) + 1 == k,
        round_robin_visit(s, c, k) == slot_after(s.len() as int, c, y),
    decreases k,
{
    let n = s.len() as int;
    if k == 1 {
        let y = lemma_round_robin_step(s, c, 0, c);
        assert(round_robin_visit(s, c, 0) == c);
        assert(next_eligible(s, round_robin_visit(s, c, 0), slot_after(n, c, y)));
        let j = round_robin_visit(s, c, 1);
        lemma_next_unique(s, c, j, slot_after(n, c, y));
        y
    } else {
        let prev = lemma_round_robin_visit_at(s, c, (k - 1) as nat);
        let p = round_robin_visit(s, c, (k - 1) as nat);
        if prev == n {
            lemma_within_monotone(s, c, n, n);
        }
        let y = lemma_round_robin_step(s, c, prev, p);
        assert(next_eligible(s, round_robin_visit(s, c, (k - 1) as nat), slot_after(n, c, y)));
        let j = round_robin_visit(s, c, k);
        lemma_next_unique(s, p, j, slot_after(n, c, y));
        y
    }
}

/// Round-robin fairness. Starting from an eligible current record, let `N`
/// be the number of eligible records. The first `N` round-robin steps each
/// land on an eligible record, land on every eligible record exactly once,
/// and the `N`-th step lands back on the starting record.
pub proof fn lemma_round_robin_fair(s: Seq<ProcessControlBlock>, c: int) -> (n_eligible: nat)
    requires
        0 <= c < s.len(),
        eligible(s[c].state),
    ensures
        n_eligible >= 1,
        forall|k: nat|
            1 <= k <= n_eligible ==> #[trigger] round_robin_visit(s, c, k) >= 0
                && round_robin_visit(s, c, k) < s.len() && eligible(
                s[round_robin_visit(s, c, k)].state,
            ),
        forall|a: nat, b: nat|
            1 <= a < b <= n_eligible ==> #[trigger] round_robin_visit(s, c, a)
                != #[trigger] round_robin_visit(s, c, b),
        forall|i: int|
            0 <= i < s.len() && eligible(#[trigger] s[i].state) ==> exists|k: nat|
                1 <= k <= n_eligible && round_robin_visit(s, c, k) == i,
        round_robin_visit(s, c, n_eligible) == c,
{
    let n = s.len() as int;
    let total = eligible_within(s, c, n);
    assert(slot_after(n, c, n) == c);
    lemma_within_monotone(s, c, 0, n - 1);
    assert forall|k: nat| 1 <= k <= total implies #[trigger] round_robin_visit(s, c, k) >= 0
        && round_robin_visit(s, c, k) < s.len() && eligible(s[round_robin_visit(s, c, k)].state) by {
        lemma_round_robin_visit_at(s, c, k);
    }
    assert forall|a: nat, b: nat| 1 <= a < b <= total implies #[trigger] round_robin_visit(s, c, a)
        != #[trigger] round_robin_visit(s, c, b) by {
        let ya = lemma_round_robin_visit_at(s, c, a);
        let yb = lemma_round_robin_visit_at(s, c, b);
    }
    assert forall|i: int| 0 <= i < s.len() && eligible(#[trigger] s[i].state) implies exists|k: nat|
        1 <= k <= total && round_robin_visit(s, c, k) == i by {
        let yi = ring_distance(n, c, i);
        assert(slot_after(n, c, yi) == i);
        lemma_within_monotone(s, c, yi, n);
        let k = eligible_within(s, c, yi);
        let yk = lemma_round_robin_visit_at(s, c, k);
        if yk < yi {
            lemma_within_monotone(s, c, yk, yi - 1);
        }
        if yi < yk {
            lemma_within_monotone(s, c, yi, yk - 1);
        }
    }
    let yn = lemma_round_robin_visit_at(s, c, total);
    if yn < n {
        lemma_within_monotone(s, c, yn, n - 1);
    }
    total
}

/// The choice of the next record depends only on which records are
/// eligible: two queues that agree on that make the same choice, so the
/// round-robin order survives the `Ready`/`Running` changes that a switch
/// makes.
pub proof fn lemma_next_eligible_depends_on_eligibility(
    s: Seq<ProcessControlBlock>,
    t: Seq<ProcessControlBlock>,
    p: int,
    j: int,
)
    requires
        s.len() == t.len(),
        forall|i: int| 0 <= i < s.len() ==> eligible(#[trigger] s[i].state) == eligible(t[i].state),
    ensures
        next_eligible(s, p, j) == next_eligible(t, p, j),
{
}

/// Number of records that have not exited.
pub open spec fn live_count(s: Seq<ProcessControlBlock>) -> nat
    decreases s.len(),
{
    if s.len() == 0 {
        0
    } else {
        live_count(s.drop_last()) + if live(s.last().state) {
            1nat
        } else {
            0nat
        }
    }
}

/// The records that have not exited, in queue order.
pub open spec fn kept(s: Seq<ProcessControlBlock>) -> Seq<ProcessControlBlock>
    decreases s.len(),
{
    if s.len() == 0 {
        Seq::empty()
    } else if live(s.last().state) {
        kept(s.drop_last()).push(s.last())
    } else {
        kept(s.drop_last())
    }
}

/// The identifiers of the records that have exited, in queue order.
pub open spec fn removed_pids(s: Seq<ProcessControlBlock>) -> Seq<u32>
    decreases s.len(),
{
    if s.len() == 0 {
        Seq::empty()
    } else if live(s.last().state) {
        removed_pids(s.drop_last())
    } else {
        removed_pids(s.drop_last()).push(s.last().pid)
    }
}

/// Where the cursor stands after the exited records are swept out: on the
/// same record when it stays, else on the first kept record after it
/// (wrapping), or 0 when nothing is kept.
pub open spec fn cursor_after_sweep(s: Seq<ProcessControlBlock>, c: int) -> int {
    let before = kept(s.take(c)).len() as int;
    if kept(s).len() == 0 {
        0
    } else {
        before % (kept(s).len() as int)
    }
}

/// `kept` of a prefix is a prefix of `kept` of the whole queue.
pub proof fn lemma_kept_prefix(s: Seq<ProcessControlBlock>, m: int)
    requires
        0 <= m <= s.len(),
    ensures
        kept(s.take(m)).len() <= kept(s).len(),
        kept(s).take(kept(s.take(m)).len() as int) == kept(s.take(m)),
    decreases s.len(),
{
    if m == s.len() {
        assert(s.take(m) == s);
        assert(kept(s).take(kept(s).len() as int) == kept(s));
    } else {
        let t = s.drop_last();
        assert(s.take(m) == t.take(m));
        lemma_kept_prefix(t, m);
        assert(kept(s).take(kept(t).len() as int) == kept(t));
    }
}

/// Every kept record comes from the queue, at a position with exactly as
/// many kept records before it; and keeping preserves unique identifiers.
pub proof fn lemma_kept_from_queue(s: Seq<ProcessControlBlock>)
    ensures
        forall|j: int|
            0 <= j < kept(s).len() ==> exists|i: int|
                0 <= i < s.len() && #[trigger] kept(s)[j] == s[i] && kept(s.take(i)).len() == j,
        unique_pids(s) ==> unique_pids(kept(s)),
        kept(s).len() <= s.len(),
    decreases s.len(),
{
    if s.len() > 0 {
        let t = s.drop_last();
        lemma_kept_from_queue(t);
        assert forall|j: int| 0 <= j < kept(s).len() implies exists|i: int|
            0 <= i < s.len() && #[trigger] kept(s)[j] == s[i] && kept(s.take(i)).len() == j by {
            if j < kept(t).len() {
                let i = choose|i: int|
                    0 <= i < t.len() && kept(t)[j] == t[i] && kept(t.take(i)).len() == j;
                assert(s.take(i) == t.take(i));
                assert(kept(s)[j] == s[i]);
            } else {
                assert(s.take(s.len() - 1) == t);
                assert(kept(s)[j] == s[s.len() - 1]);
            }
        }
        if unique_pids(s) {
            assert forall|a: int, b: int|
                0 <= a < b < kept(s).len() implies kept(s)[a].pid != kept(s)[b].pid by {
                if b == kept(t).len() && live(s.last().state) {
                    let i = choose|i: int|
                        0 <= i < t.len() && kept(t)[a] == t[i] && kept(t.take(i)).len() == a;
                    assert(s[i] == t[i]);
                } else {
                    assert(kept(s)[a] == kept(t)[a]);
                    assert(kept(s)[b] == kept(t)[b]);
                }
            }
        }
    }
}

/// A record that has not exited is kept, at the position that counts the
/// kept records before it.
pub proof fn lemma_kept_position(s: Seq<ProcessControlBlock>, c: int)
    requires
        0 <= c < s.len(),
        live(s[c].state),
    ensures
        kept(s.take(c)).len() < kept(s).len(),
        kept(s)[kept(s.take(c)).len() as int] == s[c],
{
    let p = s.take(c + 1);
    assert(p.drop_last() == s.take(c));
    lemma_kept_prefix(s, c + 1);
    assert(kept(p) == kept(s.take(c)).push(s[c]));
    assert(kept(s).take(kept(p).len() as int)[kept(s.take(c)).len() as int] == s[c]);
}

/// An ordered ring of process records with a cursor on the running one.
/// Insertion order is round-robin order.
pub struct RoundRobinScheduler {
    processes: Vec<ProcessControlBlock>,
    current_index: usize,
}

impl RoundRobinScheduler {
    /// The records, in queue order.
    pub closed spec fn entries(&self) -> Seq<ProcessControlBlock> {
        self.processes@
    }

    /// Index of the current record (0 when the queue is empty).
    pub closed spec fn cursor(&self) -> int {
        self.current_index as int
    }

    /// The cursor is a valid index of a non-empty queue, or 0 for an empty
    /// one, and identifiers are unique.
    pub open spec fn wf(&self) -> bool {
        &&& (self.entries().len() == 0 ==> self.cursor() == 0)
        &&& (self.entries().len() > 0 ==> 0 <= self.cursor() < self.entries().len())
        &&& unique_pids(self.entries())
    }

    /// An empty queue.
    pub fn new() -> (r: RoundRobinScheduler)
        ensures
            r.wf(),
            r.entries() == Seq::<ProcessControlBlock>::empty(),
            r.cursor() == 0,
    {
        RoundRobinScheduler { processes: Vec::new(), current_index: 0 }
    }

    /// Number of records, exited ones included.
    pub fn len(&self) -> (r: usize)
        ensures
            r == self.entries().len(),
    {
        self.processes.len()
    }

    /// Index of the current record.
    pub fn current_index(&self) -> (r: usize)
        ensures
            r == self.cursor(),
    {
        self.current_index
    }

    /// The record at `index`.
    pub fn entry(&self, index: usize) -> (r: &ProcessControlBlock)
        requires
            index < self.entries().len(),
        ensures
            *r == self.entries()[index as int],
    {
        &self.processes[index]
    }

    /// Position of the record carrying `pid`, if any.
    pub fn find(&self, pid: u32) -> (r: Option<usize>)
        ensures
            r.is_none() == !has_pid(self.entries(), pid),
            r matches Some(i) ==> i < self.entries().len() && self.entries()[i as int].pid == pid,
    {
        let mut i: usize = 0;
        while i < self.processes.len()
            invariant
                i <= self.processes@.len(),
                forall|k: int| 0 <= k < i ==> self.processes@[k].pid != pid,
            decreases self.processes@.len() - i,
        {
            if self.processes[i].pid == pid {
                return Some(i);
            }
            i = i + 1;
        }
        None
    }

    /// Appends a record at the end of round-robin order. A duplicate
    /// identifier is a bookkeeping error upstream and is ruled out.
    pub fn add(&mut self, pcb: ProcessControlBlock)
        requires
            old(self).wf(),
            !has_pid(old(self).entries(), pcb.pid),
            old(self).entries().len() < usize::MAX,
        ensures
            final(self).wf(),
            final(self).entries() == old(self).entries().push(pcb),
            final(self).cursor() == old(self).cursor(),
    {
        self.processes.push(pcb);
        assert forall|i: int, j: int|
            0 <= i < j < self.processes@.len() implies self.processes@[i].pid
            != self.processes@[j].pid by {
            if j == self.processes@.len() - 1 {
                assert(old(self).entries()[i].pid != pcb.pid);
            }
        }
    }

    /// The current record, or nothing for an empty queue.
    pub fn current(&self) -> (r: Option<&ProcessControlBlock>)
        requires
            self.wf(),
        ensures
            r.is_none() == (self.entries().len() == 0),
            r matches Some(p) ==> *p == self.entries()[self.cursor()],
    {
        if self.processes.len() == 0 {
            None
        } else {
            Some(&self.processes[self.current_index])
        }
    }

    /// Moves the cursor forward in ring order to the first record that is
    /// `Ready` or `Running`, skipping all others, and returns it; the
    /// current record is considered last. With no such record the queue is
    /// left as it was and nothing is returned.
    pub fn get_next_process(&mut self) -> (r: Option<ProcessControlBlock>)
        requires
            old(self).wf(),
        ensures
            final(self).wf(),
            final(self).entries() == old(self).entries(),
            r.is_some() == has_eligible(old(self).entries()),
            r.is_none() ==> final(self).cursor() == old(self).cursor(),
            r matches Some(p) ==> next_eligible(old(self).entries(), old(self).cursor(), final(
                self).cursor()) && p == old(self).entries()[final(self).cursor()],
    {
        let n = self.processes.len();
        if n == 0 {
            return None;
        }
        let c = self.current_index;
        let ghost s = self.processes@;
        let mut idx: usize = if c + 1 == n {
            0
        } else {
            c + 1
        };
        let mut k: usize = 1;
        loop
            invariant
                s == self.processes@,
                s == old(self).entries(),
                unique_pids(s),
                n == s.len(),
                c == self.current_index,
                c == old(self).cursor(),
                0 <= c < n,
                1 <= k <= n,
                0 <= idx < n,
                ring_distance(n as int, c as int, idx as int) == k,
                forall|i: int|
                    0 <= i < n && ring_distance(n as int, c as int, i) < k ==> !eligible(
                        #[trigger] s[i].state,
                    ),
            ensures
                forall|i: int|
                    0 <= i < n && ring_distance(n as int, c as int, i) <= n ==> !eligible(
                        #[trigger] s[i].state,
                    ),
            decreases n - k,
        {
            if self.processes[idx].state.is_eligible() {
                self.current_index = idx;
                assert(next_eligible(s, c as int, idx as int));
                return Some(self.processes[idx]);
            }
            assert forall|i: int|
                0 <= i < n && ring_distance(n as int, c as int, i) < k + 1 implies !eligible(
                #[trigger] s[i].state,
            ) by {
                if ring_distance(n as int, c as int, i) == k {
                    if i != idx {
                        assert(ring_distance(n as int, c as int, i) != ring_distance(
                            n as int,
                            c as int,
                            idx as int,
                        ));
                    }
                }
            }
            if k == n {
                break ;
            }
            idx = if idx + 1 == n {
                0
            } else {
                idx + 1
            };
            k = k + 1;
        }
        assert forall|i: int| 0 <= i < n implies !eligible(#[trigger] s[i].state) by {
            assert(ring_distance(n as int, c as int, i) <= n);
        }
        None
    }

    /// Number of records that have not exited (neither `Zombie` nor
    /// `Terminated`).
    pub fn count(&self) -> (r: usize)
        ensures
            r == live_count(self.entries()),
    {
        let ghost s = self.processes@;
        let mut i: usize = 0;
        let mut total: usize = 0;
        while i < self.processes.len()
            invariant
                s == self.processes@,
                i <= s.len(),
                total <= i,
                total == live_count(s.take(i as int)),
            decreases s.len() - i,
        {
            assert(s.take(i + 1).drop_last() == s.take(i as int));
            if self.processes[i].state.is_live() {
                total = total + 1;
            }
            i = i + 1;
        }
        assert(s.take(s.len() as int) == s);
        total
    }

    /// Removes every `Zombie` or `Terminated` record, keeping the order of
    /// the others, and returns the removed identifiers in queue order. The
    /// cursor stays on the same record, or when that one is removed moves to
    /// the next kept record.
    pub fn remove_terminated(&mut self) -> (r: Vec<u32>)
        requires
            old(self).wf(),
        ensures
            final(self).wf(),
            final(self).entries() == kept(old(self).entries()),
            r@ == removed_pids(old(self).entries()),
            final(self).cursor() == cursor_after_sweep(old(self).entries(), old(self).cursor()),
    {
        let ghost s = self.processes@;
        let c = self.current_index;
        let mut keep: Vec<ProcessControlBlock> = Vec::new();
        let mut pids: Vec<u32> = Vec::new();
        let mut cursor_in_keep: usize = 0;
        let mut i: usize = 0;
        while i < self.processes.len()
            invariant
                s == self.processes@,
                s == old(self).entries(),
                c == old(self).cursor(),
                i <= s.len(),
                keep@ == kept(s.take(i as int)),
                pids@ == removed_pids(s.take(i as int)),
                keep@.len() <= i,
                i > c ==> cursor_in_keep == kept(s.take(c as int)).len(),
                i <= c ==> cursor_in_keep == 0,
            decreases s.len() - i,
        {
            assert(s.take(i + 1).drop_last() == s.take(i as int));
            proof {
                lemma_kept_from_queue(s.take(i as int));
            }
            if i == c {
                cursor_in_keep = keep.len();
            }
            let p = self.processes[i];
            if p.state.is_live() {
                keep.push(p);
            } else {
                pids.push(p.pid);
            }
            i = i + 1;
        }
        assert(s.take(s.len() as int) == s);
        proof {
            lemma_kept_from_queue(s);
            if s.len() == 0 {
                assert(s.take(c as int) =~= s);
            }
        }
        let kept_len = keep.len();
        self.processes = keep;
        self.current_index = if kept_len == 0 {
            0
        } else {
            cursor_in_keep % kept_len
        };
        pids
    }

    /// Puts the cursor on the record carrying `pid`. Returns whether such a
    /// record exists; without one nothing changes.
    pub fn set_current(&mut self, pid: u32) -> (r: bool)
        requires
            old(self).wf(),
        ensures
            final(self).wf(),
            final(self).entries() == old(self).entries(),
            r == has_pid(old(self).entries(), pid),
            r ==> final(self).entries()[final(self).cursor()].pid == pid,
            !r ==> final(self).cursor() == old(self).cursor(),
    {
        match self.find(pid) {
            Some(i) => {
                self.current_index = i;
                true
            },
            None => false,
        }
    }

    /// Writes the lifecycle state of the record at `index`.
    pub(crate) fn set_state(&mut self, index: usize, state: ProcessState)
        requires
            old(self).wf(),
            index < old(self).entries().len(),
        ensures
            final(self).wf(),
            final(self).cursor() == old(self).cursor(),
            final(self).entries() == old(self).entries().update(
                index as int,
                ProcessControlBlock { state, ..old(self).entries()[index as int] },
            ),
    {
        self.processes[index].state = state;
        assert(unique_pids(self.processes@)) by {
            assert forall|i: int, j: int|
                0 <= i < j < self.processes@.len() implies self.processes@[i].pid
                != self.processes@[j].pid by {
                assert(old(self).entries()[i].pid != old(self).entries()[j].pid);
            }
        }
    }

    /// Writes the saved registers of the record at `index`.
    pub(crate) fn set_context(&mut self, index: usize, context: CpuContext)
        requires
            old(self).wf(),
            index < old(self).entries().len(),
        ensures
            final(self).wf(),
            final(self).cursor() == old(self).cursor(),
            final(self).entries() == old(self).entries().update(
                index as int,
                ProcessControlBlock { context, ..old(self).entries()[index as int] },
            ),
    {
        self.processes[index].context = context;
        assert(unique_pids(self.processes@)) by {
            assert forall|i: int, j: int|
                0 <= i < j < self.processes@.len() implies self.processes@[i].pid
                != self.processes@[j].pid by {
                assert(old(self).entries()[i].pid != old(self).entries()[j].pid);
            }
        }
    }

    /// Empties the queue.
    pub(crate) fn clear(&mut self)
        ensures
            final(self).wf(),
            final(self).entries() == Seq::<ProcessControlBlock>::empty(),
    {
        self.processes.clear();
        self.current_index = 0;
    }
}

} // verus!
