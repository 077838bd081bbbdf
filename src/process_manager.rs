use vstd::prelude::*;

use crate::context::{initial_context, switch, switched, zero_context, CpuContext};
use crate::process::{
    cursor_after_sweep, eligible, has_eligible, has_pid, kept, lemma_kept_from_queue,
    lemma_kept_position, lemma_next_eligible_depends_on_eligibility, lemma_next_unique, live,
    live_count, next_eligible, removed_pids, round_robin_visit, unique_pids,
    ProcessControlBlock, ProcessState, RoundRobinScheduler,
};

verus! {

/// Identifier of the idle record.
pub const IDLE_PID: u32 = 0;

/// The idle record: identifier 0, running, with an all-zero context.
pub open spec fn idle_record() -> ProcessControlBlock {
    ProcessControlBlock { pid: IDLE_PID, state: ProcessState::Running, context: zero_context() }
}

/// Every value is smaller than every later one.
pub open spec fn strictly_increasing(s: Seq<u32>) -> bool {
    forall|i: int, j: int| 0 <= i < j < s.len() ==> s[i] < s[j]
}

/// Only the record at `i` is `Running`, and it is.
pub open spec fn only_running_at(q: Seq<ProcessControlBlock>, i: int) -> bool {
    &&& 0 <= i < q.len()
    &&& q[i].state == ProcessState::Running
    &&& forall|j: int| 0 <= j < q.len() && j != i ==> q[j].state != ProcessState::Running
}

/// The record at `i` with its state replaced.
pub open spec fn with_state(q: Seq<ProcessControlBlock>, i: int, state: ProcessState) -> Seq<
    ProcessControlBlock,
> {
    q.update(i, ProcessControlBlock { state, ..q[i] })
}

/// The queue after the record at `i` exits: `Zombie`, unless it had already
/// exited.
pub open spec fn after_exit(q: Seq<ProcessControlBlock>, i: int) -> Seq<ProcessControlBlock> {
    if live(q[i].state) {
        with_state(q, i, ProcessState::Zombie)
    } else {
        q
    }
}

/// The record at `i` with its saved registers replaced.
pub open spec fn with_context(q: Seq<ProcessControlBlock>, i: int, context: CpuContext) -> Seq<
    ProcessControlBlock,
> {
    q.update(i, ProcessControlBlock { context, ..q[i] })
}

/// What `exit` of the record at `i` does to a queue `q` with cursor `c`
/// and processor registers `cpu`, ending in queue `q2`, cursor `c2` and
/// registers `cpu2`. A record that has already exited is left alone, and
/// nothing changes. Otherwise the record becomes `Zombie`. When it was the
/// current one, the cursor moves on at once to the next eligible record,
/// which becomes `Running` and whose saved registers the processor takes
/// (the exited unit's registers are not saved); with none eligible, the
/// cursor moves to the idle record, whose registers the processor takes.
pub open spec fn exit_outcome(
    q: Seq<ProcessControlBlock>,
    c: int,
    cpu: CpuContext,
    i: int,
    q2: Seq<ProcessControlBlock>,
    c2: int,
    cpu2: CpuContext,
) -> bool {
    let q1 = after_exit(q, i);
    if !live(q[i].state) {
        q2 == q && c2 == c && cpu2 == cpu
    } else if i != c {
        q2 == q1 && c2 == c && cpu2 == cpu
    } else if has_eligible(q1) {
        &&& next_eligible(q1, c, c2)
        &&& q2 == with_state(q1, c2, ProcessState::Running)
        &&& cpu2 == q1[c2].context
    } else {
        &&& q2 == q1
        &&& has_pid(q1, IDLE_PID) ==> 0 <= c2 < q1.len() && q1[c2].pid == IDLE_PID && cpu2
            == q1[c2].context
        &&& !has_pid(q1, IDLE_PID) ==> c2 == c && cpu2 == cpu
    }
}

/// The state an outgoing record is left in by a switch away from it:
/// `Running` becomes `Ready`; `Blocked` and exited records stay as they are.
pub open spec fn state_after_preemption(s: ProcessState) -> ProcessState {
    if s == ProcessState::Running {
        ProcessState::Ready
    } else {
        s
    }
}

/// What `schedule` does to a queue `q` with cursor `c` and processor
/// registers `cpu`, ending in `q2`, `c2`, `cpu2`, and whether it switched.
/// With nothing eligible nothing changes. Otherwise the next eligible record
/// in ring order becomes current and `Running`; when it is a different
/// record, the outgoing one is preempted, the processor registers are saved
/// into it, and the processor takes the incoming record's registers.
pub open spec fn schedule_outcome(
    q: Seq<ProcessControlBlock>,
    c: int,
    cpu: CpuContext,
    q2: Seq<ProcessControlBlock>,
    c2: int,
    cpu2: CpuContext,
    switched_away: bool,
) -> bool {
    if !has_eligible(q) {
        q2 == q && c2 == c && cpu2 == cpu && !switched_away
    } else {
        let (cpu_after, saved) = switched(cpu, q[c2].context);
        &&& next_eligible(q, c, c2)
        &&& c2 == c ==> q2 == with_state(q, c, ProcessState::Running) && cpu2 == cpu
            && !switched_away
        &&& c2 != c ==> q2 == with_state(
            with_context(with_state(q, c, state_after_preemption(q[c].state)), c, saved),
            c2,
            ProcessState::Running,
        ) && cpu2 == cpu_after && switched_away
    }
}

/// A schedule keeps the length of the queue and which records are eligible.
pub proof fn lemma_schedule_keeps_eligibility(
    q: Seq<ProcessControlBlock>,
    c: int,
    cpu: CpuContext,
    q2: Seq<ProcessControlBlock>,
    c2: int,
    cpu2: CpuContext,
    switched_away: bool,
)
    requires
        0 <= c < q.len(),
        schedule_outcome(q, c, cpu, q2, c2, cpu2, switched_away),
    ensures
        q2.len() == q.len(),
        forall|i: int| 0 <= i < q.len() ==> eligible(#[trigger] q2[i].state) == eligible(q[i].state),
{
    if has_eligible(q) {
        assert forall|i: int| 0 <= i < q.len() implies eligible(#[trigger] q2[i].state) == eligible(
            q[i].state,
        ) by {
            if i != c && i != c2 {
                assert(q2[i] == q[i]);
            }
        }
    }
}

/// Round-robin order over successive ticks: in a run of schedules, each
/// starting from the state the previous one left, the `k`-th cursor is the
/// `k`-th round-robin step from the first cursor over the first queue. With
/// `lemma_round_robin_fair`, `N` schedules from an eligible current record,
/// `N` being the number of eligible records, make each of them current
/// exactly once and end on the starting record.
pub proof fn lemma_schedules_follow_round_robin(
    qs: Seq<Seq<ProcessControlBlock>>,
    cs: Seq<int>,
    cpus: Seq<CpuContext>,
    switched: Seq<bool>,
    n: nat,
)
    requires
        qs.len() == n + 1,
        cs.len() == n + 1,
        cpus.len() == n + 1,
        switched.len() == n,
        0 <= cs[0] < qs[0].len(),
        has_eligible(qs[0]),
        forall|k: int|
            0 <= k < n ==> schedule_outcome(
                #[trigger] qs[k],
                cs[k],
                cpus[k],
                qs[k + 1],
                cs[k + 1],
                cpus[k + 1],
                switched[k],
            ),
    ensures
        forall|k: int| 0 <= k <= n ==> #[trigger] cs[k] == round_robin_visit(qs[0], cs[0], k as nat),
    decreases n,
{
    if n > 0 {
        let m = (n - 1) as nat;
        lemma_schedules_follow_round_robin(
            qs.take(m as int + 1),
            cs.take(m as int + 1),
            cpus.take(m as int + 1),
            switched.take(m as int),
            m,
        );
        assert forall|k: int| 0 <= k <= m implies #[trigger] cs[k] == round_robin_visit(
            qs[0],
            cs[0],
            k as nat,
        ) by {
            assert(cs.take(m as int + 1)[k] == cs[k]);
            assert(qs.take(m as int + 1)[0] == qs[0]);
            assert(cs.take(m as int + 1)[0] == cs[0]);
        }
        lemma_schedules_keep_pattern(qs, cs, cpus, switched, m);
        let k = m as int;
        assert(schedule_outcome(qs[k], cs[k], cpus[k], qs[k + 1], cs[k + 1], cpus[k + 1], switched[k]));
        lemma_next_eligible_depends_on_eligibility(qs[k], qs[0], cs[k], cs[k + 1]);
        let p = round_robin_visit(qs[0], cs[0], m);
        assert(cs[k] == p);
        assert(next_eligible(qs[0], p, cs[k + 1]));
        let j = round_robin_visit(qs[0], cs[0], n);
        assert(next_eligible(qs[0], p, j));
        lemma_next_unique(qs[0], p, j, cs[k + 1]);
    }
}

/// Along a run of schedules, every queue has the first queue's length and
/// eligibility, and every cursor is valid.
proof fn lemma_schedules_keep_pattern(
    qs: Seq<Seq<ProcessControlBlock>>,
    cs: Seq<int>,
    cpus: Seq<CpuContext>,
    switched: Seq<bool>,
    m: nat,
)
    requires
        m < switched.len(),
        qs.len() == switched.len() + 1,
        cs.len() == switched.len() + 1,
        cpus.len() == switched.len() + 1,
        0 <= cs[0] < qs[0].len(),
        has_eligible(qs[0]),
        forall|k: int|
            0 <= k < switched.len() ==> schedule_outcome(
                #[trigger] qs[k],
                cs[k],
                cpus[k],
                qs[k + 1],
                cs[k + 1],
                cpus[k + 1],
                switched[k],
            ),
    ensures
        qs[m as int].len() == qs[0].len(),
        0 <= cs[m as int] < qs[0].len(),
        has_eligible(qs[m as int]),
        forall|i: int|
            0 <= i < qs[0].len() ==> eligible(#[trigger] qs[m as int][i].state) == eligible(
                qs[0][i].state,
            ),
    decreases m,
{
    if m > 0 {
        let k = (m - 1) as int;
        lemma_schedules_keep_pattern(qs, cs, cpus, switched, (m - 1) as nat);
        assert(schedule_outcome(qs[k], cs[k], cpus[k], qs[k + 1], cs[k + 1], cpus[k + 1], switched[k]));
        lemma_schedule_keeps_eligibility(qs[k], cs[k], cpus[k], qs[k + 1], cs[k + 1], cpus[k + 1], switched[k]);
        let w = choose|i: int| 0 <= i < qs[k].len() && eligible(qs[k][i].state);
        assert(eligible(qs[k + 1][w].state));
    }
}

/// Creates, terminates, reaps and switches between process records; owns
/// the round-robin queue.
pub struct ProcessManager {
    scheduler: RoundRobinScheduler,
    next_pid: u32,
    issued: Ghost<Seq<u32>>,
}

impl ProcessManager {
    /// The records, in round-robin order.
    pub closed spec fn queue(&self) -> Seq<ProcessControlBlock> {
        self.scheduler.entries()
    }

    /// Index of the current record.
    pub closed spec fn cursor(&self) -> int {
        self.scheduler.cursor()
    }

    /// The identifier the next spawn hands out.
    pub closed spec fn pid_counter(&self) -> u32 {
        self.next_pid
    }

    /// Every identifier handed out by a spawn so far, in order.
    pub closed spec fn issued(&self) -> Seq<u32> {
        self.issued@
    }

    /// The queue is well formed, only the current record may be `Running`,
    /// and identifiers come from a counter that only grows.
    pub open spec fn wf(&self) -> bool {
        &&& self.queue().len() == 0 ==> self.cursor() == 0
        &&& self.queue().len() > 0 ==> 0 <= self.cursor() < self.queue().len()
        &&& unique_pids(self.queue())
        &&& forall|j: int|
            0 <= j < self.queue().len() && j != self.cursor() ==> #[trigger] self.queue()[j].state
                != ProcessState::Running
        &&& 1 <= self.pid_counter()
        &&& forall|j: int| 0 <= j < self.queue().len() ==> #[trigger] self.queue()[j].pid < self.pid_counter()
        &&& strictly_increasing(self.issued())
        &&& forall|k: int|
            0 <= k < self.issued().len() ==> 1 <= #[trigger] self.issued()[k] < self.pid_counter()
    }

    /// Identifiers are never reused: those handed out so far are strictly
    /// increasing, and all lie below the next one. Every spawn appends the
    /// counter's value to `issued()` and raises the counter, and no other
    /// operation changes either.
    pub proof fn lemma_pids_never_reused(&self)
        requires
            self.wf(),
        ensures
            forall|i: int, j: int|
                0 <= i < j < self.issued().len() ==> self.issued()[i] < self.issued()[j],
            forall|i: int| 0 <= i < self.issued().len() ==> self.issued()[i] < self.pid_counter(),
    {
    }

    /// A spawn hands out a fresh identifier: not 0 (the idle record), larger
    /// than every identifier handed out before, and carried by no record in
    /// the queue, even after earlier records were exited and reaped.
    pub proof fn lemma_spawn_pid_fresh(before: &ProcessManager, after: &ProcessManager, r: u32)
        requires
            before.wf(),
            r == before.pid_counter(),
            after.issued() == before.issued().push(r),
        ensures
            r != IDLE_PID,
            forall|i: int| 0 <= i < before.issued().len() ==> before.issued()[i] < r,
            !has_pid(before.queue(), r),
            strictly_increasing(after.issued()),
    {
        if has_pid(before.queue(), r) {
            let i = choose|i: int| 0 <= i < before.queue().len() && before.queue()[i].pid == r;
            assert(before.queue()[i].pid < before.pid_counter());
        }
    }

    proof fn lemma_scheduler_wf(&self)
        requires
            self.wf(),
        ensures
            self.scheduler.wf(),
    {
    }

    /// A manager with an empty queue; the first spawn gets identifier 1.
    pub fn new() -> (r: ProcessManager)
        ensures
            r.wf(),
            r.queue() == Seq::<ProcessControlBlock>::empty(),
            r.pid_counter() == 1,
            r.issued() == Seq::<u32>::empty(),
    {
        ProcessManager { scheduler: RoundRobinScheduler::new(), next_pid: 1, issued: Ghost(Seq::empty()) }
    }

    /// Replaces the queue by the idle record alone, current and `Running`.
    /// The identifier counter keeps its value, so no identifier is reused.
    pub fn init(&mut self)
        requires
            old(self).wf(),
        ensures
            final(self).wf(),
            final(self).queue() == seq![idle_record()],
            final(self).cursor() == 0,
            final(self).pid_counter() == old(self).pid_counter(),
            final(self).issued() == old(self).issued(),
    {
        self.scheduler.clear();
        let idle = ProcessControlBlock {
            pid: IDLE_PID,
            state: ProcessState::Running,
            context: CpuContext::zeroed(),
        };
        self.scheduler.add(idle);
        assert(self.queue() =~= seq![idle_record()]);
    }

    /// The identifier the next spawn hands out.
    pub fn next_pid(&self) -> (r: u32)
        ensures
            r == self.pid_counter(),
    {
        self.next_pid
    }

    /// Creates a `Ready` record that starts at `entry_address` on the stack
    /// whose top is `stack_top`, with the next identifier, and appends it to
    /// the queue. Returns its identifier.
    pub fn spawn(&mut self, entry_address: u64, stack_top: u64) -> (r: u32)
        requires
            old(self).wf(),
            old(self).pid_counter() < u32::MAX,
            old(self).queue().len() < usize::MAX,
        ensures
            final(self).wf(),
            r == old(self).pid_counter(),
            final(self).pid_counter() == r + 1,
            final(self).issued() == old(self).issued().push(r),
            final(self).queue() == old(self).queue().push(
                ProcessControlBlock {
                    pid: r,
                    state: ProcessState::Ready,
                    context: initial_context(entry_address, stack_top),
                },
            ),
            final(self).cursor() == old(self).cursor(),
    {
        let pid = self.next_pid;
        let pcb = ProcessControlBlock::create(pid, entry_address, stack_top);
        proof {
            if has_pid(self.queue(), pid) {
                let i = choose|i: int| 0 <= i < self.queue().len() && self.queue()[i].pid == pid;
                assert(self.queue()[i].pid < self.pid_counter());
            }
        }
        self.scheduler.add(pcb);
        self.next_pid = pid + 1;
        proof {
            self.issued@ = self.issued@.push(pid);
        }
        assert forall|j: int|
            0 <= j < self.queue().len() && j != self.cursor() implies #[trigger] self.queue()[j].state
            != ProcessState::Running by {
            if j < old(self).queue().len() {
                assert(self.queue()[j] == old(self).queue()[j]);
            }
        }
        assert forall|j: int| 0 <= j < self.queue().len() implies #[trigger] self.queue()[j].pid
            < self.pid_counter() by {
            if j < old(self).queue().len() {
                assert(self.queue()[j] == old(self).queue()[j]);
            }
        }
        pid
    }

    /// Marks the record carrying `pid` `Zombie` and returns whether it
    /// exists; exiting a record that has already exited changes nothing.
    /// When it is the current record, the next eligible record becomes
    /// current and `Running` before returning, and `cpu` (the processor's
    /// registers) takes that record's saved registers, so the exited unit no
    /// longer runs; with none eligible, the idle record becomes current and
    /// `cpu` takes its registers.
    pub fn exit(&mut self, pid: u32, cpu: &mut CpuContext) -> (r: bool)
        requires
            old(self).wf(),
        ensures
            final(self).wf(),
            r == has_pid(old(self).queue(), pid),
            !r ==> final(self).queue() == old(self).queue() && final(self).cursor() == old(
                self,
            ).cursor() && *final(cpu) == *old(cpu),
            forall|i: int|
                0 <= i < old(self).queue().len() && old(self).queue()[i].pid == pid ==> exit_outcome(
                    old(self).queue(),
                    old(self).cursor(),
                    *old(cpu),
                    i,
                    final(self).queue(),
                    final(self).cursor(),
                    *final(cpu),
                ),
            final(self).pid_counter() == old(self).pid_counter(),
            final(self).issued() == old(self).issued(),
    {
        proof {
            self.lemma_scheduler_wf();
        }
        let ghost q = self.queue();
        let ghost c = self.cursor();
        match self.scheduler.find(pid) {
            None => false,
            Some(i) => {
                let st = self.scheduler.entry(i).state;
                if st.is_live() {
                    self.scheduler.set_state(i, ProcessState::Zombie);
                    assert(self.queue() =~= after_exit(q, i as int));
                    if i == self.scheduler.current_index() {
                        match self.scheduler.get_next_process() {
                            Some(_) => {
                                let j = self.scheduler.current_index();
                                *cpu = self.scheduler.entry(j).context;
                                self.scheduler.set_state(j, ProcessState::Running);
                            },
                            None => {
                                if self.scheduler.set_current(IDLE_PID) {
                                    let j = self.scheduler.current_index();
                                    *cpu = self.scheduler.entry(j).context;
                                }
                            },
                        }
                    }
                }
                assert forall|k: int|
                    0 <= k < q.len() && q[k].pid == pid implies k == i by {
                    if k != i {
                        assert(q[k].pid != q[i as int].pid);
                    }
                }
                assert forall|j: int| 0 <= j < self.queue().len() implies #[trigger] self.queue()[j].pid
                    < self.pid_counter() by {
                    assert(self.queue()[j].pid == q[j].pid);
                }
                true
            },
        }
    }

    /// Removes every exited record (`Zombie` or `Terminated`) and returns
    /// their identifiers in queue order, so that their stacks can be
    /// released.
    pub fn reap_zombies(&mut self) -> (r: Vec<u32>)
        requires
            old(self).wf(),
        ensures
            final(self).wf(),
            final(self).queue() == kept(old(self).queue()),
            r@ == removed_pids(old(self).queue()),
            final(self).cursor() == cursor_after_sweep(old(self).queue(), old(self).cursor()),
            final(self).pid_counter() == old(self).pid_counter(),
            final(self).issued() == old(self).issued(),
    {
        proof {
            self.lemma_scheduler_wf();
        }
        let ghost q = self.queue();
        let ghost c = self.cursor();
        let r = self.scheduler.remove_terminated();
        proof {
            lemma_kept_from_queue(q);
            assert forall|j: int|
                0 <= j < self.queue().len() && j != self.cursor() implies #[trigger] self.queue()[j].state
                != ProcessState::Running by {
                let i = choose|i: int|
                    0 <= i < q.len() && kept(q)[j] == q[i] && kept(q.take(i)).len() == j;
                if q[i].state == ProcessState::Running {
                    assert(i == c);
                    lemma_kept_position(q, c);
                    let before = kept(q.take(c)).len();
                    vstd::arithmetic::div_mod::lemma_small_mod(before, kept(q).len());
                    assert(self.cursor() == j);
                }
            }
            assert forall|j: int| 0 <= j < self.queue().len() implies #[trigger] self.queue()[j].pid
                < self.pid_counter() by {
                let i = choose|i: int|
                    0 <= i < q.len() && kept(q)[j] == q[i] && kept(q.take(i)).len() == j;
            }
        }
        r
    }

    /// Hands the processor to the next eligible record in round-robin order.
    /// `cpu` holds the registers of the executing unit. Returns whether a
    /// switch to a different record took place.
    pub fn schedule(&mut self, cpu: &mut CpuContext) -> (r: bool)
        requires
            old(self).wf(),
        ensures
            final(self).wf(),
            schedule_outcome(
                old(self).queue(),
                old(self).cursor(),
                *old(cpu),
                final(self).queue(),
                final(self).cursor(),
                *final(cpu),
                r,
            ),
            has_eligible(old(self).queue()) ==> only_running_at(
                final(self).queue(),
                final(self).cursor(),
            ),
            final(self).queue().len() == old(self).queue().len(),
            forall|i: int|
                0 <= i < old(self).queue().len() ==> eligible(
                    #[trigger] final(self).queue()[i].state,
                ) == eligible(old(self).queue()[i].state),
            final(self).pid_counter() == old(self).pid_counter(),
            final(self).issued() == old(self).issued(),
    {
        proof {
            self.lemma_scheduler_wf();
        }
        let ghost q = self.queue();
        let n = self.scheduler.len();
        if n == 0 {
            return false;
        }
        let c = self.scheduler.current_index();
        let outgoing = *self.scheduler.entry(c);
        match self.scheduler.get_next_process() {
            None => false,
            Some(incoming) => {
                let j = self.scheduler.current_index();
                if j == c {
                    self.scheduler.set_state(c, ProcessState::Running);
                    false
                } else {
                    if outgoing.state == ProcessState::Running {
                        self.scheduler.set_state(c, ProcessState::Ready);
                    }
                    assert(self.queue() =~= with_state(
                        q,
                        c as int,
                        state_after_preemption(q[c as int].state),
                    ));
                    let mut saved = outgoing.context;
                    switch(cpu, &mut saved, &incoming.context);
                    self.scheduler.set_context(c, saved);
                    self.scheduler.set_state(j, ProcessState::Running);
                    true
                }
            },
        }
    }

    /// Number of records that have not exited.
    pub fn process_count(&self) -> (r: usize)
        ensures
            r == live_count(self.queue()),
    {
        self.scheduler.count()
    }

    /// Number of records in the queue, exited ones included.
    pub fn len(&self) -> (r: usize)
        ensures
            r == self.queue().len(),
    {
        self.scheduler.len()
    }

    /// The record carrying `pid`, if any.
    pub fn get_process(&self, pid: u32) -> (r: Option<&ProcessControlBlock>)
        ensures
            r.is_none() == !has_pid(self.queue(), pid),
            r matches Some(p) ==> exists|i: int|
                0 <= i < self.queue().len() && self.queue()[i] == *p && p.pid == pid,
    {
        match self.scheduler.find(pid) {
            Some(i) => Some(self.scheduler.entry(i)),
            None => None,
        }
    }

    /// The current record, or nothing for an empty queue.
    pub fn get_current(&self) -> (r: Option<&ProcessControlBlock>)
        requires
            self.wf(),
        ensures
            r.is_none() == (self.queue().len() == 0),
            r matches Some(p) ==> *p == self.queue()[self.cursor()],
    {
        self.scheduler.current()
    }
}

} // verus!
