use kernel_sched::context::{switch, ContextSwitcher, CpuContext, SwitchOutcome};
use kernel_sched::process::{ProcessControlBlock, ProcessState, RoundRobinScheduler};
use kernel_sched::process_manager::ProcessManager;

fn booted() -> ProcessManager {
    let mut m = ProcessManager::new();
    m.init();
    m
}

fn current_pid(m: &ProcessManager) -> u32 {
    m.get_current().unwrap().pid
}

fn state_of(m: &ProcessManager, pid: u32) -> ProcessState {
    m.get_process(pid).unwrap().state
}

fn running_count(m: &ProcessManager, pids: &[u32]) -> usize {
    pids.iter()
        .filter(|p| state_of(m, **p) == ProcessState::Running)
        .count()
}

#[test]
fn init_creates_running_idle() {
    let m = booted();
    assert_eq!(m.len(), 1);
    let idle = m.get_current().unwrap();
    assert_eq!(idle.pid, 0);
    assert_eq!(idle.state, ProcessState::Running);
    assert_eq!(m.process_count(), 1);
}

#[test]
fn spawn_builds_ready_record() {
    let mut m = booted();
    let pid = m.spawn(0x4000, 0x9000);
    assert_eq!(pid, 1);
    let p = m.get_process(1).unwrap();
    assert_eq!(p.state, ProcessState::Ready);
    assert_eq!(p.context.rip, 0x4000);
    assert_eq!(p.context.rsp, 0x9000);
    assert_eq!(p.context.rflags, 0x202);
    assert!(p.context.interrupts_enabled());
    assert_eq!(p.context.cs, 0x08);
    assert_eq!(p.context.ss, 0x10);
    assert_eq!(p.context.rax, 0);
}

#[test]
fn pids_strictly_increase_and_are_not_reused() {
    let mut m = booted();
    let mut cpu = CpuContext::zeroed();
    let a = m.spawn(0x1000, 0x2000);
    let b = m.spawn(0x1000, 0x3000);
    assert!(m.exit(a, &mut cpu));
    assert_eq!(m.reap_zombies(), vec![a]);
    let c = m.spawn(0x1000, 0x4000);
    m.init();
    let d = m.spawn(0x1000, 0x5000);
    assert_eq!((a, b, c, d), (1, 2, 3, 4));
    assert_eq!(m.next_pid(), 5);
}

#[test]
fn advance_skips_exited_and_blocked_records() {
    let mut s = RoundRobinScheduler::new();
    let mut p0 = ProcessControlBlock::create(0, 0, 0);
    p0.state = ProcessState::Running;
    let mut p1 = ProcessControlBlock::create(1, 0, 0);
    p1.state = ProcessState::Zombie;
    let mut p2 = ProcessControlBlock::create(2, 0, 0);
    p2.state = ProcessState::Terminated;
    let mut p3 = ProcessControlBlock::create(3, 0, 0);
    p3.state = ProcessState::Blocked;
    let p4 = ProcessControlBlock::create(4, 0, 0);
    s.add(p0);
    s.add(p1);
    s.add(p2);
    s.add(p3);
    s.add(p4);
    let next = s.get_next_process().unwrap();
    assert_eq!(next.pid, 4);
    assert_eq!(s.current_index(), 4);
    let next = s.get_next_process().unwrap();
    assert_eq!(next.pid, 0);
    assert_eq!(s.count(), 3);
}

#[test]
fn advance_with_nothing_eligible_returns_none() {
    let mut s = RoundRobinScheduler::new();
    assert!(s.get_next_process().is_none());
    let mut p = ProcessControlBlock::create(7, 0, 0);
    p.state = ProcessState::Zombie;
    s.add(p);
    assert!(s.get_next_process().is_none());
    assert_eq!(s.current_index(), 0);
    assert_eq!(s.current().unwrap().pid, 7);
}

#[test]
fn advance_returns_current_when_it_is_the_only_eligible() {
    let mut s = RoundRobinScheduler::new();
    let mut p = ProcessControlBlock::create(5, 0, 0);
    p.state = ProcessState::Zombie;
    s.add(ProcessControlBlock::create(3, 0, 0));
    s.add(p);
    assert_eq!(s.get_next_process().unwrap().pid, 3);
    assert_eq!(s.current_index(), 0);
}

#[test]
fn set_current_moves_cursor_to_pid() {
    let mut s = RoundRobinScheduler::new();
    s.add(ProcessControlBlock::create(3, 0, 0));
    s.add(ProcessControlBlock::create(8, 0, 0));
    assert!(s.set_current(8));
    assert_eq!(s.current().unwrap().pid, 8);
    assert!(!s.set_current(9));
    assert_eq!(s.current().unwrap().pid, 8);
}

#[test]
fn schedule_leaves_exactly_one_running() {
    let mut m = booted();
    m.spawn(0x1000, 0x2000);
    m.spawn(0x1000, 0x3000);
    let mut cpu = CpuContext::zeroed();
    for _ in 0..5 {
        m.schedule(&mut cpu);
        assert_eq!(running_count(&m, &[0, 1, 2]), 1);
        assert_eq!(state_of(&m, current_pid(&m)), ProcessState::Running);
    }
}

#[test]
fn schedule_round_robin_visits_each_once() {
    let mut m = booted();
    for i in 0..4u64 {
        m.spawn(0x1000 + i, 0x8000 + i);
    }
    let mut cpu = CpuContext::zeroed();
    let mut seen = Vec::new();
    for _ in 0..5 {
        m.schedule(&mut cpu);
        seen.push(current_pid(&m));
    }
    assert_eq!(seen, vec![1, 2, 3, 4, 0]);
}

#[test]
fn schedule_saves_and_loads_contexts() {
    let mut m = booted();
    m.spawn(0xAAAA, 0xBBBB);
    let mut cpu = CpuContext::zeroed();
    cpu.rax = 42;
    cpu.rip = 0x1234;
    assert!(m.schedule(&mut cpu));
    assert_eq!(cpu.rip, 0xAAAA);
    assert_eq!(cpu.rsp, 0xBBBB);
    let idle = m.get_process(0).unwrap();
    assert_eq!(idle.context.rax, 42);
    assert_eq!(idle.context.rip, 0x1234);
    assert_eq!(idle.state, ProcessState::Ready);
    assert_eq!(state_of(&m, 1), ProcessState::Running);
}

#[test]
fn schedule_with_single_eligible_does_not_switch() {
    let mut m = booted();
    let mut cpu = CpuContext::zeroed();
    cpu.rbx = 9;
    assert!(!m.schedule(&mut cpu));
    assert_eq!(cpu.rbx, 9);
    assert_eq!(current_pid(&m), 0);
    assert_eq!(state_of(&m, 0), ProcessState::Running);
}

#[test]
fn schedule_on_empty_queue_does_nothing() {
    let mut m = ProcessManager::new();
    let mut cpu = CpuContext::zeroed();
    assert!(!m.schedule(&mut cpu));
    assert!(m.get_current().is_none());
}

#[test]
fn schedule_leaves_exited_outgoing_alone() {
    let mut m = booted();
    m.spawn(0x1000, 0x2000);
    let mut cpu = CpuContext::zeroed();
    m.schedule(&mut cpu);
    assert_eq!(current_pid(&m), 1);
    m.exit(0, &mut cpu);
    assert_eq!(state_of(&m, 0), ProcessState::Zombie);
    m.schedule(&mut cpu);
    assert_eq!(current_pid(&m), 1);
    assert_eq!(state_of(&m, 0), ProcessState::Zombie);
}

#[test]
fn switch_round_trip_restores_contexts() {
    let mut cpu = CpuContext::zeroed();
    cpu.rax = 1;
    cpu.rip = 0x100;
    cpu.rflags = 0x202;
    let original = cpu;
    let mut old_slot = CpuContext::zeroed();
    let mut new_slot = CpuContext::zeroed();
    new_slot.rbx = 2;
    new_slot.rip = 0x200;
    let new_original = new_slot;
    assert_eq!(switch(&mut cpu, &mut old_slot, &new_slot), SwitchOutcome::Saved);
    assert_eq!(cpu, new_original);
    assert_eq!(old_slot, original);
    let back = old_slot;
    switch(&mut cpu, &mut new_slot, &back);
    assert_eq!(cpu, original);
    assert_eq!(new_slot, new_original);
}

#[test]
fn context_switcher_switch_to_swaps_registers() {
    let mut cpu = CpuContext::zeroed();
    cpu.r15 = 15;
    let mut current = CpuContext::zeroed();
    let mut next = CpuContext::zeroed();
    next.set_initial_state(0x7000, 0x8000);
    let r = ContextSwitcher::switch_to(&mut cpu, &mut current, &next);
    assert_eq!(r, SwitchOutcome::Saved);
    assert_eq!(current.r15, 15);
    assert_eq!(cpu.rip, 0x7000);
    assert_eq!(cpu.rsp, 0x8000);
}

#[test]
fn scenario_init_spawn_schedule_order() {
    let mut m = booted();
    assert_eq!(m.spawn(0x1000, 0x2000), 1);
    assert_eq!(m.spawn(0x3000, 0x4000), 2);
    let mut cpu = CpuContext::zeroed();
    let mut order = vec![current_pid(&m)];
    for _ in 0..3 {
        m.schedule(&mut cpu);
        order.push(current_pid(&m));
    }
    assert_eq!(order, vec![0, 1, 2, 0]);
}

#[test]
fn scenario_exit_current_picks_replacement() {
    let mut m = booted();
    m.spawn(0x1000, 0x2000);
    m.spawn(0x3000, 0x4000);
    let mut cpu = CpuContext::zeroed();
    m.schedule(&mut cpu);
    assert_eq!(current_pid(&m), 1);
    assert!(m.exit(1, &mut cpu));
    let now = m.get_current().unwrap();
    assert_ne!(now.pid, 1);
    assert_ne!(now.state, ProcessState::Zombie);
    assert_eq!(now.pid, 2);
    assert_eq!(now.state, ProcessState::Running);
    assert_eq!(state_of(&m, 1), ProcessState::Zombie);
}

#[test]
fn exit_current_falls_back_to_idle() {
    let mut m = booted();
    m.spawn(0x1000, 0x2000);
    let mut cpu = CpuContext::zeroed();
    m.schedule(&mut cpu);
    m.exit(0, &mut cpu);
    assert_eq!(current_pid(&m), 1);
    m.exit(1, &mut cpu);
    assert_eq!(current_pid(&m), 0);
}

#[test]
fn exit_unknown_or_exited_pid() {
    let mut m = booted();
    let mut cpu = CpuContext::zeroed();
    assert!(!m.exit(42, &mut cpu));
    m.spawn(0x1000, 0x2000);
    assert!(m.exit(1, &mut cpu));
    assert!(m.exit(1, &mut cpu));
    assert_eq!(state_of(&m, 1), ProcessState::Zombie);
    assert_eq!(m.process_count(), 1);
}

#[test]
fn scenario_reap_removes_only_zombie() {
    let mut m = booted();
    let mut cpu = CpuContext::zeroed();
    m.spawn(0x1000, 0x2000);
    m.spawn(0x3000, 0x4000);
    m.exit(1, &mut cpu);
    assert_eq!(state_of(&m, 0), ProcessState::Running);
    assert_eq!(state_of(&m, 1), ProcessState::Zombie);
    assert_eq!(state_of(&m, 2), ProcessState::Ready);
    assert_eq!(m.len(), 3);
    assert_eq!(m.reap_zombies(), vec![1]);
    assert_eq!(m.len(), 2);
    assert!(m.get_process(1).is_none());
    assert_eq!(current_pid(&m), 0);
}

#[test]
fn reap_with_nothing_to_collect() {
    let mut m = booted();
    m.spawn(0x1000, 0x2000);
    assert!(m.reap_zombies().is_empty());
    assert_eq!(m.len(), 2);
}

#[test]
fn remove_terminated_keeps_cursor_on_same_record() {
    let mut s = RoundRobinScheduler::new();
    let mut z = ProcessControlBlock::create(1, 0, 0);
    z.state = ProcessState::Terminated;
    s.add(ProcessControlBlock::create(0, 0, 0));
    s.add(z);
    s.add(ProcessControlBlock::create(2, 0, 0));
    assert!(s.set_current(2));
    assert_eq!(s.remove_terminated(), vec![1]);
    assert_eq!(s.current().unwrap().pid, 2);
    assert_eq!(s.current_index(), 1);
}

#[test]
fn process_count_ignores_exited() {
    let mut m = booted();
    let mut cpu = CpuContext::zeroed();
    m.spawn(0x1000, 0x2000);
    m.spawn(0x1000, 0x2000);
    assert_eq!(m.process_count(), 3);
    m.exit(2, &mut cpu);
    assert_eq!(m.process_count(), 2);
}

#[test]
fn state_predicates() {
    assert!(ProcessState::Ready.is_eligible());
    assert!(ProcessState::Running.is_eligible());
    assert!(!ProcessState::Blocked.is_eligible());
    assert!(ProcessState::Blocked.is_live());
    assert!(!ProcessState::Zombie.is_live());
    assert!(!ProcessState::Terminated.is_live());
}

#[test]
fn exit_of_current_loads_replacement_registers() {
    let mut m = booted();
    m.spawn(0x1000, 0x2000);
    m.spawn(0x3000, 0x4000);
    let mut cpu = CpuContext::zeroed();
    m.schedule(&mut cpu);
    cpu.rax = 77;
    assert!(m.exit(1, &mut cpu));
    assert_eq!(current_pid(&m), 2);
    assert_eq!(cpu.rip, 0x3000);
    assert_eq!(cpu.rsp, 0x4000);
    assert_eq!(cpu.rax, 0);
    assert_eq!(m.get_process(1).unwrap().context.rip, 0x1000);
    m.schedule(&mut cpu);
    assert_eq!(current_pid(&m), 0);
    assert_eq!(m.get_process(2).unwrap().context.rip, 0x3000);
    assert_eq!(state_of(&m, 2), ProcessState::Ready);
}

#[test]
fn exit_of_other_record_keeps_registers() {
    let mut m = booted();
    m.spawn(0x1000, 0x2000);
    let mut cpu = CpuContext::zeroed();
    cpu.rbx = 5;
    assert!(m.exit(1, &mut cpu));
    assert_eq!(cpu.rbx, 5);
    assert_eq!(current_pid(&m), 0);
}

#[test]
fn repeated_exit_of_exited_current_is_a_no_op() {
    let mut m = booted();
    let mut cpu = CpuContext::zeroed();
    assert_eq!(m.spawn(0x1000, 0x2000), 1);
    m.exit(0, &mut cpu);
    assert_eq!(current_pid(&m), 1);
    m.exit(1, &mut cpu);
    assert_eq!(current_pid(&m), 0);
    assert_eq!(state_of(&m, 0), ProcessState::Zombie);
    assert_eq!(m.spawn(0x5000, 0x6000), 2);
    cpu.rcx = 3;
    assert!(m.exit(0, &mut cpu));
    assert_eq!(current_pid(&m), 0);
    assert_eq!(state_of(&m, 2), ProcessState::Ready);
    assert_eq!(cpu.rcx, 3);
}
