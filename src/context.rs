use vstd::prelude::*;

use crate::gdt::{KERNEL_CODE_SELECTOR, KERNEL_DATA_SELECTOR};

verus! {

/// Flags register value of a fresh unit: the interrupt-enable bit (bit 9)
/// together with bit 1, which the architecture keeps set.
pub const INITIAL_RFLAGS: u64 = 0x202;

/// Interrupt-enable bit of the flags register.
pub const RFLAGS_INTERRUPT_ENABLE: u64 = 0x200;

/// A snapshot of every register needed to resume a unit of execution
/// exactly where it left off.
#[derive(Clone, Copy, Debug, PartialEq, Eq, Structural)]
pub struct CpuContext {
    pub rax: u64,
    pub rbx: u64,
    pub rcx: u64,
    pub rdx: u64,
    pub rsi: u64,
    pub rdi: u64,
    pub rbp: u64,
    pub r8: u64,
    pub r9: u64,
    pub r10: u64,
    pub r11: u64,
    pub r12: u64,
    pub r13: u64,
    pub r14: u64,
    pub r15: u64,
    /// Stack pointer.
    pub rsp: u64,
    /// Resume address.
    pub rip: u64,
    /// Flags register.
    pub rflags: u64,
    /// Code segment selector.
    pub cs: u16,
    /// Stack segment selector.
    pub ss: u16,
}

/// The all-zero context.
pub open spec fn zero_context() -> CpuContext {
    CpuContext {
        rax: 0,
        rbx: 0,
        rcx: 0,
        rdx: 0,
        rsi: 0,
        rdi: 0,
        rbp: 0,
        r8: 0,
        r9: 0,
        r10: 0,
        r11: 0,
        r12: 0,
        r13: 0,
        r14: 0,
        r15: 0,
        rsp: 0,
        rip: 0,
        rflags: 0,
        cs: 0,
        ss: 0,
    }
}

/// The context a new unit starts from: it resumes at `entry` on the stack
/// whose top is `stack_top`, in the kernel segments, with interrupts enabled.
pub open spec fn initial_context(entry: u64, stack_top: u64) -> CpuContext {
    CpuContext {
        rsp: stack_top,
        rip: entry,
        rflags: INITIAL_RFLAGS,
        cs: KERNEL_CODE_SELECTOR,
        ss: KERNEL_DATA_SELECTOR,
        ..zero_context()
    }
}

impl CpuContext {
    /// A context with every register zero.
    pub fn zeroed() -> (r: CpuContext)
        ensures
            r == zero_context(),
    {
        CpuContext {
            rax: 0,
            rbx: 0,
            rcx: 0,
            rdx: 0,
            rsi: 0,
            rdi: 0,
            rbp: 0,
            r8: 0,
            r9: 0,
            r10: 0,
            r11: 0,
            r12: 0,
            r13: 0,
            r14: 0,
            r15: 0,
            rsp: 0,
            rip: 0,
            rflags: 0,
            cs: 0,
            ss: 0,
        }
    }

    /// Resets the context so that resuming it starts `entry` on the stack
    /// whose top is `stack_top`, with interrupts enabled.
    pub fn set_initial_state(&mut self, entry: u64, stack_top: u64)
        ensures
            *final(self) == initial_context(entry, stack_top),
    {
        *self = CpuContext::zeroed();
        self.rip = entry;
        self.rsp = stack_top;
        self.rflags = INITIAL_RFLAGS;
        self.cs = KERNEL_CODE_SELECTOR;
        self.ss = KERNEL_DATA_SELECTOR;
    }

    /// Whether resuming this context runs with interrupts enabled.
    pub fn interrupts_enabled(&self) -> (r: bool)
        ensures
            r == (self.rflags & RFLAGS_INTERRUPT_ENABLE != 0),
    {
        self.rflags & RFLAGS_INTERRUPT_ENABLE != 0
    }
}

/// What a `save` reports to its caller: the context was just captured, or
/// control came back into it through a later restore.
#[derive(Clone, Copy, Debug, PartialEq, Eq, Structural)]
pub enum SwitchOutcome {
    Saved,
    Resumed,
}

/// Captures the register state `cpu` of the executing unit into `into`,
/// and reports `Saved`. The second return at this point, reporting
/// `Resumed` when the saved context is later restored, happens on the
/// hardware and is not modelled here.
pub fn save(cpu: &CpuContext, into: &mut CpuContext) -> (r: SwitchOutcome)
    ensures
        *final(into) == *cpu,
        r == SwitchOutcome::Saved,
{
    *into = *cpu;
    SwitchOutcome::Saved
}

/// Loads every register of `cpu` from `from`: execution continues at
/// `from.rip` on the stack `from.rsp`.
pub fn restore(cpu: &mut CpuContext, from: &CpuContext)
    ensures
        *final(cpu) == *from,
{
    *cpu = *from;
}

/// The result of a switch, as (processor, outgoing slot): the processor
/// holds the incoming context and the outgoing slot holds what the
/// processor held.
pub open spec fn switched(cpu: CpuContext, new: CpuContext) -> (CpuContext, CpuContext) {
    (new, cpu)
}

/// Moves the processor from the unit whose registers are in `cpu` to the
/// unit saved in `incoming`: the outgoing registers land in `outgoing` and
/// the processor then holds `incoming`.
pub fn switch(cpu: &mut CpuContext, outgoing: &mut CpuContext, incoming: &CpuContext) -> (r:
    SwitchOutcome)
    ensures
        (*final(cpu), *final(outgoing)) == switched(*old(cpu), *incoming),
        r == SwitchOutcome::Saved,
{
    let outcome = save(cpu, outgoing);
    restore(cpu, incoming);
    outcome
}

/// Switching from one unit to another and straight back leaves the
/// processor, and the other unit's saved context, exactly as they were.
pub proof fn lemma_switch_round_trip(cpu: CpuContext, new: CpuContext)
    ensures
        ({
            let (cpu1, saved) = switched(cpu, new);
            let (cpu2, new_back) = switched(cpu1, saved);
            cpu2 == cpu && new_back == new
        }),
{
}

/// The context switcher: the one path by which control moves between units.
pub struct ContextSwitcher;

impl ContextSwitcher {
    /// Saves the executing unit's registers into `current` and loads `next`
    /// into the processor.
    pub fn switch_to(cpu: &mut CpuContext, current: &mut CpuContext, next: &CpuContext) -> (r:
        SwitchOutcome)
        ensures
            (*final(cpu), *final(current)) == switched(*old(cpu), *next),
            r == SwitchOutcome::Saved,
    {
        switch(cpu, current, next)
    }
}

} // verus!
