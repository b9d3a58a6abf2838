//! Interrupt vectors and the two paths that end a task's turn: the timer
//! tick and the system-call trap.

use vstd::prelude::*;
use crate::scheduler::{Scheduler, SchedulerState, TaskContext};

verus! {

/// First vector of the primary interrupt controller.
pub const PIC_1_OFFSET: u8 = 32;

/// First vector of the secondary interrupt controller.
pub const PIC_2_OFFSET: u8 = 40;

/// Vector of the system-call trap.
pub const SYSCALL_IRQ: u8 = 0x80;

/// Request code: write bytes to the kernel's output.
pub const SYS_PRINT: u64 = 1;

/// Request code: end the calling task.
pub const SYS_EXIT: u64 = 2;

/// Request code: give up the rest of the turn.
pub const SYS_YIELD: u64 = 3;

/// Divisor that makes the interval timer tick about a hundred times a
/// second.
pub const PIT_DIVISOR: u16 = 11931;

/// Command that sets the timer's first channel to a square wave with a
/// divisor of sixteen bits.
pub const PIT_COMMAND: u8 = 0x36;

/// Mask of the primary interrupt controller: timer, keyboard and the
/// cascade are let through.
pub const PIC_1_MASK: u8 = 0xF8;

/// Mask of the secondary interrupt controller: the mouse is let through.
pub const PIC_2_MASK: u8 = 0xEF;

/// Vector of the breakpoint exception.
pub const BREAKPOINT_VECTOR: u8 = 3;

/// Vector of the double fault.
pub const DOUBLE_FAULT_VECTOR: u8 = 8;

/// Vector of the general protection fault.
pub const GENERAL_PROTECTION_VECTOR: u8 = 13;

/// Vector of the page fault.
pub const PAGE_FAULT_VECTOR: u8 = 14;

/// Bit of a page fault's error code that tells a protection violation
/// from a missing page.
pub const PROTECTION_VIOLATION: u64 = 1;

/// The two bytes of the timer's divisor, low byte first, in the order
/// they are written to the timer.
pub fn init_pit() -> (bytes: (u8, u8))
    ensures
        bytes.0 == (PIT_DIVISOR & 0xFF) as u8,
        bytes.1 == (PIT_DIVISOR >> 8) as u8,
        bytes == (0x9Bu8, 0x2Eu8),
{
    proof {
        assert((11931u16 & 0xFF) == 0x9B && (11931u16 >> 8) == 0x2E) by (bit_vector);
    }
    ((PIT_DIVISOR & 0xFF) as u8, (PIT_DIVISOR >> 8) as u8)
}

/// The masks to write to the two interrupt controllers, the primary
/// first.
pub fn enable_listening() -> (masks: (u8, u8))
    ensures
        masks == (PIC_1_MASK, PIC_2_MASK),
{
    (PIC_1_MASK, PIC_2_MASK)
}

/// What handles a vector.
#[derive(Debug, Clone, Copy, PartialEq, Eq, Structural)]
pub enum Handler {
    Breakpoint,
    PageFault,
    GeneralProtectionFault,
    DoubleFault,
    Keyboard,
    Mouse,
    Timer,
    Syscall,
}

/// One entry of the interrupt descriptor table.
#[derive(Debug, Clone, Copy, PartialEq, Eq, Structural)]
pub struct IdtEntry {
    pub vector: u8,
    pub handler: Handler,
    /// The stack the handler runs on, where it does not run on the stack
    /// of the interrupted code.
    pub stack_index: Option<u16>,
    /// User code may raise the vector.
    pub user: bool,
}

/// The entries of the interrupt descriptor table as they are set up.
pub open spec fn idt_entries() -> Seq<IdtEntry> {
    seq![
        IdtEntry {
            vector: BREAKPOINT_VECTOR,
            handler: Handler::Breakpoint,
            stack_index: None,
            user: false,
        },
        IdtEntry {
            vector: PAGE_FAULT_VECTOR,
            handler: Handler::PageFault,
            stack_index: None,
            user: false,
        },
        IdtEntry {
            vector: GENERAL_PROTECTION_VECTOR,
            handler: Handler::GeneralProtectionFault,
            stack_index: None,
            user: false,
        },
        IdtEntry {
            vector: DOUBLE_FAULT_VECTOR,
            handler: Handler::DoubleFault,
            stack_index: Some(crate::gdt::DOUBLE_FAULT_IST_INDEX),
            user: false,
        },
        IdtEntry {
            vector: 33,
            handler: Handler::Keyboard,
            stack_index: Some(crate::gdt::INTERRUPT_IST_INDEX),
            user: false,
        },
        IdtEntry {
            vector: 44,
            handler: Handler::Mouse,
            stack_index: Some(crate::gdt::INTERRUPT_IST_INDEX),
            user: false,
        },
        IdtEntry {
            vector: 32,
            handler: Handler::Timer,
            stack_index: Some(crate::gdt::INTERRUPT_IST_INDEX),
            user: false,
        },
        IdtEntry {
            vector: SYSCALL_IRQ,
            handler: Handler::Syscall,
            stack_index: Some(crate::gdt::INTERRUPT_IST_INDEX),
            user: true,
        },
    ]
}

/// The entries to put into the interrupt descriptor table: the four
/// exceptions the kernel handles, the three hardware interrupts it
/// listens to, and the system call, which alone user code may raise.
pub fn init_idt() -> (entries: Vec<IdtEntry>)
    ensures
        entries@ == idt_entries(),
{
    let mut entries: Vec<IdtEntry> = Vec::new();
    entries.push(
        IdtEntry {
            vector: BREAKPOINT_VECTOR,
            handler: Handler::Breakpoint,
            stack_index: None,
            user: false,
        },
    );
    entries.push(
        IdtEntry {
            vector: PAGE_FAULT_VECTOR,
            handler: Handler::PageFault,
            stack_index: None,
            user: false,
        },
    );
    entries.push(
        IdtEntry {
            vector: GENERAL_PROTECTION_VECTOR,
            handler: Handler::GeneralProtectionFault,
            stack_index: None,
            user: false,
        },
    );
    entries.push(
        IdtEntry {
            vector: DOUBLE_FAULT_VECTOR,
            handler: Handler::DoubleFault,
            stack_index: Some(crate::gdt::DOUBLE_FAULT_IST_INDEX),
            user: false,
        },
    );
    entries.push(
        IdtEntry {
            vector: InterruptIndex::Keyboard.as_u8(),
            handler: Handler::Keyboard,
            stack_index: Some(crate::gdt::INTERRUPT_IST_INDEX),
            user: false,
        },
    );
    entries.push(
        IdtEntry {
            vector: InterruptIndex::Mouse.as_u8(),
            handler: Handler::Mouse,
            stack_index: Some(crate::gdt::INTERRUPT_IST_INDEX),
            user: false,
        },
    );
    entries.push(
        IdtEntry {
            vector: InterruptIndex::Timer.as_u8(),
            handler: Handler::Timer,
            stack_index: Some(crate::gdt::INTERRUPT_IST_INDEX),
            user: false,
        },
    );
    entries.push(
        IdtEntry {
            vector: SYSCALL_IRQ,
            handler: Handler::Syscall,
            stack_index: Some(crate::gdt::INTERRUPT_IST_INDEX),
            user: true,
        },
    );
    proof {
        assert(entries@ =~= idt_entries());
    }
    entries
}

/// What a page fault's error code says of its reason.
pub open spec fn fault_reason(error_code: u64) -> Seq<char> {
    if error_code & PROTECTION_VIOLATION != 0 {
        "Reason: PROTECTION VIOLATION (Ring 3 blocked)\n"@
    } else {
        "Reason: PAGE NOT PRESENT (Mapping missing)\n"@
    }
}

/// The line that tells the reason of a page fault.
pub fn page_fault_reason(error_code: u64) -> (line: &'static str)
    ensures
        line@ == fault_reason(error_code),
{
    if error_code & PROTECTION_VIOLATION != 0 {
        "Reason: PROTECTION VIOLATION (Ring 3 blocked)\n"
    } else {
        "Reason: PAGE NOT PRESENT (Mapping missing)\n"
    }
}

/// Hardware interrupts the kernel listens to.
#[derive(Debug, Clone, Copy, PartialEq, Eq, Structural)]
pub enum InterruptIndex {
    Timer,
    Keyboard,
    Mouse,
}

impl InterruptIndex {
    /// The vector number as a mathematical value.
    pub open spec fn vector(self) -> u8 {
        match self {
            InterruptIndex::Timer => PIC_1_OFFSET,
            InterruptIndex::Keyboard => (PIC_1_OFFSET + 1) as u8,
            InterruptIndex::Mouse => (PIC_2_OFFSET + 4) as u8,
        }
    }

    /// The vector number the interrupt controller raises.
    pub fn as_u8(self) -> (v: u8)
        ensures
            v == self.vector(),
    {
        match self {
            InterruptIndex::Timer => PIC_1_OFFSET,
            InterruptIndex::Keyboard => PIC_1_OFFSET + 1,
            InterruptIndex::Mouse => PIC_2_OFFSET + 4,
        }
    }

    /// The vector number as an index into the descriptor table.
    pub fn as_usize(self) -> (v: usize)
        ensures
            v == self.vector(),
    {
        match self {
            InterruptIndex::Timer => 32,
            InterruptIndex::Keyboard => 33,
            InterruptIndex::Mouse => 44,
        }
    }
}

/// Which path took control away from the running task.
#[derive(Debug, Clone, Copy, PartialEq, Eq, Structural)]
pub enum TrapSource {
    Timer,
    Syscall,
}

/// A transfer into the kernel: its source and the registers of the
/// interrupted code as the entry code captured them.
#[derive(Debug, Clone, Copy, PartialEq, Eq, Structural)]
pub struct Trap {
    pub source: TrapSource,
    pub frame: TaskContext,
}

/// What is left to do after a system call has been decoded.
#[derive(Debug, Clone, Copy, PartialEq, Eq, Structural)]
pub enum SyscallAction {
    /// Forward `len` bytes at address `ptr` of the caller's memory to the
    /// kernel's output, then resume the caller.
    Print { ptr: u64, len: u64 },
    /// The frame now holds the scheduler's registers: returning from the
    /// trap resumes the dispatch loop.
    Switch,
    /// Nothing was done: returning from the trap resumes the caller.
    Resume,
}

impl SchedulerState {
    /// Suspends the running task and keeps it runnable: its saved
    /// registers become `frame`, and the frame is replaced by the
    /// scheduler's resumption point with interrupts enabled. With no task
    /// running nothing changes.
    pub open spec fn suspended(self, frame: TaskContext) -> (SchedulerState, TaskContext) {
        match self.current {
            Some(idx) => (
                SchedulerState {
                    tasks: self.tasks.update(idx as int, self.tasks[idx as int].suspended_at(frame)),
                    ..self
                },
                self.context.interrupts_enabled(),
            ),
            None => (self, frame),
        }
    }

    /// Ends the running task: it leaves the list, nothing is current, and
    /// the frame is replaced by the scheduler's resumption point with
    /// interrupts enabled. With no task running nothing changes.
    pub open spec fn exited(self, frame: TaskContext) -> (SchedulerState, TaskContext) {
        match self.current {
            Some(idx) => (
                SchedulerState { tasks: self.tasks.remove(idx as int), current: None, ..self },
                self.context.interrupts_enabled(),
            ),
            None => (self, frame),
        }
    }

    /// Effect of a timer tick that interrupted code with registers `frame`.
    pub open spec fn preempted(self, frame: TaskContext) -> (SchedulerState, TaskContext) {
        self.suspended(frame)
    }

    /// Effect of a system call made with registers `frame`: the request
    /// code is read from `rax`.
    pub open spec fn syscall(self, frame: TaskContext) -> (SchedulerState, TaskContext) {
        if frame.rax == SYS_EXIT {
            self.exited(frame)
        } else if frame.rax == SYS_YIELD {
            self.suspended(frame)
        } else {
            (self, frame)
        }
    }

    /// Effect of a trap from either source.
    pub open spec fn trapped(self, trap: Trap) -> (SchedulerState, TaskContext) {
        match trap.source {
            TrapSource::Timer => self.preempted(trap.frame),
            TrapSource::Syscall => self.syscall(trap.frame),
        }
    }
}

/// What is left to do after a system call made with registers `frame`
/// while the scheduler is in state `s`.
pub open spec fn syscall_action(s: SchedulerState, frame: TaskContext) -> SyscallAction {
    if frame.rax == SYS_PRINT {
        SyscallAction::Print { ptr: frame.rdi, len: frame.rsi }
    } else if (frame.rax == SYS_EXIT || frame.rax == SYS_YIELD) && s.current is Some {
        SyscallAction::Switch
    } else {
        SyscallAction::Resume
    }
}

impl Trap {
    /// True when the trap hands the processor back to the scheduler while a
    /// task is running: every timer tick does, and of the system calls
    /// exit and yield.
    pub open spec fn ends_activation(self) -> bool {
        match self.source {
            TrapSource::Timer => true,
            TrapSource::Syscall => self.frame.rax == SYS_EXIT || self.frame.rax == SYS_YIELD,
        }
    }
}

/// Timer tick, given the frame the entry code captured. With a task
/// running, its registers are saved from the frame and the frame is
/// overwritten with the scheduler's resumption point, interrupts enabled;
/// otherwise nothing changes. Returns the vector the caller has to
/// acknowledge at the interrupt controller, on every tick.
pub fn handle_timer_preemption(sched: &mut Scheduler, context: &mut TaskContext) -> (vector: u8)
    requires
        old(sched).wf(),
    ensures
        (final(sched)@, *final(context)) == old(sched)@.preempted(*old(context)),
        final(sched).wf(),
        vector == InterruptIndex::Timer.vector(),
{
    match sched.current_task_idx {
        Some(idx) => {
            sched.tasks[idx].context = *context;
            *context = sched.scheduler_context.with_interrupts_enabled();
            proof {
                assert(sched@.tasks =~= old(sched)@.preempted(*old(context)).0.tasks);
            }
        },
        None => {},
    }
    InterruptIndex::Timer.as_u8()
}

/// Entry point of the timer interrupt on a processor with registers `cpu`:
/// the registers are captured as the frame, the tick is handled, and the
/// processor continues with what the frame then holds.
pub fn timer_interrupt_handler(sched: &mut Scheduler, cpu: &mut TaskContext) -> (vector: u8)
    requires
        old(sched).wf(),
    ensures
        (final(sched)@, *final(cpu)) == old(sched)@.preempted(*old(cpu)),
        final(sched).wf(),
        vector == InterruptIndex::Timer.vector(),
{
    let mut frame = *cpu;
    let vector = handle_timer_preemption(sched, &mut frame);
    *cpu = frame;
    vector
}

/// System call, given the frame the entry code captured. The request code
/// is in `rax`, its two arguments in `rdi` and `rsi`.
///
/// - print: nothing changes; the caller is told which bytes to forward.
/// - exit: the running task is removed and the frame is overwritten with
///   the scheduler's resumption point, interrupts enabled.
/// - yield: the running task's registers are saved from the frame, and the
///   frame is overwritten in the same way.
/// - any other code: nothing changes.
///
/// Exit and yield with no task running change nothing either.
pub fn handle_syscall_rust(sched: &mut Scheduler, context: &mut TaskContext) -> (action:
    SyscallAction)
    requires
        old(sched).wf(),
    ensures
        (final(sched)@, *final(context)) == old(sched)@.syscall(*old(context)),
        final(sched).wf(),
        action == syscall_action(old(sched)@, *old(context)),
{
    let rax = context.rax;
    let rdi = context.rdi;
    let rsi = context.rsi;
    if rax == SYS_PRINT {
        SyscallAction::Print { ptr: rdi, len: rsi }
    } else if rax == SYS_EXIT {
        match sched.current_task_idx {
            Some(idx) => {
                let _ = sched.tasks.remove(idx);
                sched.current_task_idx = None;
                *context = sched.scheduler_context.with_interrupts_enabled();
                SyscallAction::Switch
            },
            None => SyscallAction::Resume,
        }
    } else if rax == SYS_YIELD {
        match sched.current_task_idx {
            Some(idx) => {
                sched.tasks[idx].context = *context;
                *context = sched.scheduler_context.with_interrupts_enabled();
                proof {
                    assert(sched@.tasks =~= old(sched)@.syscall(*old(context)).0.tasks);
                }
                SyscallAction::Switch
            },
            None => SyscallAction::Resume,
        }
    } else {
        SyscallAction::Resume
    }
}

/// Entry point of the system-call trap on a processor with registers
/// `cpu`: the registers are captured as the frame, the call is handled,
/// and the processor continues with what the frame then holds.
pub fn syscall_handler(sched: &mut Scheduler, cpu: &mut TaskContext) -> (action: SyscallAction)
    requires
        old(sched).wf(),
    ensures
        (final(sched)@, *final(cpu)) == old(sched)@.syscall(*old(cpu)),
        final(sched).wf(),
        action == syscall_action(old(sched)@, *old(cpu)),
{
    let mut frame = *cpu;
    let action = handle_syscall_rust(sched, &mut frame);
    *cpu = frame;
    action
}

} // verus!
