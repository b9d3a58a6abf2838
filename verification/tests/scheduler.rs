use chronos::interrupts::{
    handle_syscall_rust, handle_timer_preemption, syscall_handler, timer_interrupt_handler,
    InterruptIndex, SyscallAction, Trap, TrapSource, SYS_EXIT, SYS_PRINT, SYS_YIELD,
};
use chronos::scheduler::{
    context_switch, dispatch, step, Scheduler, Task, TaskContext, TaskStatus, STACK_SIZE,
};

const EXIT_STUB: u64 = 0x0000_7777_0000_1234;

fn frame(seed: u64) -> TaskContext {
    TaskContext {
        r15: seed + 15,
        r14: seed + 14,
        r13: seed + 13,
        r12: seed + 12,
        r11: seed + 11,
        r10: seed + 10,
        r9: seed + 9,
        r8: seed + 8,
        rbp: seed + 7,
        rdi: seed + 6,
        rsi: seed + 5,
        rdx: seed + 4,
        rcx: seed + 3,
        rbx: seed + 2,
        rax: seed + 1,
        rip: seed + 100,
        cs: 0x8,
        rflags: 0x2,
        rsp: seed + 200,
        ss: 0x10,
    }
}

fn tick(seed: u64) -> Trap {
    Trap { source: TrapSource::Timer, frame: frame(seed) }
}

fn yielding(seed: u64) -> Trap {
    let mut f = frame(seed);
    f.rax = SYS_YIELD;
    Trap { source: TrapSource::Syscall, frame: f }
}

fn exiting(seed: u64) -> Trap {
    let mut f = frame(seed);
    f.rax = SYS_EXIT;
    Trap { source: TrapSource::Syscall, frame: f }
}

fn two_tasks() -> Scheduler {
    let mut sched = Scheduler::new();
    assert!(sched.add_task("A", 1000, 0x1000, 1, EXIT_STUB));
    assert!(sched.add_task("B", 1000, 0x2000, 2, EXIT_STUB));
    sched
}

#[test]
fn new_scheduler_is_empty_and_idle() {
    let sched = Scheduler::new();
    assert!(sched.tasks.is_empty());
    assert_eq!(sched.current_task_idx, None);
    assert_eq!(sched.next_task_idx, 0);
    assert_eq!(sched.scheduler_context, TaskContext::default());
}

#[test]
fn default_context_is_all_zero() {
    let c = TaskContext::default();
    assert_eq!(c.rax, 0);
    assert_eq!(c.rip, 0);
    assert_eq!(c.rflags, 0);
    assert_eq!(c.rsp, 0);
    assert_eq!(c.ss, 0);
    assert_eq!(c.r15, 0);
}

#[test]
fn with_interrupts_enabled_sets_only_bit_nine() {
    let mut c = frame(0);
    c.rflags = 0x46;
    let e = c.with_interrupts_enabled();
    assert_eq!(e.rflags, 0x246);
    let mut back = e;
    back.rflags = 0x46;
    assert_eq!(back, c);
    assert_eq!(e.with_interrupts_enabled(), e);
}

#[test]
fn add_task_sets_up_registers_and_stack() {
    let mut sched = Scheduler::new();
    assert!(sched.add_task("worker", 5000, 0xdead_0000, 42, EXIT_STUB));
    assert_eq!(sched.tasks.len(), 1);
    let t = &sched.tasks[0];
    assert_eq!(t.name, "worker");
    assert_eq!(t.budget, 5000);
    assert_eq!(t.job, 0xdead_0000);
    assert_eq!(t.last_cost, 0);
    assert_eq!(t.status, TaskStatus::Waiting);
    assert_eq!(t.violation_count, 0);
    assert_eq!(t.penalty_cooldown, 0);
    assert_eq!(t.stack.len(), STACK_SIZE);
    assert_eq!(t.stack.len(), 65536);
    let base = t.stack.as_ptr() as u64;
    assert_eq!(t.context.rip, 0xdead_0000);
    assert_eq!(t.context.rdi, 42);
    assert_eq!(t.context.rsp, base + 65536 - 8);
    assert_eq!(t.context.cs, 0x8);
    assert_eq!(t.context.ss, 0x10);
    assert_eq!(t.context.rflags, 0x202);
    assert_eq!(t.context.rax, 0);
    assert_eq!(t.context.rsi, 0);
    assert_eq!(&t.stack[65528..], &EXIT_STUB.to_le_bytes());
    assert!(t.stack[..65528].iter().all(|b| *b == 0));
    assert_eq!(sched.current_task_idx, None);
}

#[test]
fn add_task_at_uses_the_given_stack() {
    let mut sched = Scheduler::new();
    let stack = vec![0xabu8; 65536];
    assert!(sched.add_task_at("t", 7, 0x10, 0x20, 0x0102_0304_0506_0708, stack, 0x10_0000));
    let t = &sched.tasks[0];
    assert_eq!(t.context.rsp, 0x10_0000 + 65536 - 8);
    assert_eq!(t.context.rip, 0x10);
    assert_eq!(t.context.rdi, 0x20);
    assert_eq!(&t.stack[65528..], &[8, 7, 6, 5, 4, 3, 2, 1]);
    assert!(t.stack[..65528].iter().all(|b| *b == 0xab));
}

#[test]
fn add_task_at_rejects_unusable_stacks() {
    let mut sched = Scheduler::new();
    assert!(!sched.add_task_at("short", 7, 0x10, 0, EXIT_STUB, vec![0u8; 4096], 0x1000));
    assert!(sched.tasks.is_empty());
    assert!(!sched.add_task_at("high", 7, 0x10, 0, EXIT_STUB, vec![0u8; 65536], u64::MAX - 65535));
    assert!(sched.tasks.is_empty());
    assert!(sched.add_task_at("edge", 7, 0x10, 0, EXIT_STUB, vec![0u8; 65536], u64::MAX - 65536));
    assert_eq!(sched.tasks.len(), 1);
    assert_eq!(sched.tasks[0].context.rsp, u64::MAX - 8);
}

#[test]
fn execute_frame_changes_nothing() {
    let mut sched = two_tasks();
    sched.next_task_idx = 1;
    sched.execute_frame();
    assert_eq!(sched.tasks.len(), 2);
    assert_eq!(sched.next_task_idx, 1);
    assert_eq!(sched.current_task_idx, None);
    assert_eq!(sched.tasks[0].status, TaskStatus::Waiting);
}

#[test]
fn charge_within_budget_is_success_and_forgives() {
    let mut sched = two_tasks();
    let t: &mut Task = &mut sched.tasks[0];
    t.violation_count = 2;
    t.charge(1000);
    assert_eq!(t.status, TaskStatus::Success);
    assert_eq!(t.violation_count, 1);
    assert_eq!(t.last_cost, 1000);
    assert_eq!(t.penalty_cooldown, 0);
    t.charge(0);
    t.charge(0);
    assert_eq!(t.violation_count, 0);
    assert_eq!(t.status, TaskStatus::Success);
}

#[test]
fn charge_over_budget_counts_strikes_and_benches() {
    let mut sched = two_tasks();
    let t: &mut Task = &mut sched.tasks[0];
    t.charge(1001);
    assert_eq!((t.status, t.violation_count, t.penalty_cooldown), (TaskStatus::Failure, 1, 0));
    t.charge(5000);
    assert_eq!((t.status, t.violation_count, t.penalty_cooldown), (TaskStatus::Failure, 2, 0));
    t.charge(u64::MAX);
    assert_eq!((t.status, t.violation_count, t.penalty_cooldown), (TaskStatus::Failure, 0, 5));
    assert_eq!(t.last_cost, u64::MAX);
}

#[test]
fn success_between_overruns_delays_the_penalty() {
    let mut sched = two_tasks();
    let t: &mut Task = &mut sched.tasks[1];
    t.charge(2000);
    t.charge(2000);
    t.charge(10);
    t.charge(2000);
    assert_eq!((t.violation_count, t.penalty_cooldown), (2, 0));
    t.charge(2000);
    assert_eq!((t.violation_count, t.penalty_cooldown), (0, 5));
}

#[test]
fn select_next_on_empty_list_does_nothing() {
    let mut sched = Scheduler::new();
    sched.next_task_idx = 9;
    assert_eq!(sched.select_next(), None);
    assert_eq!(sched.next_task_idx, 9);
    assert_eq!(sched.current_task_idx, None);
}

#[test]
fn select_next_skips_benched_tasks_and_wraps() {
    let mut sched = Scheduler::new();
    for name in ["a", "b", "c", "d"] {
        assert!(sched.add_task(name, 100, 1, 0, EXIT_STUB));
    }
    sched.tasks[2].penalty_cooldown = 3;
    sched.tasks[3].penalty_cooldown = 1;
    sched.tasks[0].penalty_cooldown = 2;
    sched.next_task_idx = 6; // starts at place 2
    assert_eq!(sched.select_next(), Some(1));
    assert_eq!(sched.current_task_idx, Some(1));
    assert_eq!(sched.next_task_idx, 2);
    let cooldowns: Vec<u32> = sched.tasks.iter().map(|t| t.penalty_cooldown).collect();
    assert_eq!(cooldowns, vec![1, 0, 2, 0]);
    let statuses: Vec<TaskStatus> = sched.tasks.iter().map(|t| t.status).collect();
    assert_eq!(
        statuses,
        vec![TaskStatus::Penalty, TaskStatus::Waiting, TaskStatus::Penalty, TaskStatus::Penalty]
    );
}

#[test]
fn select_next_with_everyone_benched_marks_all() {
    let mut sched = two_tasks();
    sched.tasks[0].penalty_cooldown = 5;
    sched.tasks[1].penalty_cooldown = 1;
    sched.next_task_idx = 1;
    assert_eq!(sched.select_next(), None);
    assert_eq!(sched.current_task_idx, None);
    assert_eq!(sched.next_task_idx, 1);
    assert_eq!(sched.tasks[0].penalty_cooldown, 4);
    assert_eq!(sched.tasks[1].penalty_cooldown, 0);
    assert_eq!(sched.tasks[0].status, TaskStatus::Penalty);
    assert_eq!(sched.tasks[1].status, TaskStatus::Penalty);
    assert_eq!(sched.select_next(), Some(1));
    assert_eq!(sched.next_task_idx, 0);
}

#[test]
fn complete_activation_charges_the_dispatched_task() {
    let mut sched = two_tasks();
    sched.current_task_idx = Some(1);
    sched.complete_activation(1, 1500);
    assert_eq!(sched.current_task_idx, None);
    assert_eq!(sched.tasks[1].last_cost, 1500);
    assert_eq!(sched.tasks[1].status, TaskStatus::Failure);
    assert_eq!(sched.tasks[0].status, TaskStatus::Waiting);
    sched.complete_activation(2, 1);
    assert_eq!(sched.tasks[0].last_cost, 0);
    assert_eq!(sched.tasks[1].last_cost, 1500);
}

#[test]
fn context_switch_saves_with_interrupts_on_and_loads() {
    let mut cpu = frame(10);
    cpu.rflags = 0x2;
    let before = cpu;
    let mut save = TaskContext::default();
    let load = frame(500);
    context_switch(&mut cpu, &mut save, &load);
    assert_eq!(cpu, load);
    assert_eq!(save.rflags, 0x202);
    let mut expect = before;
    expect.rflags = 0x202;
    assert_eq!(save, expect);
}

#[test]
fn dispatch_loads_the_task_and_parks_the_loop() {
    let mut sched = two_tasks();
    let mut cpu = frame(1);
    let loop_regs = cpu;
    let task_regs = sched.tasks[0].context;
    assert_eq!(dispatch(&mut sched, &mut cpu), Some(0));
    assert_eq!(cpu, task_regs);
    assert_eq!(sched.scheduler_context, loop_regs.with_interrupts_enabled());
    assert_eq!(sched.current_task_idx, Some(0));
    assert_eq!(sched.next_task_idx, 1);
}

#[test]
fn timer_tick_without_running_task_is_a_no_op() {
    let mut sched = two_tasks();
    let mut f = frame(3);
    assert_eq!(handle_timer_preemption(&mut sched, &mut f), 32);
    assert_eq!(f, frame(3));
    assert_eq!(sched.tasks[0].context.rip, 0x1000);
    assert_eq!(sched.current_task_idx, None);
}

#[test]
fn timer_tick_saves_task_and_resumes_scheduler() {
    let mut sched = two_tasks();
    sched.current_task_idx = Some(1);
    sched.scheduler_context = frame(900);
    let mut f = frame(3);
    assert_eq!(timer_interrupt_handler(&mut sched, &mut f), InterruptIndex::Timer.as_u8());
    assert_eq!(sched.tasks[1].context, frame(3));
    assert_eq!(sched.tasks[0].context.rip, 0x1000);
    let mut expect = frame(900);
    expect.rflags |= 0x200;
    assert_eq!(f, expect);
    assert_eq!(sched.current_task_idx, Some(1));
}

#[test]
fn syscall_print_reports_pointer_and_length() {
    let mut sched = two_tasks();
    sched.current_task_idx = Some(0);
    let mut f = frame(0);
    f.rax = SYS_PRINT;
    f.rdi = 0x4000;
    f.rsi = 12;
    let before = f;
    assert_eq!(
        handle_syscall_rust(&mut sched, &mut f),
        SyscallAction::Print { ptr: 0x4000, len: 12 }
    );
    assert_eq!(f, before);
    assert_eq!(sched.tasks.len(), 2);
    assert_eq!(sched.current_task_idx, Some(0));
    assert_eq!(sched.tasks[0].context.rip, 0x1000);
}

#[test]
fn syscall_exit_removes_the_running_task() {
    let mut sched = two_tasks();
    sched.current_task_idx = Some(0);
    sched.scheduler_context = frame(900);
    let mut f = frame(0);
    f.rax = SYS_EXIT;
    assert_eq!(syscall_handler(&mut sched, &mut f), SyscallAction::Switch);
    assert_eq!(sched.tasks.len(), 1);
    assert_eq!(sched.tasks[0].name, "B");
    assert_eq!(sched.current_task_idx, None);
    assert_eq!(f, frame(900).with_interrupts_enabled());
}

#[test]
fn syscall_yield_saves_the_frame() {
    let mut sched = two_tasks();
    sched.current_task_idx = Some(1);
    sched.scheduler_context = frame(900);
    let mut f = frame(0);
    f.rax = SYS_YIELD;
    let at_trap = f;
    assert_eq!(handle_syscall_rust(&mut sched, &mut f), SyscallAction::Switch);
    assert_eq!(sched.tasks[1].context, at_trap);
    assert_eq!(sched.tasks.len(), 2);
    assert_eq!(sched.current_task_idx, Some(1));
    assert_eq!(f, frame(900).with_interrupts_enabled());
}

#[test]
fn unknown_and_idle_requests_resume_the_caller() {
    let mut sched = two_tasks();
    sched.current_task_idx = Some(0);
    for code in [0u64, 4, 99, u64::MAX] {
        let mut f = frame(0);
        f.rax = code;
        let before = f;
        assert_eq!(handle_syscall_rust(&mut sched, &mut f), SyscallAction::Resume);
        assert_eq!(f, before);
    }
    sched.current_task_idx = None;
    for code in [SYS_EXIT, SYS_YIELD] {
        let mut f = frame(0);
        f.rax = code;
        let before = f;
        assert_eq!(handle_syscall_rust(&mut sched, &mut f), SyscallAction::Resume);
        assert_eq!(f, before);
        assert_eq!(sched.tasks.len(), 2);
    }
}

#[test]
fn interrupt_vectors() {
    assert_eq!(InterruptIndex::Timer.as_u8(), 32);
    assert_eq!(InterruptIndex::Keyboard.as_u8(), 33);
    assert_eq!(InterruptIndex::Mouse.as_u8(), 44);
    assert_eq!(InterruptIndex::Mouse.as_usize(), 44);
    assert_eq!(chronos::interrupts::SYSCALL_IRQ, 0x80);
}

#[test]
fn within_budget_turns_always_succeed() {
    let mut sched = two_tasks();
    let mut cpu = frame(1);
    for round in 0..20u64 {
        assert_eq!(step(&mut sched, &mut cpu, tick(round), 1000), Some((round % 2) as usize));
        for t in &sched.tasks {
            assert_eq!(t.violation_count, 0);
            assert_eq!(t.penalty_cooldown, 0);
        }
        assert_eq!(sched.tasks[(round % 2) as usize].status, TaskStatus::Success);
    }
}

#[test]
fn three_overruns_bench_for_exactly_five_turns() {
    let mut sched = Scheduler::new();
    assert!(sched.add_task("hog", 100, 1, 0, EXIT_STUB));
    let mut cpu = frame(1);
    for n in 1..=3u32 {
        assert_eq!(step(&mut sched, &mut cpu, tick(0), 101), Some(0));
        assert_eq!(sched.tasks[0].status, TaskStatus::Failure);
        assert_eq!(sched.tasks[0].violation_count, if n == 3 { 0 } else { n });
    }
    assert_eq!(sched.tasks[0].penalty_cooldown, 5);
    for left in (0..5u32).rev() {
        assert_eq!(step(&mut sched, &mut cpu, tick(0), 1), None);
        assert_eq!(sched.tasks[0].penalty_cooldown, left);
        assert_eq!(sched.tasks[0].status, TaskStatus::Penalty);
        assert_eq!(sched.tasks[0].last_cost, 101);
    }
    assert_eq!(step(&mut sched, &mut cpu, tick(0), 1), Some(0));
    assert_eq!(sched.tasks[0].status, TaskStatus::Success);
    assert_eq!(sched.tasks[0].last_cost, 1);
}

#[test]
fn round_robin_dispatches_each_task_once_per_round() {
    let mut sched = Scheduler::new();
    for name in ["a", "b", "c"] {
        assert!(sched.add_task(name, 100, 1, 0, EXIT_STUB));
    }
    sched.next_task_idx = 2;
    let mut cpu = frame(1);
    let mut order = Vec::new();
    for i in 0..9u64 {
        let trap = if i % 2 == 0 { tick(i) } else { yielding(i) };
        order.push(step(&mut sched, &mut cpu, trap, 50).unwrap());
    }
    assert_eq!(order, vec![2, 0, 1, 2, 0, 1, 2, 0, 1]);
    assert_eq!(sched.next_task_idx, 2);
}

#[test]
fn exit_removes_one_task_and_later_steps_run_the_rest() {
    let mut sched = Scheduler::new();
    for name in ["a", "b", "c"] {
        assert!(sched.add_task(name, 100, 1, 0, EXIT_STUB));
    }
    let mut cpu = frame(1);
    assert_eq!(step(&mut sched, &mut cpu, tick(0), 10), Some(0));
    assert_eq!(step(&mut sched, &mut cpu, exiting(0), 10), Some(1));
    let names: Vec<&str> = sched.tasks.iter().map(|t| t.name.as_str()).collect();
    assert_eq!(names, vec!["a", "c"]);
    assert_eq!(sched.current_task_idx, None);
    // The turn of the task that left is charged to nobody.
    assert_eq!(sched.tasks[0].last_cost, 10);
    assert_eq!(sched.tasks[0].status, TaskStatus::Success);
    assert_eq!(sched.tasks[1].last_cost, 0);
    assert_eq!(sched.tasks[1].status, TaskStatus::Waiting);
    assert_eq!(sched.tasks[1].violation_count, 0);
    assert_eq!(sched.next_task_idx, 2);
    assert_eq!(step(&mut sched, &mut cpu, tick(7), 10), Some(0));
    assert_eq!(step(&mut sched, &mut cpu, tick(8), 10), Some(1));
    assert_eq!(sched.tasks[1].context, frame(8));
    assert_eq!(step(&mut sched, &mut cpu, exiting(0), 10), Some(0));
    assert_eq!(step(&mut sched, &mut cpu, exiting(0), 10), Some(0));
    assert!(sched.tasks.is_empty());
    assert_eq!(step(&mut sched, &mut cpu, tick(0), 10), None);
}

#[test]
fn exit_after_an_overrun_leaves_the_other_tasks_as_they_were() {
    let mut sched = Scheduler::new();
    for name in ["a", "b", "c"] {
        assert!(sched.add_task(name, 100, 1, 0, EXIT_STUB));
    }
    let before: Vec<(TaskStatus, u64, u32, u32, TaskContext)> = sched
        .tasks
        .iter()
        .map(|t| (t.status, t.last_cost, t.violation_count, t.penalty_cooldown, t.context))
        .collect();
    let mut cpu = frame(1);
    assert_eq!(step(&mut sched, &mut cpu, exiting(0), 5000), Some(0));
    let names: Vec<&str> = sched.tasks.iter().map(|t| t.name.as_str()).collect();
    assert_eq!(names, vec!["b", "c"]);
    assert_eq!(sched.current_task_idx, None);
    for (t, was) in sched.tasks.iter().zip(before[1..].iter()) {
        assert_eq!((t.status, t.last_cost, t.violation_count, t.penalty_cooldown, t.context), *was);
    }
    let next = step(&mut sched, &mut cpu, tick(3), 10).unwrap();
    assert!(next < 2);
    assert_eq!(sched.tasks[next].last_cost, 10);
    assert_eq!(sched.tasks[next].violation_count, 0);
}

#[test]
fn complete_activation_charges_only_the_running_task() {
    let mut sched = two_tasks();
    sched.current_task_idx = Some(1);
    sched.complete_activation(0, 5000);
    assert_eq!(sched.current_task_idx, None);
    assert_eq!(sched.tasks[0].last_cost, 0);
    assert_eq!(sched.tasks[1].last_cost, 0);
    sched.complete_activation(0, 5000);
    assert_eq!(sched.tasks[0].last_cost, 0);
    sched.current_task_idx = Some(0);
    sched.complete_activation(0, 700);
    assert_eq!(sched.tasks[0].last_cost, 700);
    assert_eq!(sched.tasks[0].status, TaskStatus::Success);
    assert_eq!(sched.tasks[1].status, TaskStatus::Waiting);
    sched.current_task_idx = Some(9);
    sched.complete_activation(9, 1);
    assert_eq!(sched.current_task_idx, None);
}

#[test]
fn exit_of_the_last_place_charges_nobody() {
    let mut sched = two_tasks();
    sched.next_task_idx = 1;
    let mut cpu = frame(1);
    assert_eq!(step(&mut sched, &mut cpu, exiting(0), 5000), Some(1));
    assert_eq!(sched.tasks.len(), 1);
    assert_eq!(sched.tasks[0].last_cost, 0);
    assert_eq!(sched.tasks[0].status, TaskStatus::Waiting);
}

#[test]
fn yield_is_booked_like_preemption() {
    let mut by_yield = two_tasks();
    let mut by_tick = two_tasks();
    let mut cpu_y = frame(1);
    let mut cpu_t = frame(1);
    for (seed, cost) in [(10u64, 300u64), (20, 1700), (30, 40), (40, 45)] {
        let y = yielding(seed);
        let t = Trap { source: TrapSource::Timer, frame: y.frame };
        assert_eq!(step(&mut by_yield, &mut cpu_y, y, cost), step(&mut by_tick, &mut cpu_t, t, cost));
    }
    assert_eq!(cpu_y, cpu_t);
    for (a, b) in by_yield.tasks.iter().zip(by_tick.tasks.iter()) {
        assert_eq!(a.last_cost, b.last_cost);
        assert_eq!(a.status, b.status);
        assert_eq!(a.violation_count, b.violation_count);
        assert_eq!(a.penalty_cooldown, b.penalty_cooldown);
        assert_eq!(a.context, b.context);
    }
    assert_eq!(by_yield.tasks[0].last_cost, 40);
    assert_eq!(by_yield.tasks[1].last_cost, 45);
    assert_eq!(by_yield.next_task_idx, by_tick.next_task_idx);
}

#[test]
fn registers_survive_a_yield() {
    let mut sched = Scheduler::new();
    assert!(sched.add_task("solo", 100, 1, 0, EXIT_STUB));
    let mut cpu = frame(1);
    let mut known = TaskContext {
        r15: 0x1515_1515_1515_1515,
        r14: 0x1414_1414_1414_1414,
        r13: 0x1313_1313_1313_1313,
        r12: 0x1212_1212_1212_1212,
        r11: 0x1111_1111_1111_1111,
        r10: 0x1010_1010_1010_1010,
        r9: 0x0909_0909_0909_0909,
        r8: 0x0808_0808_0808_0808,
        rbp: 0xb0b0_b0b0_b0b0_b0b0,
        rdi: 0xd1d1_d1d1_d1d1_d1d1,
        rsi: 0x5151_5151_5151_5151,
        rdx: 0xd0d0_d0d0_d0d0_d0d0,
        rcx: 0xc0c0_c0c0_c0c0_c0c0,
        rbx: 0xbbbb_bbbb_bbbb_bbbb,
        rax: 0,
        rip: 0x40_1000,
        cs: 0x8,
        rflags: 0x246,
        rsp: 0x7fff_0000,
        ss: 0x10,
    };
    known.rax = SYS_YIELD;
    let trap = Trap { source: TrapSource::Syscall, frame: known };
    assert_eq!(step(&mut sched, &mut cpu, trap, 10), Some(0));
    assert_eq!(sched.tasks[0].context, known);
    let mut resumed = frame(77);
    assert_eq!(dispatch(&mut sched, &mut resumed), Some(0));
    assert_eq!(resumed, known);
}

#[test]
fn step_returns_the_loop_registers_with_interrupts_on() {
    let mut sched = two_tasks();
    let mut cpu = frame(1);
    cpu.rflags = 0x2;
    let before = cpu;
    assert_eq!(step(&mut sched, &mut cpu, tick(5), 10), Some(0));
    assert_eq!(cpu, before.with_interrupts_enabled());
    assert_eq!(sched.scheduler_context, before.with_interrupts_enabled());
    let mut idle = Scheduler::new();
    let mut cpu2 = before;
    assert_eq!(step(&mut idle, &mut cpu2, tick(5), 10), None);
    assert_eq!(cpu2, before);
}

#[test]
fn two_tasks_one_hog_scenario() {
    let mut sched = two_tasks();
    let mut cpu = frame(1);
    for round in 1..=3u32 {
        assert_eq!(step(&mut sched, &mut cpu, tick(1), 500), Some(0));
        assert_eq!(sched.tasks[0].status, TaskStatus::Success);
        assert_eq!(sched.tasks[0].violation_count, 0);
        assert_eq!(step(&mut sched, &mut cpu, tick(2), 1500), Some(1));
        assert_eq!(sched.tasks[1].status, TaskStatus::Failure);
        if round < 3 {
            assert_eq!(sched.tasks[1].violation_count, round);
            assert_eq!(sched.tasks[1].penalty_cooldown, 0);
        }
    }
    assert_eq!(sched.tasks[1].violation_count, 0);
    assert_eq!(sched.tasks[1].penalty_cooldown, 5);
    // Round four: A runs, B is passed over by the scan that follows.
    assert_eq!(step(&mut sched, &mut cpu, tick(1), 500), Some(0));
    assert_eq!(sched.tasks[0].status, TaskStatus::Success);
    assert_eq!(step(&mut sched, &mut cpu, tick(1), 500), Some(0));
    assert_eq!(sched.tasks[1].status, TaskStatus::Penalty);
    assert_eq!(sched.tasks[1].penalty_cooldown, 4);
    assert_eq!(sched.tasks[0].status, TaskStatus::Success);
    assert_eq!(sched.tasks[0].violation_count, 0);
}
