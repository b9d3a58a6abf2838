//! Time-budgeted round-robin scheduler.
//!
//! The scheduler owns an ordered task list and a rotation cursor. One call of
//! [`step`] picks the next task that is not serving a penalty, hands it the
//! processor, and, once the task has given control back, charges the elapsed
//! cycles against the task's budget. Three overruns in a row bench the task
//! for five turns.
//!
//! The processor is modelled by a [`TaskContext`]: the register file as the
//! running code sees it. Transfers of control are functions on such values.

use vstd::prelude::*;
use crate::interrupts::{syscall_handler, timer_interrupt_handler, Trap, TrapSource};

verus! {

/// Bytes of stack every task owns.
pub const STACK_SIZE: usize = 65536;

/// Code-segment selector of kernel tasks.
pub const KERNEL_CODE_SELECTOR: u64 = 0x8;

/// Stack-segment selector of kernel tasks.
pub const KERNEL_DATA_SELECTOR: u64 = 0x10;

/// The interrupt-enable bit of the flags register.
pub const INTERRUPT_FLAG: u64 = 0x200;

/// Flags a fresh task starts with: interrupts enabled, reserved bit 1 set.
pub const INITIAL_RFLAGS: u64 = 0x202;

/// Overruns in a row that send a task to the penalty box.
pub const STRIKE_LIMIT: u32 = 3;

/// Turns a benched task is passed over.
pub const PENALTY_TURNS: u32 = 5;

/// Everything needed to resume a suspended activation, in the order the
/// trap entry code lays the registers out in memory.
#[derive(Debug, Clone, Copy, PartialEq, Eq, Structural)]
pub struct TaskContext {
    pub r15: u64,
    pub r14: u64,
    pub r13: u64,
    pub r12: u64,
    pub r11: u64,
    pub r10: u64,
    pub r9: u64,
    pub r8: u64,
    pub rbp: u64,
    pub rdi: u64,
    pub rsi: u64,
    pub rdx: u64,
    pub rcx: u64,
    pub rbx: u64,
    pub rax: u64,
    pub rip: u64,
    pub cs: u64,
    pub rflags: u64,
    pub rsp: u64,
    pub ss: u64,
}

impl TaskContext {
    /// The all-zero snapshot.
    pub open spec fn zeroed() -> TaskContext {
        TaskContext {
            r15: 0,
            r14: 0,
            r13: 0,
            r12: 0,
            r11: 0,
            r10: 0,
            r9: 0,
            r8: 0,
            rbp: 0,
            rdi: 0,
            rsi: 0,
            rdx: 0,
            rcx: 0,
            rbx: 0,
            rax: 0,
            rip: 0,
            cs: 0,
            rflags: 0,
            rsp: 0,
            ss: 0,
        }
    }

    /// The same snapshot with the interrupt-enable bit forced on.
    pub open spec fn interrupts_enabled(self) -> TaskContext {
        TaskContext { rflags: self.rflags | INTERRUPT_FLAG, ..self }
    }

    /// The snapshot a new task starts from.
    pub open spec fn initial(entry: u64, arg: u64, stack_pointer: u64) -> TaskContext {
        TaskContext {
            rip: entry,
            rdi: arg,
            rsp: stack_pointer,
            cs: KERNEL_CODE_SELECTOR,
            ss: KERNEL_DATA_SELECTOR,
            rflags: INITIAL_RFLAGS,
            ..TaskContext::zeroed()
        }
    }

    /// Forces the interrupt-enable bit on and leaves every other bit and
    /// register as it is.
    pub fn with_interrupts_enabled(self) -> (r: TaskContext)
        ensures
            r == self.interrupts_enabled(),
    {
        let mut r = self;
        r.rflags = r.rflags | INTERRUPT_FLAG;
        r
    }
}

impl Default for TaskContext {
    fn default() -> (r: TaskContext)
        ensures
            r == TaskContext::zeroed(),
    {
        TaskContext {
            r15: 0,
            r14: 0,
            r13: 0,
            r12: 0,
            r11: 0,
            r10: 0,
            r9: 0,
            r8: 0,
            rbp: 0,
            rdi: 0,
            rsi: 0,
            rdx: 0,
            rcx: 0,
            rbx: 0,
            rax: 0,
            rip: 0,
            cs: 0,
            rflags: 0,
            rsp: 0,
            ss: 0,
        }
    }
}

/// Outcome of a task's most recent turn.
#[derive(Debug, Clone, Copy, PartialEq, Eq, Structural)]
pub enum TaskStatus {
    Waiting,
    Success,
    Failure,
    Penalty,
}

/// An execution unit with its budget, saved registers and record.
pub struct Task {
    pub name: String,
    pub budget: u64,
    /// Address of the entry function.
    pub job: u64,
    pub last_cost: u64,
    pub status: TaskStatus,
    pub violation_count: u32,
    pub penalty_cooldown: u32,
    pub context: TaskContext,
    pub stack: Vec<u8>,
}

/// Byte `i` of `x` in little-endian order.
pub open spec fn le_byte(x: u64, i: int) -> u8 {
    ((x >> ((8 * i) as u64)) & 0xff) as u8
}

/// `stack` holds `word` in its topmost eight bytes, least significant first.
pub open spec fn top_word_is(stack: Seq<u8>, word: u64) -> bool {
    &&& stack.len() >= 8
    &&& forall|i: int| 0 <= i < 8 ==> #[trigger] stack[stack.len() - 8 + i] == le_byte(word, i)
}

impl Task {
    /// The task after a turn that took `elapsed` cycles: within budget is a
    /// success and forgives one earlier overrun; over budget is a failure
    /// and a strike, and the third strike starts a penalty and clears the
    /// strikes.
    pub open spec fn charged(self, elapsed: u64) -> Task {
        if elapsed <= self.budget {
            Task {
                last_cost: elapsed,
                status: TaskStatus::Success,
                violation_count: if self.violation_count > 0 {
                    (self.violation_count - 1) as u32
                } else {
                    0
                },
                ..self
            }
        } else if self.violation_count >= STRIKE_LIMIT - 1 {
            Task {
                last_cost: elapsed,
                status: TaskStatus::Failure,
                violation_count: 0,
                penalty_cooldown: PENALTY_TURNS,
                ..self
            }
        } else {
            Task {
                last_cost: elapsed,
                status: TaskStatus::Failure,
                violation_count: (self.violation_count + 1) as u32,
                ..self
            }
        }
    }

    /// True when the task may be dispatched.
    pub open spec fn eligible(self) -> bool {
        self.penalty_cooldown == 0
    }

    /// The task after the scan has passed over it once.
    pub open spec fn passed_over(self) -> Task {
        Task {
            penalty_cooldown: (self.penalty_cooldown - 1) as u32,
            status: TaskStatus::Penalty,
            ..self
        }
    }

    /// The task with `frame` as its saved registers.
    pub open spec fn suspended_at(self, frame: TaskContext) -> Task {
        Task { context: frame, ..self }
    }

    /// Applies the budget policy to a turn of `elapsed` cycles.
    pub fn charge(&mut self, elapsed: u64)
        ensures
            *final(self) == old(self).charged(elapsed),
    {
        self.last_cost = elapsed;
        if elapsed <= self.budget {
            self.status = TaskStatus::Success;
            if self.violation_count > 0 {
                self.violation_count -= 1;
            }
        } else {
            self.status = TaskStatus::Failure;
            if self.violation_count >= STRIKE_LIMIT - 1 {
                self.penalty_cooldown = PENALTY_TURNS;
                self.violation_count = 0;
            } else {
                self.violation_count += 1;
            }
        }
    }
}

/// The scheduler as a mathematical value.
pub struct SchedulerState {
    /// The tasks in round-robin order.
    pub tasks: Seq<Task>,
    /// Index of the task that holds the processor, if one does.
    pub current: Option<usize>,
    /// Where the next scan starts, before reduction modulo the task count.
    pub cursor: usize,
    /// Where control resumes when a turn ends.
    pub context: TaskContext,
}

/// Owner of the task list, the rotation cursor and the resumption point.
pub struct Scheduler {
    pub tasks: Vec<Task>,
    pub current_task_idx: Option<usize>,
    /// Rotation cursor: the scan of the next step starts here.
    pub next_task_idx: usize,
    /// Registers of the dispatch loop, saved while a task runs.
    pub scheduler_context: TaskContext,
}

impl View for Scheduler {
    type V = SchedulerState;

    open spec fn view(&self) -> SchedulerState {
        SchedulerState {
            tasks: self.tasks@,
            current: self.current_task_idx,
            cursor: self.next_task_idx,
            context: self.scheduler_context,
        }
    }
}

/// Position `offset` steps after `start` on a ring of `n` places.
pub open spec fn ring_index(start: int, offset: int, n: int) -> int {
    if start + offset < n {
        start + offset
    } else {
        start + offset - n
    }
}

/// How many steps after `start` place `j` comes on a ring of `n` places.
pub open spec fn ring_offset(start: int, j: int, n: int) -> int {
    if j >= start {
        j - start
    } else {
        j - start + n
    }
}

/// Number of tasks a scan passes over: it looks at the places after
/// `start` in ring order, beginning `seen` steps in, and stops at the first
/// eligible task or after a full round.
pub open spec fn passed_from(tasks: Seq<Task>, start: int, seen: int) -> int
    decreases tasks.len() - seen,
{
    if seen >= tasks.len() {
        tasks.len() as int
    } else if tasks[ring_index(start, seen, tasks.len() as int)].eligible() {
        seen
    } else {
        passed_from(tasks, start, seen + 1)
    }
}

impl SchedulerState {
    /// While a task holds the processor it is one of the listed tasks.
    pub open spec fn wf(self) -> bool {
        &&& self.countable()
        &&& self.current matches Some(idx) ==> idx < self.tasks.len()
    }

    /// The places of the list are machine integers, as they are in every
    /// list held in memory.
    pub open spec fn countable(self) -> bool {
        self.tasks.len() <= usize::MAX
    }

    /// Place where the next scan starts.
    pub open spec fn scan_start(self) -> int {
        self.cursor as int % self.tasks.len() as int
    }

    /// Number of benched tasks the next scan passes over.
    pub open spec fn passed(self) -> int {
        passed_from(self.tasks, self.scan_start(), 0)
    }

    /// The task the next scan settles on, if it finds one.
    pub open spec fn choice(self) -> Option<usize> {
        if self.tasks.len() == 0 || self.passed() >= self.tasks.len() {
            None
        } else {
            Some(ring_index(self.scan_start(), self.passed(), self.tasks.len() as int) as usize)
        }
    }

    /// The task list after the next scan: every task passed over has one
    /// turn less to serve and shows `Penalty`; the others are untouched.
    pub open spec fn scanned_tasks(self) -> Seq<Task> {
        Seq::new(
            self.tasks.len(),
            |j: int|
                if ring_offset(self.scan_start(), j, self.tasks.len() as int) < self.passed() {
                    self.tasks[j].passed_over()
                } else {
                    self.tasks[j]
                },
        )
    }

    /// The scheduler after the scan: the chosen task is current and the
    /// cursor stands behind it; with no choice only the scan's marks remain.
    pub open spec fn selected(self) -> SchedulerState {
        if self.tasks.len() == 0 {
            self
        } else {
            match self.choice() {
                Some(idx) => SchedulerState {
                    tasks: self.scanned_tasks(),
                    current: Some(idx),
                    cursor: ((idx + 1) % self.tasks.len() as int) as usize,
                    ..self
                },
                None => SchedulerState { tasks: self.scanned_tasks(), ..self },
            }
        }
    }

    /// The task dispatched from place `idx` still holds the processor:
    /// its turn was ended by a tick or a yield, not by its exit.
    pub open spec fn still_runs(self, idx: usize) -> bool {
        self.current == Some(idx) && idx < self.tasks.len()
    }

    /// The scheduler after the turn of the task dispatched from place
    /// `idx` was measured at `elapsed` cycles: nothing is current, and the
    /// task has been charged. A task that left during its turn is charged
    /// nowhere, and no other task ever is.
    pub open spec fn finished(self, idx: usize, elapsed: u64) -> SchedulerState {
        SchedulerState {
            current: None,
            tasks: if self.still_runs(idx) {
                self.tasks.update(idx as int, self.tasks[idx as int].charged(elapsed))
            } else {
                self.tasks
            },
            ..self
        }
    }

    /// The scheduler with `task` appended.
    pub open spec fn spawned(self, task: Task) -> SchedulerState {
        SchedulerState { tasks: self.tasks.push(task), ..self }
    }
}

proof fn lemma_ring_round_trip(start: int, offset: int, n: int)
    requires
        0 <= start < n,
        0 <= offset < n,
    ensures
        0 <= ring_index(start, offset, n) < n,
        ring_offset(start, ring_index(start, offset, n), n) == offset,
{
}

/// The count of tasks passed over lies between the steps already taken and
/// a full round, every task passed over is benched, and the task the count
/// stops at is eligible.
pub proof fn lemma_passed_from(tasks: Seq<Task>, start: int, seen: int)
    requires
        0 <= start < tasks.len(),
        0 <= seen <= tasks.len(),
    ensures
        seen <= passed_from(tasks, start, seen) <= tasks.len(),
        forall|k: int|
            seen <= k < passed_from(tasks, start, seen) ==> !(#[trigger] tasks[ring_index(
                start,
                k,
                tasks.len() as int,
            )]).eligible(),
        passed_from(tasks, start, seen) < tasks.len() ==> tasks[ring_index(
            start,
            passed_from(tasks, start, seen),
            tasks.len() as int,
        )].eligible(),
    decreases tasks.len() - seen,
{
    if seen < tasks.len() && !tasks[ring_index(start, seen, tasks.len() as int)].eligible() {
        lemma_passed_from(tasks, start, seen + 1);
    }
}

impl SchedulerState {
    /// What the scan settles on: a place in the list whose task is
    /// eligible, reached after passing over only benched tasks, and left
    /// untouched by the scan.
    pub proof fn lemma_choice(self)
        requires
            self.countable(),
        ensures
            self.tasks.len() > 0 ==> 0 <= self.scan_start() < self.tasks.len(),
            self.tasks.len() > 0 ==> 0 <= self.passed() <= self.tasks.len(),
            self.selected().tasks.len() == self.tasks.len(),
            self.choice() matches Some(idx) ==> {
                &&& idx < self.tasks.len()
                &&& self.tasks[idx as int].eligible()
                &&& ring_offset(self.scan_start(), idx as int, self.tasks.len() as int)
                    == self.passed()
                &&& self.selected().tasks[idx as int] == self.tasks[idx as int]
                &&& self.selected().current == Some(idx)
            },
            self.choice() is None ==> self.selected().current == self.current,
    {
        if self.tasks.len() > 0 {
            let n = self.tasks.len() as int;
            vstd::arithmetic::div_mod::lemma_mod_bound(self.cursor as int, n);
            lemma_passed_from(self.tasks, self.scan_start(), 0);
            if self.passed() < n {
                lemma_ring_round_trip(self.scan_start(), self.passed(), n);
            }
        }
    }
}

proof fn lemma_ring_successor(i: int, n: int)
    requires
        0 <= i < n,
    ensures
        (i + 1) % n == ring_index(i, 1, n),
{
    if i + 1 < n {
        vstd::arithmetic::div_mod::lemma_small_mod((i + 1) as nat, n as nat);
    } else {
        vstd::arithmetic::div_mod::lemma_mod_self_0(n);
    }
}

impl Scheduler {
    /// Well-formedness of the scheduler: see [`SchedulerState::wf`].
    pub open spec fn wf(&self) -> bool {
        self@.wf()
    }

    /// A scheduler with no tasks, nothing running and a zeroed resumption
    /// point.
    pub fn new() -> (r: Scheduler)
        ensures
            r@.tasks.len() == 0,
            r@.current is None,
            r@.cursor == 0,
            r@.context == TaskContext::zeroed(),
            r.wf(),
    {
        Scheduler {
            tasks: Vec::new(),
            current_task_idx: None,
            next_task_idx: 0,
            scheduler_context: TaskContext::default(),
        }
    }

    /// Changes nothing: tasks are dispatched by [`step`], one per call,
    /// and not frame by frame.
    pub fn execute_frame(&mut self)
        ensures
            *final(self) == *old(self),
    {
    }

    /// First half of a step: scans from the cursor for a task that is not
    /// benched, marks every task it passes over, and makes the task it
    /// finds current. Returns that task's place, or `None` when the list is
    /// empty or every task is benched.
    pub fn select_next(&mut self) -> (r: Option<usize>)
        ensures
            final(self)@ == old(self)@.selected(),
            r == old(self)@.choice(),
            r matches Some(idx) ==> idx < old(self).tasks.len() && old(self).tasks[idx as int].eligible(),
            final(self).tasks.len() == old(self).tasks.len(),
            r is Some ==> final(self).wf(),
            r is None && old(self).wf() ==> final(self).wf(),
    {
        let n = self.tasks.len();
        if n == 0 {
            return None;
        }
        let start = self.next_task_idx % n;
        let mut i = start;
        let mut passed: usize = 0;
        let mut found: Option<usize> = None;
        while passed < n && found.is_none()
            invariant
                n == old(self).tasks.len(),
                n == self.tasks.len(),
                0 <= start < n,
                start == old(self)@.scan_start(),
                passed <= n,
                passed < n ==> i == ring_index(start as int, passed as int, n as int),
                self.current_task_idx == old(self).current_task_idx,
                self.next_task_idx == old(self).next_task_idx,
                self.scheduler_context == old(self).scheduler_context,
                passed_from(old(self).tasks@, start as int, 0) == passed_from(
                    old(self).tasks@,
                    start as int,
                    passed as int,
                ),
                found matches Some(idx) ==> passed < n && idx == i && old(self).tasks[idx as int].eligible(),
                forall|j: int|
                    0 <= j < n ==> #[trigger] self.tasks[j] == if ring_offset(
                        start as int,
                        j,
                        n as int,
                    ) < passed {
                        old(self).tasks[j].passed_over()
                    } else {
                        old(self).tasks[j]
                    },
            decreases n - passed + if found is None { 1int } else { 0int },
        {
            proof {
                lemma_ring_round_trip(start as int, passed as int, n as int);
            }
            if self.tasks[i].penalty_cooldown == 0 {
                found = Some(i);
            } else {
                self.tasks[i].penalty_cooldown -= 1;
                self.tasks[i].status = TaskStatus::Penalty;
                proof {
                    lemma_ring_successor(i as int, n as int);
                    if passed + 1 < n {
                        lemma_ring_round_trip(start as int, passed + 1, n as int);
                    }
                }
                i = (i + 1) % n;
                passed = passed + 1;
            }
        }
        proof {
            assert(self.tasks@ =~= old(self)@.scanned_tasks());
        }
        match found {
            Some(idx) => {
                self.current_task_idx = Some(idx);
                self.next_task_idx = (idx + 1) % n;
            },
            None => {},
        }
        found
    }

    /// Second half of a step: the turn of the task dispatched from place
    /// `idx` took `elapsed` cycles. Charges the task if it still holds the
    /// processor, and clears the current task. After an exit the task is
    /// gone and nobody is charged: the tasks that remain are left as they
    /// are.
    pub fn complete_activation(&mut self, idx: usize, elapsed: u64)
        ensures
            final(self)@ == old(self)@.finished(idx, elapsed),
            final(self).wf(),
    {
        let still_runs = match self.current_task_idx {
            Some(current) => current == idx && idx < self.tasks.len(),
            None => false,
        };
        self.current_task_idx = None;
        if still_runs {
            self.tasks[idx].charge(elapsed);
        }
        proof {
            assert(self.tasks@.len() == self.tasks.len());
            assert(self@.tasks =~= old(self)@.finished(idx, elapsed).tasks);
        }
    }
}

/// `task` is a task as [`Scheduler::add_task_at`] builds it: a clean
/// record, registers set to enter `job` with `arg` on a stack whose top
/// slot holds `exit_stub`, given that the stack's memory starts at address
/// `stack_base`.
pub open spec fn is_fresh_task(
    task: Task,
    name: Seq<char>,
    budget: u64,
    job: u64,
    arg: u64,
    exit_stub: u64,
    stack_base: u64,
) -> bool {
    &&& task.name@ == name
    &&& task.budget == budget
    &&& task.job == job
    &&& task.last_cost == 0
    &&& task.status == TaskStatus::Waiting
    &&& task.violation_count == 0
    &&& task.penalty_cooldown == 0
    &&& task.context == TaskContext::initial(job, arg, (stack_base + STACK_SIZE - 8) as u64)
    &&& task.stack@.len() == STACK_SIZE
    &&& top_word_is(task.stack@, exit_stub)
}

/// True when a stack of `len` bytes at address `stack_base` can carry a
/// task: it has the fixed size and its end is an address.
pub open spec fn stack_usable(len: nat, stack_base: u64) -> bool {
    len == STACK_SIZE && stack_base + STACK_SIZE <= u64::MAX
}

/// Address of the first byte of the vector's buffer (`Vec::as_ptr`).
/// Which address it is, the allocator decides. Believed of it: the
/// buffer is an allocation that holds the vector's bytes, and no
/// allocation wraps around the end of the address space, so that the
/// byte behind the vector's last still has an address.
#[verifier::external_body]
fn buffer_address(buffer: &Vec<u8>) -> (address: u64)
    ensures
        address + buffer@.len() <= usize::MAX,
{
    buffer.as_ptr() as u64
}

/// Writes `word` into the topmost eight bytes of `stack`, least
/// significant byte first.
fn write_top_word(stack: &mut Vec<u8>, word: u64)
    requires
        old(stack).len() >= 8,
    ensures
        final(stack).len() == old(stack).len(),
        top_word_is(final(stack)@, word),
        forall|i: int| 0 <= i < old(stack).len() - 8 ==> final(stack)[i] == old(stack)[i],
{
    let base = stack.len() - 8;
    let mut i: usize = 0;
    while i < 8
        invariant
            i <= 8,
            stack.len() == old(stack).len(),
            base == stack.len() - 8,
            forall|k: int| 0 <= k < i ==> #[trigger] stack[base + k] == le_byte(word, k),
            forall|k: int| 0 <= k < base ==> stack[k] == old(stack)[k],
        decreases 8 - i,
    {
        let shift: u64 = 8 * (i as u64);
        stack[base + i] = ((word >> shift) & 0xff) as u8;
        i = i + 1;
    }
}

impl Scheduler {
    /// Registers a task on the stack handed in, whose memory starts at
    /// address `stack_base`. The task enters `job` with `arg` in the first
    /// argument register, interrupts enabled, on kernel selectors; the top
    /// slot of its stack holds `exit_stub` as return address, so that
    /// returning from `job` ends the task. An unusable stack registers
    /// nothing.
    pub fn add_task_at(
        &mut self,
        name: &str,
        budget: u64,
        job: u64,
        arg: u64,
        exit_stub: u64,
        stack: Vec<u8>,
        stack_base: u64,
    ) -> (spawned: bool)
        ensures
            spawned == stack_usable(stack@.len(), stack_base),
            !spawned ==> *final(self) == *old(self),
            spawned ==> {
                &&& final(self)@ == old(self)@.spawned(final(self).tasks@.last())
                &&& is_fresh_task(
                    final(self).tasks@.last(),
                    name@,
                    budget,
                    job,
                    arg,
                    exit_stub,
                    stack_base,
                )
                &&& forall|i: int|
                    0 <= i < STACK_SIZE - 8 ==> final(self).tasks@.last().stack[i] == stack[i]
            },
            old(self).wf() ==> final(self).wf(),
    {
        if stack.len() != STACK_SIZE || stack_base > u64::MAX - (STACK_SIZE as u64) {
            return false;
        }
        let mut stack = stack;
        write_top_word(&mut stack, exit_stub);
        let mut context = TaskContext::default();
        context.rip = job;
        context.rdi = arg;
        context.rsp = stack_base + (STACK_SIZE as u64) - 8;
        context.cs = KERNEL_CODE_SELECTOR;
        context.ss = KERNEL_DATA_SELECTOR;
        context.rflags = INITIAL_RFLAGS;
        self.tasks.push(
            Task {
                name: name.to_owned(),
                budget,
                job,
                last_cost: 0,
                status: TaskStatus::Waiting,
                violation_count: 0,
                penalty_cooldown: 0,
                context,
                stack,
            },
        );
        proof {
            assert(self@.tasks =~= old(self)@.spawned(self.tasks@.last()).tasks);
            assert(self.tasks@.len() == self.tasks.len());
        }
        true
    }

    /// Spawns a task on a stack of its own, allocated here and zeroed but
    /// for the exit stub in its top slot. Where the allocator placed the
    /// stack decides the stack pointer; all else is fixed by the
    /// arguments. Every call that returns has spawned the task: the
    /// stack's end is an address wherever the allocator placed it.
    pub fn add_task(&mut self, name: &str, budget: u64, job: u64, arg: u64, exit_stub: u64) -> (spawned:
        bool)
        ensures
            spawned,
            final(self)@ == old(self)@.spawned(final(self).tasks@.last()),
            exists|stack_base: u64|
                stack_usable(STACK_SIZE as nat, stack_base) && #[trigger] is_fresh_task(
                    final(self).tasks@.last(),
                    name@,
                    budget,
                    job,
                    arg,
                    exit_stub,
                    stack_base,
                ),
            forall|i: int| 0 <= i < STACK_SIZE - 8 ==> final(self).tasks@.last().stack[i] == 0,
            old(self).wf() ==> final(self).wf(),
    {
        let stack = vec![0u8; STACK_SIZE];
        let ghost zeros = stack@;
        let stack_base = buffer_address(&stack);
        proof {
            assert(stack_usable(stack@.len(), stack_base));
        }
        let spawned = self.add_task_at(name, budget, job, arg, exit_stub, stack, stack_base);
        proof {
            assert forall|i: int| 0 <= i < STACK_SIZE - 8 implies self.tasks@.last().stack[i]
                == 0 by {
                assert(zeros[i] == 0);
            }
            assert(is_fresh_task(
                self.tasks@.last(),
                name@,
                budget,
                job,
                arg,
                exit_stub,
                stack_base,
            ));
        }
        spawned
    }
}

/// What a monitor is shown of a task.
pub struct TaskInfo {
    /// Place of the task in the list.
    pub index: usize,
    pub name: String,
    pub last_cost: u64,
    pub budget: u64,
    pub status: TaskStatus,
}

impl TaskInfo {
    /// The record shows the task at place `index`.
    pub open spec fn shows(self, task: Task, index: int) -> bool {
        &&& self.index == index
        &&& self.name@ == task.name@
        &&& self.last_cost == task.last_cost
        &&& self.budget == task.budget
        &&& self.status == task.status
    }
}

impl Scheduler {
    /// A copy of what a monitor shows of every task, in list order. The
    /// scheduler is only read.
    pub fn snapshot(&self) -> (infos: Vec<TaskInfo>)
        ensures
            infos@.len() == self.tasks@.len(),
            forall|i: int|
                0 <= i < infos@.len() ==> (#[trigger] infos@[i]).shows(self.tasks@[i], i),
    {
        let mut infos: Vec<TaskInfo> = Vec::new();
        let mut i: usize = 0;
        while i < self.tasks.len()
            invariant
                i <= self.tasks.len(),
                infos@.len() == i,
                forall|k: int| 0 <= k < i ==> (#[trigger] infos@[k]).shows(self.tasks@[k], k),
            decreases self.tasks.len() - i,
        {
            let task = &self.tasks[i];
            infos.push(
                TaskInfo {
                    index: i,
                    name: task.name.clone(),
                    last_cost: task.last_cost,
                    budget: task.budget,
                    status: task.status,
                },
            );
            i = i + 1;
        }
        infos
    }

    /// Share of its budget, in percent, that the first task called
    /// `name` used in its last turn; 0 without such a task or for a
    /// budget of zero.
    pub fn load_of(&self, name: &str) -> (load: u128)
        ensures
            load == task_load(self.tasks@, name@, 0),
    {
        let mut i: usize = 0;
        while i < self.tasks.len()
            invariant
                i <= self.tasks.len(),
                task_load(self.tasks@, name@, 0) == task_load(self.tasks@, name@, i as int),
            decreases self.tasks.len() - i,
        {
            if crate::strings::same_text(self.tasks[i].name.as_str(), name) {
                let task = &self.tasks[i];
                if task.budget == 0 {
                    return 0;
                }
                return (task.last_cost as u128 * 100) / (task.budget as u128);
            }
            i = i + 1;
        }
        0
    }
}

/// Share of its budget, in percent, that the first task called `name`
/// from place `from` on used in its last turn.
pub open spec fn task_load(tasks: Seq<Task>, name: Seq<char>, from: int) -> int
    decreases tasks.len() - from,
{
    if from < 0 || from >= tasks.len() {
        0
    } else if tasks[from].name@ == name {
        if tasks[from].budget == 0 {
            0
        } else {
            (tasks[from].last_cost * 100) / (tasks[from].budget as int)
        }
    } else {
        task_load(tasks, name, from + 1)
    }
}

/// The register transfer at the heart of a switch: `save` receives the
/// processor's registers as they stand at the call, with the
/// interrupt-enable bit forced on, and the processor continues with `load`.
pub fn context_switch(cpu: &mut TaskContext, save: &mut TaskContext, load: &TaskContext)
    ensures
        *final(save) == old(cpu).interrupts_enabled(),
        *final(cpu) == *load,
{
    *save = cpu.with_interrupts_enabled();
    *cpu = *load;
}

impl SchedulerState {
    /// The scan followed by the switch into the chosen task, on a
    /// processor whose registers are `cpu`: the registers are parked in the
    /// scheduler, interrupts enabled, and the processor continues with the
    /// task's saved registers. With no choice the processor is left alone.
    pub open spec fn dispatched(self, cpu: TaskContext) -> (SchedulerState, TaskContext) {
        match self.choice() {
            None => (self.selected(), cpu),
            Some(idx) => (
                SchedulerState { context: cpu.interrupts_enabled(), ..self.selected() },
                self.tasks[idx as int].context,
            ),
        }
    }

    /// One whole step: the dispatch, the trap that ends the task's turn,
    /// and the charge of `elapsed` cycles. `cpu` holds the registers of the
    /// dispatch loop at the call. Gives the scheduler and the registers
    /// after the step.
    pub open spec fn stepped(self, cpu: TaskContext, trap: Trap, elapsed: u64) -> (
        SchedulerState,
        TaskContext,
    ) {
        match self.choice() {
            None => self.dispatched(cpu),
            Some(idx) => {
                let (after, frame) = self.dispatched(cpu).0.trapped(trap);
                (after.finished(idx, elapsed), frame)
            },
        }
    }
}

/// Forcing the interrupt-enable bit on twice is the same as forcing it on
/// once.
pub proof fn lemma_interrupts_enabled_idempotent(c: TaskContext)
    ensures
        c.interrupts_enabled().interrupts_enabled() == c.interrupts_enabled(),
        c.interrupts_enabled().rflags & INTERRUPT_FLAG == INTERRUPT_FLAG,
{
    let f = c.rflags;
    assert((f | 0x200) | 0x200 == f | 0x200) by (bit_vector);
    assert((f | 0x200) & 0x200 == 0x200) by (bit_vector);
}

/// First part of a step on a processor with registers `cpu`: the scan,
/// and, when it finds a task, the switch into it. Returns the place of the
/// task that now runs, or `None` when no task could run.
pub fn dispatch(sched: &mut Scheduler, cpu: &mut TaskContext) -> (r: Option<usize>)
    ensures
        (final(sched)@, *final(cpu)) == old(sched)@.dispatched(*old(cpu)),
        r == old(sched)@.choice(),
        r matches Some(idx) ==> idx < final(sched).tasks.len() && final(sched)@.current == Some(
            idx,
        ),
        r is None && old(sched).wf() ==> final(sched).wf(),
        final(sched).tasks.len() == old(sched).tasks.len(),
{
    let picked = sched.select_next();
    match picked {
        Some(idx) => {
            proof {
                old(sched)@.lemma_choice();
            }
            let context_to_load = sched.tasks[idx].context;
            context_switch(cpu, &mut sched.scheduler_context, &context_to_load);
        },
        None => {},
    }
    picked
}

/// One dispatch: picks the next task that is not benched, switches to it,
/// and, after `trap` has ended its turn, charges the `elapsed` cycles the
/// turn took. `cpu` is the processor as the dispatch loop runs on it; when
/// the step returns, the loop has its registers back, interrupts enabled.
/// Returns the place the dispatched task had in the list, or `None` when
/// no task could run and only the scan's marks were made.
pub fn step(sched: &mut Scheduler, cpu: &mut TaskContext, trap: Trap, elapsed: u64) -> (r: Option<
    usize,
>)
    requires
        old(sched).wf(),
        trap.ends_activation(),
    ensures
        (final(sched)@, *final(cpu)) == old(sched)@.stepped(*old(cpu), trap, elapsed),
        r == old(sched)@.choice(),
        final(sched).wf(),
        r is Some ==> final(sched)@.current is None,
        r is Some ==> *final(cpu) == old(cpu).interrupts_enabled(),
        r is None ==> *final(cpu) == *old(cpu),
{
    let picked = dispatch(sched, cpu);
    match picked {
        Some(idx) => {
            // The task runs from here until the trap takes the processor away.
            *cpu = trap.frame;
            match trap.source {
                TrapSource::Timer => {
                    let _ = timer_interrupt_handler(sched, cpu);
                },
                TrapSource::Syscall => {
                    let _ = syscall_handler(sched, cpu);
                },
            }
            sched.complete_activation(idx, elapsed);
            proof {
                lemma_interrupts_enabled_idempotent(*old(cpu));
            }
        },
        None => {},
    }
    picked
}

} // verus!
