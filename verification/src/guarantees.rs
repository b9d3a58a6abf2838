//! What the scheduler guarantees over several turns: how the budget policy
//! treats a task's record, in which order tasks are dispatched, and what a
//! task finds in its registers when it runs again.

use vstd::prelude::*;
use vstd::arithmetic::div_mod::{
    lemma_add_mod_noop_right, lemma_fundamental_div_mod, lemma_fundamental_div_mod_converse,
    lemma_mod_bound, lemma_small_mod,
};
use crate::interrupts::{Trap, TrapSource, SYS_EXIT, SYS_YIELD};
use crate::scheduler::{
    lemma_passed_from, ring_index, SchedulerState, Task, TaskContext, TaskStatus, PENALTY_TURNS,
};

verus! {

/// The task after turns with the given costs, oldest first.
pub open spec fn charged_all(task: Task, costs: Seq<u64>) -> Task
    decreases costs.len(),
{
    if costs.len() == 0 {
        task
    } else {
        charged_all(task, costs.drop_last()).charged(costs.last())
    }
}

/// The task after the scan has passed over it `times` times.
pub open spec fn passed_over_times(task: Task, times: nat) -> Task
    decreases times,
{
    if times == 0 {
        task
    } else {
        passed_over_times(task, (times - 1) as nat).passed_over()
    }
}

/// A task without strikes whose turns all stay within budget has no
/// strikes afterwards, shows `Success` with the cost of its last turn, and
/// is no closer to a penalty than before.
pub proof fn lemma_within_budget_keeps_record_clean(task: Task, costs: Seq<u64>)
    requires
        task.violation_count == 0,
        forall|i: int| 0 <= i < costs.len() ==> costs[i] <= task.budget,
    ensures
        charged_all(task, costs).violation_count == 0,
        charged_all(task, costs).budget == task.budget,
        charged_all(task, costs).penalty_cooldown == task.penalty_cooldown,
        costs.len() > 0 ==> charged_all(task, costs).status == TaskStatus::Success,
        costs.len() > 0 ==> charged_all(task, costs).last_cost == costs.last(),
    decreases costs.len(),
{
    if costs.len() > 0 {
        lemma_within_budget_keeps_record_clean(task, costs.drop_last());
    }
}

/// A task without strikes whose turns all stay within budget shows
/// `Success` and no strike after every single one of them.
pub proof fn lemma_within_budget_succeeds_every_time(task: Task, costs: Seq<u64>)
    requires
        task.violation_count == 0,
        forall|i: int| 0 <= i < costs.len() ==> costs[i] <= task.budget,
    ensures
        forall|n: int|
            1 <= n <= costs.len() ==> {
                &&& (#[trigger] charged_all(task, costs.take(n))).status == TaskStatus::Success
                &&& charged_all(task, costs.take(n)).violation_count == 0
            },
{
    assert forall|n: int| 1 <= n <= costs.len() implies {
        &&& (#[trigger] charged_all(task, costs.take(n))).status == TaskStatus::Success
        &&& charged_all(task, costs.take(n)).violation_count == 0
    } by {
        lemma_within_budget_keeps_record_clean(task, costs.take(n));
    }
}

/// Three overruns in a row, starting without strikes, start a penalty of
/// five turns and clear the strikes; the first two only count as strikes.
pub proof fn lemma_three_overruns_start_penalty(task: Task, first: u64, second: u64, third: u64)
    requires
        task.violation_count == 0,
        first > task.budget,
        second > task.budget,
        third > task.budget,
    ensures
        task.charged(first).violation_count == 1,
        task.charged(first).penalty_cooldown == task.penalty_cooldown,
        task.charged(first).charged(second).violation_count == 2,
        task.charged(first).charged(second).penalty_cooldown == task.penalty_cooldown,
        task.charged(first).charged(second).charged(third).violation_count == 0,
        task.charged(first).charged(second).charged(third).penalty_cooldown == PENALTY_TURNS,
        task.charged(first).charged(second).charged(third).status == TaskStatus::Failure,
{
}

/// A success between overruns forgives a strike: the third overrun then
/// starts no penalty.
pub proof fn lemma_success_forgives_a_strike(
    task: Task,
    first: u64,
    second: u64,
    good: u64,
    third: u64,
)
    requires
        task.violation_count == 0,
        first > task.budget,
        second > task.budget,
        good <= task.budget,
        third > task.budget,
    ensures
        task.charged(first).charged(second).charged(good).charged(third).violation_count == 2,
        task.charged(first).charged(second).charged(good).charged(third).penalty_cooldown
            == task.penalty_cooldown,
{
}

/// A penalty lasts exactly five turns: a task that has just been benched
/// is still benched after being passed over up to four times, shows
/// `Penalty` from the first time on, and is eligible again after the
/// fifth.
pub proof fn lemma_penalty_lasts_five_turns(task: Task)
    requires
        task.penalty_cooldown == PENALTY_TURNS,
    ensures
        forall|k: nat| k < 5 ==> !(#[trigger] passed_over_times(task, k)).eligible(),
        forall|k: nat|
            1 <= k <= 5 ==> (#[trigger] passed_over_times(task, k)).status == TaskStatus::Penalty,
        forall|k: nat|
            k <= 5 ==> (#[trigger] passed_over_times(task, k)).penalty_cooldown == 5 - k,
        passed_over_times(task, 5).eligible(),
{
    reveal_with_fuel(passed_over_times, 6);
    assert forall|k: nat| k <= 5 implies (#[trigger] passed_over_times(task, k)).penalty_cooldown
        == 5 - k && (k >= 1 ==> passed_over_times(task, k).status == TaskStatus::Penalty) by {
        if k == 0 {
        } else if k == 1 {
        } else if k == 2 {
        } else if k == 3 {
        } else if k == 4 {
        } else {
        }
    }
}

/// The scan never settles on a benched task, and it passes over each task
/// at most once: a benched task either keeps its record or has one turn
/// less to serve and shows `Penalty`.
pub proof fn lemma_scan_passes_over_benched(s: SchedulerState, place: int)
    requires
        s.countable(),
        0 <= place < s.tasks.len(),
        !s.tasks[place].eligible(),
    ensures
        s.choice() != Some(place as usize),
        s.selected().tasks[place] == s.tasks[place] || s.selected().tasks[place]
            == s.tasks[place].passed_over(),
        s.choice() is Some ==> s.selected().current != Some(place as usize),
{
    s.lemma_choice();
}

/// The scan passes over exactly the benched tasks that stand between the
/// cursor and its choice; with every task benched it passes over them all
/// and settles on none.
pub proof fn lemma_scan_reaches_first_eligible(s: SchedulerState)
    requires
        s.countable(),
        s.tasks.len() > 0,
    ensures
        s.choice() is None <==> forall|j: int| 0 <= j < s.tasks.len() ==> !s.tasks[j].eligible(),
        s.choice() is None ==> forall|j: int|
            0 <= j < s.tasks.len() ==> s.selected().tasks[j] == s.tasks[j].passed_over(),
        forall|k: int|
            0 <= k < s.passed() ==> !(#[trigger] s.tasks[ring_index(
                s.scan_start(),
                k,
                s.tasks.len() as int,
            )]).eligible(),
{
    s.lemma_choice();
    let n = s.tasks.len() as int;
    let start = s.scan_start();
    lemma_passed_from(s.tasks, start, 0);
    if s.passed() >= n {
        assert forall|j: int| 0 <= j < n implies !s.tasks[j].eligible() by {
            let k = if j >= start {
                j - start
            } else {
                j - start + n
            };
            assert(ring_index(start, k, n) == j);
        }
    }
}

/// One turn as the scheduler sees it: the trap that ended it and the
/// cycles it took.
pub struct Turn {
    pub trap: Trap,
    pub elapsed: u64,
}

impl Turn {
    /// The turn ends with the task still in the list: by a timer tick or
    /// by a yield.
    pub open spec fn keeps_task(self) -> bool {
        match self.trap.source {
            TrapSource::Timer => true,
            TrapSource::Syscall => self.trap.frame.rax == SYS_YIELD,
        }
    }
}

/// The scheduler and the processor after one step for each of `turns`,
/// oldest first.
pub open spec fn ran(s: SchedulerState, cpu: TaskContext, turns: Seq<Turn>) -> (
    SchedulerState,
    TaskContext,
)
    decreases turns.len(),
{
    if turns.len() == 0 {
        (s, cpu)
    } else {
        let before = ran(s, cpu, turns.drop_last());
        before.0.stepped(before.1, turns.last().trap, turns.last().elapsed)
    }
}

proof fn lemma_mod_successor(x: int, n: int)
    requires
        0 <= x,
        0 < n,
    ensures
        0 <= x % n < n,
        ((x % n) + 1) % n == (x + 1) % n,
{
    lemma_mod_bound(x, n);
    lemma_add_mod_noop_right(1, x, n);
}

/// With every task eligible the scan settles on the task at the cursor
/// and passes over nobody.
pub proof fn lemma_all_eligible_choice(s: SchedulerState)
    requires
        s.countable(),
        s.tasks.len() > 0,
        forall|j: int| 0 <= j < s.tasks.len() ==> s.tasks[j].eligible(),
    ensures
        s.passed() == 0,
        s.choice() == Some(s.scan_start() as usize),
        s.selected().tasks == s.tasks,
{
    s.lemma_choice();
    assert(s.selected().tasks =~= s.tasks);
}

/// Round robin. With every task eligible, no task leaving and no turn
/// over budget, the steps dispatch the tasks in list order, wrapping at
/// the end: after as many steps as there are `turns`, the next step
/// dispatches the task that many places behind the first one. Nobody is
/// benched on the way and the list keeps its length.
pub proof fn lemma_round_robin(s: SchedulerState, cpu: TaskContext, turns: Seq<Turn>)
    requires
        s.wf(),
        s.tasks.len() > 0,
        forall|j: int| 0 <= j < s.tasks.len() ==> s.tasks[j].eligible(),
        forall|k: int| 0 <= k < turns.len() ==> (#[trigger] turns[k]).keeps_task(),
        forall|k: int|
            0 <= k < turns.len() ==> (#[trigger] turns[k]).elapsed <= s.tasks[(s.scan_start() + k)
                % (s.tasks.len() as int)].budget,
    ensures
        ran(s, cpu, turns).0.wf(),
        ran(s, cpu, turns).0.tasks.len() == s.tasks.len(),
        forall|j: int|
            0 <= j < s.tasks.len() ==> {
                &&& (#[trigger] ran(s, cpu, turns).0.tasks[j]).eligible()
                &&& ran(s, cpu, turns).0.tasks[j].budget == s.tasks[j].budget
            },
        ran(s, cpu, turns).0.scan_start() == (s.scan_start() + turns.len()) % (
        s.tasks.len() as int),
        ran(s, cpu, turns).0.choice() == Some(
            ((s.scan_start() + turns.len()) % (s.tasks.len() as int)) as usize,
        ),
    decreases turns.len(),
{
    let n = s.tasks.len() as int;
    s.lemma_choice();
    if turns.len() == 0 {
        lemma_small_mod(s.scan_start() as nat, n as nat);
        lemma_all_eligible_choice(s);
    } else {
        let m = turns.len() - 1;
        let earlier = turns.drop_last();
        assert forall|k: int| 0 <= k < earlier.len() implies (#[trigger] earlier[k]).keeps_task()
            && earlier[k].elapsed <= s.tasks[(s.scan_start() + k) % n].budget by {
            assert(earlier[k] == turns[k]);
        }
        lemma_round_robin(s, cpu, earlier);
        let before = ran(s, cpu, earlier);
        let b = before.0;
        let turn = turns.last();
        assert(turn == turns[m]);
        lemma_all_eligible_choice(b);
        b.lemma_choice();
        let idx = b.scan_start();
        lemma_mod_successor(s.scan_start() + m, n);
        let after = b.stepped(before.1, turn.trap, turn.elapsed).0;
        assert(after == ran(s, cpu, turns).0);
        let running = b.dispatched(before.1).0;
        assert(running.current == Some(idx as usize));
        assert(running.tasks == b.tasks);
        let trapped = running.trapped(turn.trap).0;
        assert(trapped.tasks == b.tasks.update(idx, b.tasks[idx].suspended_at(turn.trap.frame)));
        assert(after.tasks == trapped.tasks.update(idx, trapped.tasks[idx].charged(turn.elapsed)));
        assert(after.cursor == ((idx + 1) % n) as usize);
        lemma_small_mod(((idx + 1) % n) as nat, n as nat);
        assert(after.scan_start() == (s.scan_start() + turns.len()) % n);
        assert forall|j: int| 0 <= j < n implies (#[trigger] after.tasks[j]).eligible()
            && after.tasks[j].budget == s.tasks[j].budget by {
            assert(b.tasks[j].eligible());
        }
        lemma_all_eligible_choice(after);
    }
}

/// The order of dispatch under round robin: step number `k`, counted
/// from zero, dispatches the task `k` places behind the one at the cursor,
/// wrapping at the end of the list.
pub proof fn lemma_dispatch_order(s: SchedulerState, cpu: TaskContext, turns: Seq<Turn>, k: int)
    requires
        s.wf(),
        s.tasks.len() > 0,
        forall|j: int| 0 <= j < s.tasks.len() ==> s.tasks[j].eligible(),
        forall|i: int| 0 <= i < turns.len() ==> (#[trigger] turns[i]).keeps_task(),
        forall|i: int|
            0 <= i < turns.len() ==> (#[trigger] turns[i]).elapsed <= s.tasks[(s.scan_start() + i)
                % (s.tasks.len() as int)].budget,
        0 <= k <= turns.len(),
    ensures
        ran(s, cpu, turns.take(k)).0.choice() == Some(
            ((s.scan_start() + k) % (s.tasks.len() as int)) as usize,
        ),
{
    let earlier = turns.take(k);
    assert forall|i: int| 0 <= i < earlier.len() implies (#[trigger] earlier[i]).keeps_task()
        && earlier[i].elapsed <= s.tasks[(s.scan_start() + i) % (s.tasks.len() as int)].budget by {
        assert(earlier[i] == turns[i]);
    }
    lemma_round_robin(s, cpu, earlier);
}

/// Place that step number `k` of a round robin dispatches when the first
/// step starts at place `start` of `n`.
pub open spec fn place_of_step(start: int, k: int, n: int) -> int {
    (start + k) % n
}

/// Some step among the `n` steps from number `first` on dispatches place
/// `j`.
pub open spec fn dispatched_in_round(start: int, first: int, n: int, j: int) -> bool {
    exists|k: int| first <= k < first + n && #[trigger] place_of_step(start, k, n) == j
}

/// Among any `n` consecutive steps of a round robin over `n` tasks, every
/// place of the list is dispatched by exactly one.
pub proof fn lemma_each_place_once_per_round(start: int, first: int, n: int)
    requires
        0 <= start,
        0 <= first,
        0 < n,
    ensures
        forall|j: int| 0 <= j < n ==> #[trigger] dispatched_in_round(start, first, n, j),
        forall|k1: int, k2: int|
            first <= k1 < k2 < first + n ==> #[trigger] place_of_step(start, k1, n)
                != #[trigger] place_of_step(start, k2, n),
{
    let x = start + first;
    lemma_fundamental_div_mod(x, n);
    lemma_mod_bound(x, n);
    let r = x % n;
    let q = x / n;
    assert forall|j: int| 0 <= j < n implies #[trigger] dispatched_in_round(start, first, n, j) by {
        if j >= r {
            let k = first + (j - r);
            assert(start + k == q * n + j) by (nonlinear_arith)
                requires
                    x == n * q + r,
                    start + k == x + j - r,
            ;
            lemma_fundamental_div_mod_converse(start + k, n, q, j);
            assert(place_of_step(start, k, n) == j);
        } else {
            let k = first + (j - r + n);
            assert(start + k == (q + 1) * n + j) by (nonlinear_arith)
                requires
                    x == n * q + r,
                    start + k == x + j - r + n,
            ;
            lemma_fundamental_div_mod_converse(start + k, n, q + 1, j);
            assert(place_of_step(start, k, n) == j);
        }
    }
    assert forall|k1: int, k2: int| first <= k1 < k2 < first + n implies #[trigger] place_of_step(
        start,
        k1,
        n,
    ) != #[trigger] place_of_step(start, k2, n) by {
        let a = start + k1;
        let b = start + k2;
        lemma_fundamental_div_mod(a, n);
        lemma_fundamental_div_mod(b, n);
        if a % n == b % n {
            let d = b / n - a / n;
            assert(b - a == n * d) by (nonlinear_arith)
                requires
                    a == n * (a / n) + a % n,
                    b == n * (b / n) + b % n,
                    a % n == b % n,
                    d == b / n - a / n,
            ;
            assert(false) by (nonlinear_arith)
                requires
                    0 < b - a < n,
                    b - a == n * d,
            ;
        }
    }
}

/// Exit removes exactly the running task: the others keep their order
/// and their records, nothing is current, and the scheduler is fit for the
/// next step, whose choice is one of the tasks that remain.
pub proof fn lemma_exit_removes_one_task(s: SchedulerState, frame: TaskContext)
    requires
        s.wf(),
        s.current is Some,
        frame.rax == SYS_EXIT,
    ensures
        s.syscall(frame).0.tasks == s.tasks.remove(s.current.unwrap() as int),
        s.syscall(frame).0.tasks.len() == s.tasks.len() - 1,
        forall|j: int|
            0 <= j < s.current.unwrap() ==> (#[trigger] s.syscall(frame).0.tasks[j]) == s.tasks[j],
        forall|j: int|
            s.current.unwrap() <= j < s.tasks.len() - 1 ==> (#[trigger] s.syscall(
                frame,
            ).0.tasks[j]) == s.tasks[j + 1],
        s.syscall(frame).0.current is None,
        s.syscall(frame).0.wf(),
        s.syscall(frame).1 == s.context.interrupts_enabled(),
        s.syscall(frame).0.choice() matches Some(next) ==> next < s.tasks.len() - 1,
{
    s.syscall(frame).0.lemma_choice();
}

/// A step that ends by exit leaves a scheduler fit for the next step, one
/// task shorter, and charges the turn to nobody: the tasks that remain
/// are exactly as the scan left them, in their order, whatever the turn
/// cost.
pub proof fn lemma_step_after_exit(s: SchedulerState, cpu: TaskContext, frame: TaskContext,
    elapsed: u64)
    requires
        s.wf(),
        s.choice() is Some,
        frame.rax == SYS_EXIT,
    ensures
        s.stepped(cpu, Trap { source: TrapSource::Syscall, frame }, elapsed).0.wf(),
        s.stepped(cpu, Trap { source: TrapSource::Syscall, frame }, elapsed).0.tasks.len()
            == s.tasks.len() - 1,
        s.stepped(cpu, Trap { source: TrapSource::Syscall, frame }, elapsed).0.current is None,
        s.stepped(cpu, Trap { source: TrapSource::Syscall, frame }, elapsed).0.tasks
            == s.scanned_tasks().remove(s.choice().unwrap() as int),
        s.stepped(cpu, Trap { source: TrapSource::Syscall, frame }, elapsed).0.choice() matches Some(
            next,
        ) ==> next < s.tasks.len() - 1,
{
    s.lemma_choice();
    s.stepped(cpu, Trap { source: TrapSource::Syscall, frame }, elapsed).0.lemma_choice();
}

/// A step touches no task but the one it dispatched. Every other task is
/// afterwards as the scan left it: untouched, or passed over once where
/// it was benched and stood between the cursor and the scan's choice. A
/// task that was not dispatched is never charged, however the turn ended
/// and whatever it cost. Where the dispatched task left, the tasks behind
/// it stand one place further to the front.
pub proof fn lemma_step_leaves_others(s: SchedulerState, cpu: TaskContext, trap: Trap, elapsed: u64)
    requires
        s.wf(),
        s.choice() is Some,
        trap.ends_activation(),
    ensures
        forall|j: int|
            0 <= j < s.choice().unwrap() ==> (#[trigger] s.stepped(cpu, trap, elapsed).0.tasks[j])
                == s.scanned_tasks()[j],
        (Turn { trap, elapsed }).keeps_task() ==> {
            &&& s.stepped(cpu, trap, elapsed).0.tasks.len() == s.tasks.len()
            &&& forall|j: int|
                s.choice().unwrap() < j < s.tasks.len() ==> (#[trigger] s.stepped(
                    cpu,
                    trap,
                    elapsed,
                ).0.tasks[j]) == s.scanned_tasks()[j]
        },
        !(Turn { trap, elapsed }).keeps_task() ==> {
            &&& s.stepped(cpu, trap, elapsed).0.tasks.len() == s.tasks.len() - 1
            &&& forall|j: int|
                s.choice().unwrap() <= j < s.tasks.len() - 1 ==> (#[trigger] s.stepped(
                    cpu,
                    trap,
                    elapsed,
                ).0.tasks[j]) == s.scanned_tasks()[j + 1]
        },
{
    s.lemma_choice();
}

/// A task that is not benched and was not dispatched comes out of a step
/// exactly as it went in, with its record and its registers: it stands
/// where it stood, or one place further to the front where the
/// dispatched task stood before it and left.
pub proof fn lemma_step_leaves_eligible_tasks(
    s: SchedulerState,
    cpu: TaskContext,
    trap: Trap,
    elapsed: u64,
    place: int,
)
    requires
        s.wf(),
        s.choice() is Some,
        trap.ends_activation(),
        0 <= place < s.tasks.len(),
        place != s.choice().unwrap(),
        s.tasks[place].eligible(),
    ensures
        (Turn { trap, elapsed }).keeps_task() || place < s.choice().unwrap() ==> s.stepped(
            cpu,
            trap,
            elapsed,
        ).0.tasks[place] == s.tasks[place],
        !(Turn { trap, elapsed }).keeps_task() && place > s.choice().unwrap() ==> s.stepped(
            cpu,
            trap,
            elapsed,
        ).0.tasks[place - 1] == s.tasks[place],
{
    s.lemma_choice();
    let n = s.tasks.len() as int;
    let start = s.scan_start();
    let k = if place >= start {
        place - start
    } else {
        place - start + n
    };
    lemma_passed_from(s.tasks, start, 0);
    assert(ring_index(start, k, n) == place);
    assert(s.scanned_tasks()[place] == s.tasks[place]);
}

/// A yield is booked like a timer tick: a step that ends by a yield
/// leaves the scheduler and the processor exactly as the same step ended
/// by a tick with the same registers.
pub proof fn lemma_yield_is_booked_like_preemption(
    s: SchedulerState,
    cpu: TaskContext,
    frame: TaskContext,
    elapsed: u64,
)
    requires
        frame.rax == SYS_YIELD,
    ensures
        s.stepped(cpu, Trap { source: TrapSource::Syscall, frame }, elapsed) == s.stepped(
            cpu,
            Trap { source: TrapSource::Timer, frame },
            elapsed,
        ),
{
}

/// The cost booked for a turn is the cost of that turn alone: after a
/// step that the task survives, its record shows the cycles of this step,
/// whatever earlier turns took.
pub proof fn lemma_cost_covers_one_turn(s: SchedulerState, cpu: TaskContext, turn: Turn)
    requires
        s.wf(),
        s.choice() is Some,
        turn.keeps_task(),
    ensures
        s.stepped(cpu, turn.trap, turn.elapsed).0.tasks[s.choice().unwrap() as int].last_cost
            == turn.elapsed,
        s.stepped(cpu, turn.trap, turn.elapsed).0.tasks[s.choice().unwrap() as int]
            == s.tasks[s.choice().unwrap() as int].suspended_at(turn.trap.frame).charged(
            turn.elapsed,
        ),
{
    s.lemma_choice();
}

/// Two turns in a row that the same task ends by yielding are booked
/// like two turns ended by timer ticks, and the record then shows the
/// cost of the second turn only.
pub proof fn lemma_two_yields_like_two_preemptions(
    s: SchedulerState,
    cpu: TaskContext,
    first: TaskContext,
    first_cost: u64,
    second: TaskContext,
    second_cost: u64,
)
    requires
        s.wf(),
        first.rax == SYS_YIELD,
        second.rax == SYS_YIELD,
        s.choice() is Some,
        s.stepped(cpu, Trap { source: TrapSource::Syscall, frame: first }, first_cost).0.choice()
            == s.choice(),
    ensures
        ran(
            s,
            cpu,
            seq![
                Turn { trap: Trap { source: TrapSource::Syscall, frame: first }, elapsed: first_cost },
                Turn {
                    trap: Trap { source: TrapSource::Syscall, frame: second },
                    elapsed: second_cost,
                },
            ],
        ) == ran(
            s,
            cpu,
            seq![
                Turn { trap: Trap { source: TrapSource::Timer, frame: first }, elapsed: first_cost },
                Turn { trap: Trap { source: TrapSource::Timer, frame: second }, elapsed: second_cost },
            ],
        ),
        ran(
            s,
            cpu,
            seq![
                Turn { trap: Trap { source: TrapSource::Syscall, frame: first }, elapsed: first_cost },
                Turn {
                    trap: Trap { source: TrapSource::Syscall, frame: second },
                    elapsed: second_cost,
                },
            ],
        ).0.tasks[s.choice().unwrap() as int].last_cost == second_cost,
{
    let y1 = Turn { trap: Trap { source: TrapSource::Syscall, frame: first }, elapsed: first_cost };
    let y2 = Turn {
        trap: Trap { source: TrapSource::Syscall, frame: second },
        elapsed: second_cost,
    };
    let t1 = Turn { trap: Trap { source: TrapSource::Timer, frame: first }, elapsed: first_cost };
    let t2 = Turn { trap: Trap { source: TrapSource::Timer, frame: second }, elapsed: second_cost };
    let ys = seq![y1, y2];
    let ts = seq![t1, t2];
    reveal_with_fuel(ran, 3);
    assert(ys.drop_last() =~= seq![y1]);
    assert(ts.drop_last() =~= seq![t1]);
    assert(ys.drop_last().drop_last() =~= Seq::<Turn>::empty());
    assert(ts.drop_last().drop_last() =~= Seq::<Turn>::empty());
    let s1 = s.stepped(cpu, y1.trap, first_cost);
    lemma_yield_is_booked_like_preemption(s, cpu, first, first_cost);
    lemma_yield_is_booked_like_preemption(s1.0, s1.1, second, second_cost);
    assert(ran(s, cpu, ys.drop_last()) == s1);
    assert(ran(s, cpu, ts.drop_last()) == s1);
    s.lemma_choice();
    s1.0.lemma_choice();
    lemma_cost_covers_one_turn(s1.0, s1.1, y2);
}

/// Context fidelity. A step that the task ends by a tick or a yield
/// stores the registers the task had at that moment, every one of them,
/// and leaves the saved registers of all other tasks alone. The next
/// dispatch that settles on the task resumes it with exactly those
/// registers.
pub proof fn lemma_registers_survive_suspension(s: SchedulerState, cpu: TaskContext, turn: Turn)
    requires
        s.wf(),
        s.choice() is Some,
        turn.keeps_task(),
    ensures
        s.stepped(cpu, turn.trap, turn.elapsed).0.tasks[s.choice().unwrap() as int].context
            == turn.trap.frame,
        forall|j: int|
            0 <= j < s.tasks.len() && j != s.choice().unwrap() ==> (#[trigger] s.stepped(
                cpu,
                turn.trap,
                turn.elapsed,
            ).0.tasks[j]).context == s.tasks[j].context,
        forall|next_cpu: TaskContext|
            s.stepped(cpu, turn.trap, turn.elapsed).0.choice() == s.choice() ==> (
            #[trigger] s.stepped(cpu, turn.trap, turn.elapsed).0.dispatched(next_cpu)).1
                == turn.trap.frame,
{
    s.lemma_choice();
}

/// Neither the scan nor the charge touches saved registers: a step in
/// which no task could run, and the marks the scan leaves on the tasks it
/// passes over, change no task's registers.
pub proof fn lemma_scan_keeps_registers(s: SchedulerState)
    requires
        s.countable(),
    ensures
        forall|j: int|
            0 <= j < s.tasks.len() ==> (#[trigger] s.selected().tasks[j]).context
                == s.tasks[j].context,
{
    s.lemma_choice();
}

/// A print request or an unknown request code changes neither the
/// scheduler nor the caller's registers.
pub proof fn lemma_other_requests_change_nothing(s: SchedulerState, frame: TaskContext)
    requires
        frame.rax != SYS_EXIT,
        frame.rax != SYS_YIELD,
    ensures
        s.syscall(frame) == (s, frame),
{
}

} // verus!
