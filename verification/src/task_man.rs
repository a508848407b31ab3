//! The task table: fixed slots of tasks, their release countdowns, and the
//! selection policy that picks who runs.

use vstd::prelude::*;
use crate::tasks::{Task, TaskState};

verus! {

/// Names a slot of the task table, directly or by its role.
#[derive(Clone, Copy, Debug)]
pub enum TaskID {
    /// The slot whose task is running.
    Current,
    /// The first slot, in table order, whose task is ready or suspended.
    Next,
    /// The slot with this index.
    ID(usize),
}

/// What the kernel knows of its table, slot by slot.
pub struct TaskTable {
    pub states: Seq<TaskState>,
    pub stack_ptrs: Seq<usize>,
    pub periods: Seq<u32>,
    /// Timer ticks left until each slot's next release; not positive once due.
    pub countdowns: Seq<i32>,
    /// Timer ticks in one unit of a task's period.
    pub ticks: u32,
}

/// `i` is the first index of `s` whose state is among `wanted`.
pub open spec fn is_first_among(s: Seq<TaskState>, wanted: Seq<TaskState>, i: int) -> bool {
    &&& 0 <= i < s.len()
    &&& wanted.contains(s[i])
    &&& forall|j: int| 0 <= j < i ==> !wanted.contains(#[trigger] s[j])
}

/// The first index of `s` whose state is among `wanted`, if there is one.
pub open spec fn first_among(s: Seq<TaskState>, wanted: Seq<TaskState>) -> Option<int> {
    if exists|i: int| is_first_among(s, wanted, i) {
        Some(choose|i: int| is_first_among(s, wanted, i))
    } else {
        None
    }
}

/// A countdown after `elapsed` ticks have passed; it stops at the least value
/// it can hold, so a slot that is overdue stays overdue.
pub open spec fn counted_down(time: i32, elapsed: u32) -> i32 {
    if time - elapsed < i32::MIN {
        i32::MIN
    } else {
        (time - elapsed) as i32
    }
}

/// A countdown read as a timer reload value: its two's complement bits.
pub open spec fn as_reload(time: i32) -> u32 {
    if time >= 0 {
        time as u32
    } else {
        (time + 0x1_0000_0000) as u32
    }
}

/// The least element of a non-empty sequence of countdowns.
pub open spec fn least(s: Seq<i32>) -> i32
    recommends
        s.len() > 0,
    decreases s.len(),
{
    if s.len() <= 1 {
        s[0]
    } else {
        let rest = least(s.drop_last());
        if s.last() < rest {
            s.last()
        } else {
            rest
        }
    }
}

impl TaskTable {
    /// The number of slots.
    pub open spec fn len(self) -> nat {
        self.states.len()
    }

    /// Every column has one entry per slot.
    pub open spec fn wf(self) -> bool {
        &&& self.stack_ptrs.len() == self.len()
        &&& self.periods.len() == self.len()
        &&& self.countdowns.len() == self.len()
    }

    /// The running slot: the first one marked `Running`.
    pub open spec fn current(self) -> Option<int> {
        first_among(self.states, seq![TaskState::Running])
    }

    /// The slot to dispatch next: the first one that is ready or suspended.
    pub open spec fn next(self) -> Option<int> {
        first_among(self.states, seq![TaskState::Ready, TaskState::Suspended])
    }

    /// The slot a selector stands for, if any.
    pub open spec fn resolve(self, id: TaskID) -> Option<int> {
        match id {
            TaskID::Current => self.current(),
            TaskID::Next => self.next(),
            TaskID::ID(i) => if i < self.len() {
                Some(i as int)
            } else {
                None
            },
        }
    }

    /// No two slots are marked `Running`.
    pub open spec fn at_most_one_running(self) -> bool {
        forall|i: int, j: int|
            0 <= i < self.len() && 0 <= j < self.len() && self.states[i] == TaskState::Running
                && self.states[j] == TaskState::Running ==> i == j
    }

    /// Every slot's reload value fits a countdown.
    pub open spec fn reloads_fit(self) -> bool {
        forall|i: int| 0 <= i < self.len() ==> 0 <= #[trigger] self.reload(i) <= i32::MAX
    }

    /// Slots are in priority order: periods never decrease with the index.
    pub open spec fn priority_ordered(self) -> bool {
        forall|i: int, j: int| 0 <= i <= j < self.len() ==> self.periods[i] <= self.periods[j]
    }

    /// The countdown a slot restarts from when it is released.
    pub open spec fn reload(self, i: int) -> int {
        self.periods[i] * self.ticks
    }

    /// Whether slot `i` is released by a tick that reports `elapsed` ticks:
    /// its countdown runs out and its task has finished the previous period.
    pub open spec fn due(self, i: int, elapsed: u32) -> bool {
        &&& 0 <= i < self.len()
        &&& self.countdowns[i] - elapsed <= 0
        &&& self.states[i] == TaskState::Done
    }

    /// The table after `elapsed` ticks: every due slot is released.
    pub open spec fn released(self, elapsed: u32) -> TaskTable {
        TaskTable {
            states: Seq::new(
                self.len(),
                |i: int| if self.due(i, elapsed) {
                    TaskState::Ready
                } else {
                    self.states[i]
                },
            ),
            countdowns: Seq::new(
                self.len(),
                |i: int| if self.due(i, elapsed) {
                    self.reload(i) as i32
                } else {
                    counted_down(self.countdowns[i], elapsed)
                },
            ),
            ..self
        }
    }

    /// The table with slot `i` in state `s`.
    pub open spec fn with_state(self, i: int, s: TaskState) -> TaskTable {
        TaskTable { states: self.states.update(i, s), ..self }
    }

    /// The table with `p` as slot `i`'s saved stack pointer.
    pub open spec fn with_stack_ptr(self, i: int, p: usize) -> TaskTable {
        TaskTable { stack_ptrs: self.stack_ptrs.update(i, p), ..self }
    }
}

/// Whether reload values fit depends on the periods and the tick rate alone.
pub proof fn lemma_reloads_fit(a: TaskTable, b: TaskTable)
    requires
        a.reloads_fit(),
        a.len() == b.len(),
        a.periods == b.periods,
        a.ticks == b.ticks,
    ensures
        b.reloads_fit(),
{
    assert forall|i: int| 0 <= i < b.len() implies 0 <= #[trigger] b.reload(i) <= i32::MAX by {
        assert(a.reload(i) == b.reload(i));
    }
}

/// Among the states that `wanted` lists, at most one index is the first.
pub proof fn lemma_first_among_unique(s: Seq<TaskState>, wanted: Seq<TaskState>, i: int, j: int)
    requires
        is_first_among(s, wanted, i),
        is_first_among(s, wanted, j),
    ensures
        i == j,
{
    if i < j {
        assert(!wanted.contains(s[i]));
    } else if j < i {
        assert(!wanted.contains(s[j]));
    }
}

/// `first_among` is the index that `is_first_among` singles out, and is
/// `None` exactly when no state of `s` is wanted.
pub proof fn lemma_first_among(s: Seq<TaskState>, wanted: Seq<TaskState>)
    ensures
        match first_among(s, wanted) {
            Some(i) => is_first_among(s, wanted, i),
            None => forall|j: int| 0 <= j < s.len() ==> !wanted.contains(#[trigger] s[j]),
        },
{
    if !(exists|i: int| is_first_among(s, wanted, i)) {
        assert forall|j: int| 0 <= j < s.len() implies !wanted.contains(#[trigger] s[j]) by {
            if wanted.contains(s[j]) {
                lemma_some_first(s, wanted, j);
            }
        }
    }
}

/// If some state up to index `k` is wanted, some index is the first.
proof fn lemma_some_first(s: Seq<TaskState>, wanted: Seq<TaskState>, k: int)
    requires
        0 <= k < s.len(),
        wanted.contains(s[k]),
    ensures
        exists|i: int| is_first_among(s, wanted, i),
    decreases k,
{
    if exists|j: int| 0 <= j < k && wanted.contains(#[trigger] s[j]) {
        let j = choose|j: int| 0 <= j < k && wanted.contains(#[trigger] s[j]);
        lemma_some_first(s, wanted, j);
    } else {
        assert(is_first_among(s, wanted, k));
    }
}

/// Whether `s` is one of `wanted`.
fn is_among(wanted: &[TaskState], s: TaskState) -> (r: bool)
    ensures
        r == wanted@.contains(s),
{
    let mut k: usize = 0;
    while k < wanted.len()
        invariant
            k <= wanted.len(),
            forall|m: int| 0 <= m < k ==> wanted@[m] != s,
        decreases wanted.len() - k,
    {
        if wanted[k] == s {
            assert(wanted@[k as int] == s);
            return true;
        }
        k = k + 1;
    }
    false
}

/// The task table with its release countdowns.
pub struct TaskMan<T: Task, const N: usize> {
    tasks: [T; N],
    times: [i32; N],
    ticks: u32,
}

impl<T: Task, const N: usize> View for TaskMan<T, N> {
    type V = TaskTable;

    closed spec fn view(&self) -> TaskTable {
        TaskTable {
            states: Seq::new(N as nat, |i: int| self.tasks[i].state()),
            stack_ptrs: Seq::new(N as nat, |i: int| self.tasks[i].stk_ptr()),
            periods: Seq::new(N as nat, |i: int| self.tasks[i].prd()),
            countdowns: self.times@,
            ticks: self.ticks,
        }
    }
}

impl<T: Task, const N: usize> TaskMan<T, N> {
    /// The table has a slot, and every slot's reload value fits a countdown.
    /// `new` establishes this and every method keeps it.
    pub open spec fn wf(&self) -> bool {
        &&& N > 0
        &&& self@.reloads_fit()
    }

    /// The task in slot `i`.
    pub closed spec fn task(&self, i: int) -> T {
        self.tasks[i]
    }

    /// The view has one entry per slot in each column, taken from the task
    /// in that slot.
    pub proof fn lemma_view(&self)
        ensures
            self@.wf(),
            self@.len() == N,
            forall|i: int|
                0 <= i < N ==> {
                    &&& self@.states[i] == (#[trigger] self.task(i)).state()
                    &&& self@.stack_ptrs[i] == self.task(i).stk_ptr()
                    &&& self@.periods[i] == self.task(i).prd()
                },
    {
    }

    /// A table over `tasks`, in the order given, with `ticks` timer ticks to
    /// one unit of a period. Every slot's countdown starts at a full period.
    pub fn new(tasks: [T; N], ticks: u32) -> (tm: Self)
        requires
            N > 0,
            forall|i: int| 0 <= i < N ==> (#[trigger] tasks[i]).prd() * ticks <= i32::MAX,
        ensures
            tm.wf(),
            tm@.wf(),
            tm@.len() == N,
            tm@.ticks == ticks,
            forall|i: int|
                0 <= i < N ==> {
                    &&& tm.task(i) == #[trigger] tasks[i]
                    &&& tm@.states[i] == tasks[i].state()
                    &&& tm@.stack_ptrs[i] == tasks[i].stk_ptr()
                    &&& tm@.periods[i] == tasks[i].prd()
                    &&& tm@.countdowns[i] == tasks[i].prd() * ticks
                },
    {
        let mut times: [i32; N] = [0i32; N];
        let mut i: usize = 0;
        while i < N
            invariant
                i <= N,
                forall|k: int| 0 <= k < N ==> (#[trigger] tasks[k]).prd() * ticks <= i32::MAX,
                forall|k: int| 0 <= k < i ==> (#[trigger] times[k]) == tasks[k].prd() * ticks,
            decreases N - i,
        {
            let prd: u32 = tasks[i].get_prd();
            assert(tasks[i as int].prd() * ticks <= i32::MAX);
            assert(0 <= prd * ticks) by (nonlinear_arith)
                requires
                    0 <= prd,
                    0 <= ticks,
            ;
            let wide: u64 = (prd as u64) * (ticks as u64);
            times[i] = wide as i32;
            i = i + 1;
        }
        let tm = TaskMan { tasks, times, ticks };
        proof {
            assert forall|k: int| 0 <= k < tm@.len() implies 0 <= #[trigger] tm@.reload(k)
                <= i32::MAX by {
                assert(tasks[k].prd() * ticks <= i32::MAX);
                assert(0 <= tasks[k].prd() * ticks) by (nonlinear_arith)
                    requires
                        0 <= tasks[k].prd(),
                        0 <= ticks,
                ;
            }
        }
        tm
    }

    /// The first slot whose state is one of `state`.
    fn find(&self, state: &[TaskState]) -> (r: Option<usize>)
        ensures
            match r {
                Some(i) => first_among(self@.states, state@) == Some(i as int),
                None => first_among(self@.states, state@) is None,
            },
    {
        let mut i: usize = 0;
        while i < N
            invariant
                i <= N,
                forall|j: int| 0 <= j < i ==> !state@.contains(#[trigger] self@.states[j]),
            decreases N - i,
        {
            let s: TaskState = self.tasks[i].get_state();
            let hit: bool = is_among(state, s);
            if hit {
                proof {
                    assert(is_first_among(self@.states, state@, i as int));
                    lemma_first_among(self@.states, state@);
                    lemma_first_among_unique(
                        self@.states,
                        state@,
                        i as int,
                        first_among(self@.states, state@).unwrap(),
                    );
                }
                return Some(i);
            }
            i = i + 1;
        }
        proof {
            lemma_first_among(self@.states, state@);
        }
        None
    }

    /// The slot whose task is running, if any.
    pub fn get_current(&self) -> (r: Option<usize>)
        ensures
            match r {
                Some(i) => self@.current() == Some(i as int),
                None => self@.current() is None,
            },
    {
        let wanted: [TaskState; 1] = [TaskState::Running];
        assert(wanted@ =~= seq![TaskState::Running]);
        self.find(&wanted)
    }

    /// The slot to dispatch next: the first, in table order, whose task is
    /// ready or suspended.
    pub fn next_to_run(&self) -> (r: Option<usize>)
        ensures
            match r {
                Some(i) => self@.next() == Some(i as int),
                None => self@.next() is None,
            },
    {
        let wanted: [TaskState; 2] = [TaskState::Ready, TaskState::Suspended];
        assert(wanted@ =~= seq![TaskState::Ready, TaskState::Suspended]);
        self.find(&wanted)
    }

    /// Runs every countdown down by `elapsed` ticks and releases each slot
    /// that is due: its countdown restarts at a full period and its task
    /// becomes ready. A slot whose task has not finished is not released,
    /// however far its countdown has run.
    pub fn update_release(&mut self, elapsed: u32)
        requires
            old(self).wf(),
        ensures
            final(self).wf(),
            final(self)@ == old(self)@.released(elapsed),
            forall|i: int|
                0 <= i < N && !old(self)@.due(i, elapsed) ==> final(self).task(i) == old(self).task(
                    i,
                ),
    {
        proof {
            self.lemma_view();
        }
        let ghost before = self@;
        let ghost tasks_before = self.tasks@;
        let mut i: usize = 0;
        while i < N
            invariant
                i <= N,
                N > 0,
                before.wf(),
                before.len() == N,
                tasks_before.len() == N,
                self.ticks == before.ticks,
                before.reloads_fit(),
                forall|k: int|
                    0 <= k < N ==> {
                        &&& before.states[k] == (#[trigger] tasks_before[k]).state()
                        &&& before.periods[k] == tasks_before[k].prd()
                        &&& before.stack_ptrs[k] == tasks_before[k].stk_ptr()
                    },
                forall|k: int| 0 <= k < N ==> (#[trigger] self.tasks[k]).prd() == before.periods[k],
                forall|k: int|
                    0 <= k < N ==> (#[trigger] self.tasks[k]).stk_ptr() == before.stack_ptrs[k],
                forall|k: int| i <= k < N ==> #[trigger] self.tasks[k] == tasks_before[k],
                forall|k: int| i <= k < N ==> #[trigger] self.times[k] == before.countdowns[k],
                forall|k: int|
                    0 <= k < i ==> {
                        &&& (#[trigger] self.tasks[k]).state() == before.released(elapsed).states[k]
                        &&& !before.due(k, elapsed) ==> self.tasks[k] == tasks_before[k]
                    },
                forall|k: int|
                    0 <= k < i ==> #[trigger] self.times[k] == before.released(
                        elapsed,
                    ).countdowns[k],
            decreases N - i,
        {
            let time: i64 = self.times[i] as i64 - elapsed as i64;
            let state: TaskState = self.tasks[i].get_state();
            if time <= 0 && state == TaskState::Done {
                let prd: u32 = self.tasks[i].get_prd();
                assert(0 <= before.reload(i as int) <= i32::MAX);
                let wide: u64 = (prd as u64) * (self.ticks as u64);
                self.times[i] = wide as i32;
                self.tasks[i].set_state(TaskState::Ready);
            } else if time < i32::MIN as i64 {
                self.times[i] = i32::MIN;
            } else {
                self.times[i] = time as i32;
            }
            i = i + 1;
        }
        assert(self@.states =~= before.released(elapsed).states);
        assert(self@.countdowns =~= before.released(elapsed).countdowns);
        assert(self@.stack_ptrs =~= before.stack_ptrs);
        assert(self@.periods =~= before.periods);
        proof {
            lemma_reloads_fit(before, self@);
        }
    }

    /// The least countdown of the table, as the value to reload the timer
    /// with. A countdown that has run below zero is handed on bit for bit.
    pub fn next_release_time(&self) -> (t: u32)
        requires
            self.wf(),
        ensures
            t == as_reload(least(self@.countdowns)),
    {
        let mut m: i32 = self.times[0];
        let mut i: usize = 1;
        assert(self.times@.take(1) =~= seq![self.times@[0]]);
        while i < N
            invariant
                1 <= i <= N,
                m == least(self.times@.take(i as int)),
            decreases N - i,
        {
            assert(self.times@.take(i + 1).drop_last() =~= self.times@.take(i as int));
            if self.times[i] < m {
                m = self.times[i];
            }
            i = i + 1;
        }
        assert(self.times@.take(N as int) =~= self.times@);
        if m >= 0 {
            m as u32
        } else {
            (m as i64 + 0x1_0000_0000i64) as u32
        }
    }

    /// Puts the selected slot's task in `state`. A selector that stands for
    /// no slot changes nothing.
    pub fn set_state(&mut self, id: TaskID, state: TaskState)
        ensures
            old(self).wf() ==> final(self).wf(),
            match old(self)@.resolve(id) {
                Some(i) => {
                    &&& final(self)@ == old(self)@.with_state(i, state)
                    &&& forall|k: int|
                        0 <= k < N && k != i ==> final(self).task(k) == old(self).task(k)
                },
                None => *final(self) == *old(self),
            },
    {
        proof {
            self.lemma_view();
        }
        let slot: Option<usize> = self.resolve(id);
        if let Some(i) = slot {
            let ghost before = self@;
            self.tasks[i].set_state(state);
            assert(self@.states =~= before.states.update(i as int, state));
            assert(self@.stack_ptrs =~= before.stack_ptrs);
            assert(self@.periods =~= before.periods);
            proof {
                if before.reloads_fit() {
                    lemma_reloads_fit(before, self@);
                }
            }
        }
    }

    /// Records `p` as the saved stack pointer of the selected slot's task. A
    /// selector that stands for no slot changes nothing.
    pub fn update_stk_ptr(&mut self, id: TaskID, p: usize)
        ensures
            old(self).wf() ==> final(self).wf(),
            match old(self)@.resolve(id) {
                Some(i) => {
                    &&& final(self)@ == old(self)@.with_stack_ptr(i, p)
                    &&& forall|k: int|
                        0 <= k < N && k != i ==> final(self).task(k) == old(self).task(k)
                },
                None => *final(self) == *old(self),
            },
    {
        proof {
            self.lemma_view();
        }
        let slot: Option<usize> = self.resolve(id);
        if let Some(i) = slot {
            let ghost before = self@;
            self.tasks[i].update_stk_ptr(p);
            assert(self@.stack_ptrs =~= before.stack_ptrs.update(i as int, p));
            assert(self@.states =~= before.states);
            assert(self@.periods =~= before.periods);
            proof {
                if before.reloads_fit() {
                    lemma_reloads_fit(before, self@);
                }
            }
        }
    }

    /// The slot that `id` stands for: the running one, the next to run, or
    /// the one with the index given if the table has it.
    pub fn resolve(&self, id: TaskID) -> (r: Option<usize>)
        ensures
            match r {
                Some(i) => self@.resolve(id) == Some(i as int) && i < N,
                None => self@.resolve(id) is None,
            },
    {
        proof {
            self.lemma_view();
            lemma_first_among(self@.states, seq![TaskState::Running]);
            lemma_first_among(self@.states, seq![TaskState::Ready, TaskState::Suspended]);
        }
        match id {
            TaskID::Current => self.get_current(),
            TaskID::Next => self.next_to_run(),
            TaskID::ID(i) => if i < N {
                Some(i)
            } else {
                None
            },
        }
    }

    /// Whether the slots are in priority order, so that the first task
    /// that is ready or suspended is also the most urgent one.
    pub fn is_priority_ordered(&self) -> (r: bool)
        ensures
            r == self@.priority_ordered(),
    {
        proof {
            self.lemma_view();
        }
        let mut i: usize = 1;
        while i < N
            invariant
                1 <= i,
                self@.len() == N,
                forall|k: int|
                    0 <= k < N ==> self@.periods[k] == (#[trigger] self.tasks[k]).prd(),
                forall|a: int, b: int|
                    0 <= a <= b < i && b < N ==> self@.periods[a] <= self@.periods[b],
            decreases N - i,
        {
            if self.tasks[i - 1].get_prd() > self.tasks[i].get_prd() {
                assert(self@.periods[i - 1] > self@.periods[i as int]);
                return false;
            }
            assert forall|a: int, b: int| 0 <= a <= b < i + 1 && b < N implies self@.periods[a]
                <= self@.periods[b] by {
                if b == i && a < i {
                    assert(self@.periods[a] <= self@.periods[i - 1]);
                }
            }
            i = i + 1;
        }
        true
    }

    /// The priority of the selected slot's task, which is its period: the
    /// smaller, the more urgent. `None` where the selector stands for no slot.
    pub fn get_pri(&self, id: TaskID) -> (r: Option<u32>)
        ensures
            match self@.resolve(id) {
                Some(i) => r == Some(self@.periods[i]),
                None => r is None,
            },
    {
        proof {
            self.lemma_view();
        }
        match self.resolve(id) {
            Some(i) => Some(self.tasks[i].get_prd()),
            None => None,
        }
    }

    /// The selected slot's task. `None` where the selector stands for no slot.
    pub fn get(&self, id: TaskID) -> (r: Option<&T>)
        ensures
            match self@.resolve(id) {
                Some(i) => r == Some(&self.task(i)),
                None => r is None,
            },
    {
        match self.resolve(id) {
            Some(i) => Some(&self.tasks[i]),
            None => None,
        }
    }
}

} // verus!
