//! The rate-monotonic kernel over four periodic tasks.

use vstd::prelude::*;
use vstd::seq_lib::to_multiset_update;
use vstd::std_specs::convert::FromSpec;
use crate::arch::Arch;
use crate::task::{PeriodicTask, Task};
use crate::task_control::TCB;

verus! {

/// Blocks are in priority order: the more urgent never comes later.
pub open spec fn by_priority<T: Task>(blocks: Seq<TCB<T>>) -> bool {
    forall|i: int, j: int| 0 <= i <= j < blocks.len() ==> blocks[i].pri() <= blocks[j].pri()
}

/// Exchanging two blocks of a sequence keeps what the sequence holds.
proof fn lemma_exchange<T: Task>(s: Seq<TCB<T>>, i: int, j: int)
    requires
        0 <= i < s.len(),
        0 <= j < s.len(),
    ensures
        s.update(i, s[j]).update(j, s[i]).to_multiset() == s.to_multiset(),
{
    to_multiset_update(s, i, s[j]);
    to_multiset_update(s.update(i, s[j]), j, s[i]);
    if i == j {
        assert(s.update(i, s[j]).update(j, s[i]) =~= s);
    } else {
        assert(s.update(i, s[j])[j] == s[j]);
        assert(s.to_multiset().insert(s[j]).remove(s[i]).insert(s[i]).remove(s[j])
            =~= s.to_multiset()) by {
            broadcast use vstd::multiset::group_multiset_axioms;
            vstd::seq_lib::to_multiset_contains(s, s[i]);
            vstd::seq_lib::to_multiset_contains(s, s[j]);
            assert(s.contains(s[i]));
            assert(s.contains(s[j]));
        }
    }
}

/// Puts the blocks in priority order. No block is lost, added or altered.
fn sort_by_priority<T: Task + Copy, const N: usize>(blocks: &mut [TCB<T>; N])
    ensures
        by_priority(final(blocks)@),
        final(blocks)@.to_multiset() == old(blocks)@.to_multiset(),
{
    let mut i: usize = 0;
    while i < N
        invariant
            i <= N,
            blocks@.to_multiset() == old(blocks)@.to_multiset(),
            forall|a: int, b: int| 0 <= a <= b < i ==> blocks[a].pri() <= blocks[b].pri(),
            forall|a: int, b: int| 0 <= a < i <= b < N ==> blocks[a].pri() <= blocks[b].pri(),
        decreases N - i,
    {
        let mut least: usize = i;
        let mut j: usize = i + 1;
        while j < N
            invariant
                i <= least < j <= N,
                forall|b: int| i <= b < j ==> blocks[least as int].pri() <= blocks[b].pri(),
            decreases N - j,
        {
            if blocks[j].get_pri() < blocks[least].get_pri() {
                least = j;
            }
            j = j + 1;
        }
        let ghost before = blocks@;
        let first: TCB<T> = blocks[i];
        let picked: TCB<T> = blocks[least];
        blocks[i] = picked;
        blocks[least] = first;
        proof {
            assert(blocks@ =~= before.update(i as int, before[least as int]).update(
                least as int,
                before[i as int],
            ));
            lemma_exchange(before, i as int, least as int);
        }
        i = i + 1;
    }
}

/// The kernel: four control blocks and the processor they run on.
pub struct RMS<'a, R: Fn() + Copy, I: Fn() + Copy, A: Arch> {
    tasks: [TCB<PeriodicTask<R, I>>; 4],
    arch: &'a A,
}

impl<'a, R: Fn() + Copy, I: Fn() + Copy, A: Arch> RMS<'a, R, I, A> {
    /// The control blocks, in table order.
    pub closed spec fn tasks(&self) -> Seq<TCB<PeriodicTask<R, I>>> {
        self.tasks@
    }

    /// The processor.
    pub closed spec fn arch(&self) -> &'a A {
        self.arch
    }

    /// A kernel over the four tasks of `t`, in the order given, each under
    /// a fresh control block, on the processor `arch`, which is left as it
    /// is.
    pub fn new(t: [PeriodicTask<R, I>; 4], arch: &'a mut A) -> (k: Self)
        ensures
            *k.arch() == *old(arch),
            *final(arch) == *old(arch),
            k.tasks().len() == 4,
            forall|i: int|
                0 <= i < 4 ==> #[trigger] k.tasks()[i] == <TCB<PeriodicTask<R, I>> as FromSpec<
                    PeriodicTask<R, I>,
                >>::from_spec(t[i]),
    {
        Self { tasks: [TCB::from(t[0]), TCB::from(t[1]), TCB::from(t[2]), TCB::from(t[3])], arch }
    }

    /// Prepares every task and puts the control blocks in priority order,
    /// the shortest period first. What is left to do after that is to idle
    /// until the first tick.
    pub fn start(self) -> (k: Self)
        ensures
            k.arch() == self.arch(),
            by_priority(k.tasks()),
            k.tasks().to_multiset() == self.tasks().to_multiset(),
    {
        let mut k = self;
        let mut i: usize = 0;
        while i < 4
            invariant
                i <= 4,
                k.arch == self.arch,
                k.tasks@ == self.tasks@,
            decreases 4 - i,
        {
            let ghost before = k.tasks@;
            k.tasks[i].init();
            assert(k.tasks@ =~= before);
            i = i + 1;
        }
        let mut tasks: [TCB<PeriodicTask<R, I>>; 4] = k.tasks;
        sort_by_priority(&mut tasks);
        k.tasks = tasks;
        k
    }

    /// The priority of the task in slot `i`; `None` beyond the table.
    pub fn get_pri(&self, i: usize) -> (p: Option<usize>)
        ensures
            p == if i < 4 {
                Some(self.tasks()[i as int].pri())
            } else {
                None
            },
    {
        if i < 4 {
            Some(self.tasks[i].get_pri())
        } else {
            None
        }
    }
}

} // verus!
