//! The context-switch engine, on a task's private stack of words.
//!
//! A stack grows downward: a stack pointer is the index of the lowest word
//! in use, and pushing moves it toward zero. A suspended task's registers
//! lie on its own stack in two groups of eight words. The lower group holds
//! the working registers that the pend-switch saves; the upper group is the
//! frame that the processor stacks on exception entry and unstacks on the
//! return to the task. The frame built for a task that has never run has
//! this very layout, so the first dispatch is a resume like any other.

use vstd::prelude::*;

verus! {

/// Words in one register group.
pub const GROUP_WORDS: usize = 8;

/// Words in a whole saved context: both groups.
pub const CONTEXT_WORDS: usize = 16;

/// How far below the top of a stack the initial frame begins.
pub const FRAME_OFFSET: usize = 10;

/// Frame slot of the first argument register, which carries the task's own
/// address to its entry function.
pub const SLOT_ARG: usize = 0;

/// Frame slot of the link register.
pub const SLOT_LINK: usize = 5;

/// Frame slot of the return address.
pub const SLOT_ENTRY: usize = 6;

/// Frame slot of the status word.
pub const SLOT_STATUS: usize = 7;

/// The status word a task starts with: the thread-mode marker.
pub const INITIAL_STATUS: u32 = 0x2100_0000;

/// The register file of a task at the point where it was interrupted.
#[derive(Clone, Copy, Debug, PartialEq, Eq)]
pub struct Registers {
    /// The working registers, lowest-numbered first.
    pub saved: [u32; 8],
    /// The exception frame: four argument registers, the scratch register,
    /// the link register, the return address and the status word.
    pub frame: [u32; 8],
}

impl View for Registers {
    type V = Seq<u32>;

    /// The sixteen words in the order they lie on the stack, lowest first.
    open spec fn view(&self) -> Seq<u32> {
        self.saved@ + self.frame@
    }
}

/// The stack after `words` were pushed below `sp`.
pub open spec fn pushed(stack: Seq<u32>, sp: int, words: Seq<u32>) -> Seq<u32> {
    Seq::new(
        stack.len(),
        |k: int| if sp - words.len() <= k < sp {
            words[k - (sp - words.len())]
        } else {
            stack[k]
        },
    )
}

/// The stack with the frame of a task that has never run: the task's own
/// address, its entry address and the initial status word, in their slots.
pub open spec fn with_initial_frame(stack: Seq<u32>, task: u32, entry: u32) -> Seq<u32> {
    let base = stack.len() - FRAME_OFFSET;
    stack.update(base + SLOT_ARG, task).update(base + SLOT_ENTRY, entry).update(
        base + SLOT_STATUS,
        INITIAL_STATUS,
    )
}

/// Where the stack pointer of a task that has never run stands: one group
/// of working registers below its initial frame.
pub open spec fn initial_sp(len: int) -> int {
    len - FRAME_OFFSET - GROUP_WORDS
}

/// Pushes one group of eight words below `sp`.
fn push_group<const N: usize>(stack: &mut [u32; N], sp: usize, words: &[u32; 8]) -> (new_sp: usize)
    requires
        8 <= sp <= N,
    ensures
        new_sp == sp - 8,
        final(stack)@ == pushed(old(stack)@, sp as int, words@),
{
    let new_sp: usize = sp - 8;
    let mut k: usize = 0;
    while k < 8
        invariant
            k <= 8,
            new_sp == sp - 8,
            8 <= sp <= N,
            forall|j: int| 0 <= j < k ==> #[trigger] stack[new_sp + j] == words[j],
            forall|j: int|
                0 <= j < N && !(new_sp <= j < new_sp + k) ==> #[trigger] stack[j] == old(stack)[j],
        decreases 8 - k,
    {
        stack[new_sp + k] = words[k];
        k = k + 1;
    }
    assert forall|j: int| 0 <= j < N implies #[trigger] stack@[j] == pushed(
        old(stack)@,
        sp as int,
        words@,
    )[j] by {
        if new_sp <= j < sp {
            assert(stack[new_sp + (j - new_sp)] == words[j - new_sp]);
        }
    }
    assert(stack@ =~= pushed(old(stack)@, sp as int, words@));
    new_sp
}

/// Pops one group of eight words from `sp` upward.
fn pop_group<const N: usize>(stack: &[u32; N], sp: usize) -> (out: ([u32; 8], usize))
    requires
        sp + 8 <= N,
    ensures
        out.0@ == stack@.subrange(sp as int, sp + 8),
        out.1 == sp + 8,
{
    let mut words: [u32; 8] = [0u32; 8];
    let mut k: usize = 0;
    while k < 8
        invariant
            k <= 8,
            sp + 8 <= N,
            forall|j: int| 0 <= j < k ==> #[trigger] words[j] == stack[sp + j],
        decreases 8 - k,
    {
        words[k] = stack[sp + k];
        k = k + 1;
    }
    assert(words@ =~= stack@.subrange(sp as int, sp + 8));
    (words, sp + 8)
}

/// Persists the working registers of the interrupted task on its own stack,
/// below `sp`, and returns the stack pointer to put on record.
pub fn save<const N: usize>(stack: &mut [u32; N], sp: usize, saved: &[u32; 8]) -> (new_sp: usize)
    requires
        8 <= sp <= N,
    ensures
        new_sp == sp - 8,
        final(stack)@ == pushed(old(stack)@, sp as int, saved@),
{
    push_group(stack, sp, saved)
}

/// Loads the working registers of the task to resume from its stack at
/// `sp`, and returns them with the stack pointer at which its exception
/// frame lies.
pub fn restore<const N: usize>(stack: &[u32; N], sp: usize) -> (out: ([u32; 8], usize))
    requires
        sp + 8 <= N,
    ensures
        out.0@ == stack@.subrange(sp as int, sp + 8),
        out.1 == sp + 8,
{
    pop_group(stack, sp)
}

/// Takes a task off the processor: what exception entry and `save` do
/// together. The whole register file goes on the task's stack below `sp`.
pub fn suspend<const N: usize>(stack: &mut [u32; N], sp: usize, regs: &Registers) -> (new_sp: usize)
    requires
        16 <= sp <= N,
    ensures
        new_sp == sp - 16,
        final(stack)@ == pushed(old(stack)@, sp as int, regs@),
{
    let framed: usize = push_group(stack, sp, &regs.frame);
    let new_sp: usize = save(stack, framed, &regs.saved);
    assert(stack@ =~= pushed(old(stack)@, sp as int, regs@));
    new_sp
}

/// Puts a task back on the processor: what `restore` and the return to the
/// task do together. The register file is read back from the stack at `sp`,
/// and the stack pointer returns to where it stood before the task was
/// taken off.
pub fn resume<const N: usize>(stack: &[u32; N], sp: usize) -> (out: (Registers, usize))
    requires
        sp + 16 <= N,
    ensures
        out.0@ == stack@.subrange(sp as int, sp + 16),
        out.0.saved@ == stack@.subrange(sp as int, sp + 8),
        out.0.frame@ == stack@.subrange(sp + 8, sp + 16),
        out.1 == sp + 16,
{
    let (saved, framed) = restore(stack, sp);
    let (frame, new_sp) = pop_group(stack, framed);
    let regs = Registers { saved, frame };
    assert(regs@ =~= stack@.subrange(sp as int, sp + 16));
    (regs, new_sp)
}

/// Builds the frame for the first dispatch of a task on its stack: `task`,
/// the task's own address, where its entry function expects its argument;
/// `entry`, the entry function's address, where the return to the task
/// takes it from; and the initial status word. Returns the stack pointer to
/// put on record. No other word of the stack is written.
pub fn initial_frame<const N: usize>(stack: &mut [u32; N], task: u32, entry: u32) -> (sp: usize)
    requires
        N >= FRAME_OFFSET + GROUP_WORDS,
    ensures
        sp == initial_sp(N as int),
        final(stack)@ == with_initial_frame(old(stack)@, task, entry),
{
    let base: usize = N - FRAME_OFFSET;
    stack[base + SLOT_ARG] = task;
    stack[base + SLOT_ENTRY] = entry;
    stack[base + SLOT_STATUS] = INITIAL_STATUS;
    assert(stack@ =~= with_initial_frame(old(stack)@, task, entry));
    base - GROUP_WORDS
}

/// A task resumes with the registers it was suspended with, its stack
/// pointer where it stood and its stack above that untouched: what was
/// pushed below `sp` reads back from there word for word, and every word
/// outside the pushed range is as before.
pub proof fn lemma_context_round_trip(stack: Seq<u32>, sp: int, words: Seq<u32>)
    requires
        words.len() <= sp <= stack.len(),
    ensures
        pushed(stack, sp, words).len() == stack.len(),
        pushed(stack, sp, words).subrange(sp - words.len(), sp) == words,
        forall|k: int|
            0 <= k < stack.len() && !(sp - words.len() <= k < sp) ==> pushed(stack, sp, words)[k]
                == stack[k],
{
    assert(pushed(stack, sp, words).subrange(sp - words.len(), sp) =~= words);
}

/// The first dispatch is a resume like any other. Resuming from the initial
/// stack pointer of a stack that holds nothing but the initial frame gives
/// a register file with the task's address as argument, the entry address
/// as return address, the initial status word, and zero everywhere else;
/// the stack pointer is then two words below the top.
pub proof fn lemma_first_dispatch(stack: Seq<u32>, task: u32, entry: u32)
    requires
        stack.len() >= FRAME_OFFSET + GROUP_WORDS,
        forall|k: int| 0 <= k < stack.len() ==> stack[k] == 0,
    ensures
        ({
            let sp = initial_sp(stack.len() as int);
            let regs = with_initial_frame(stack, task, entry).subrange(sp, sp + CONTEXT_WORDS);
            &&& 0 <= sp
            &&& sp + CONTEXT_WORDS == stack.len() - 2
            &&& regs.len() == CONTEXT_WORDS
            &&& regs[GROUP_WORDS + SLOT_ARG] == task
            &&& regs[GROUP_WORDS + SLOT_ENTRY] == entry
            &&& regs[GROUP_WORDS + SLOT_STATUS] == INITIAL_STATUS
            &&& forall|k: int|
                0 <= k < CONTEXT_WORDS && k != GROUP_WORDS + SLOT_ARG && k != GROUP_WORDS
                    + SLOT_ENTRY && k != GROUP_WORDS + SLOT_STATUS ==> regs[k] == 0
        }),
{
}

} // verus!
