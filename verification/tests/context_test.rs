use rtos::context::{
    initial_frame, restore, resume, save, suspend, Registers, CONTEXT_WORDS, FRAME_OFFSET,
    GROUP_WORDS, INITIAL_STATUS, SLOT_ARG, SLOT_ENTRY, SLOT_LINK, SLOT_STATUS,
};

#[test]
fn the_layout_is_the_one_the_restore_sequence_expects() {
    assert_eq!(GROUP_WORDS, 8);
    assert_eq!(CONTEXT_WORDS, 16);
    assert_eq!(FRAME_OFFSET, 10);
    assert_eq!(SLOT_ARG, 0);
    assert_eq!(SLOT_LINK, 5);
    assert_eq!(SLOT_ENTRY, 6);
    assert_eq!(SLOT_STATUS, 7);
    assert_eq!(INITIAL_STATUS, 0x2100_0000);
}

#[test]
fn initial_frame_writes_three_words_and_nothing_else() {
    let mut stack = [0u32; 512];
    let sp = initial_frame(&mut stack, 0x2000_0400, 0x0800_0131);
    assert_eq!(sp, 494);
    for (k, w) in stack.iter().enumerate() {
        let expected = match k {
            502 => 0x2000_0400,
            508 => 0x0800_0131,
            509 => 0x2100_0000,
            _ => 0,
        };
        assert_eq!(*w, expected, "word {}", k);
    }
}

#[test]
fn initial_frame_keeps_what_the_stack_held() {
    let mut stack = [0xAAAA_5555u32; 32];
    let sp = initial_frame(&mut stack, 1, 2);
    assert_eq!(sp, 14);
    for (k, w) in stack.iter().enumerate() {
        let expected = match k {
            22 => 1,
            28 => 2,
            29 => 0x2100_0000,
            _ => 0xAAAA_5555,
        };
        assert_eq!(*w, expected, "word {}", k);
    }
}

#[test]
fn initial_frame_fits_the_smallest_stack() {
    let mut stack = [0u32; 18];
    assert_eq!(initial_frame(&mut stack, 7, 9), 0);
    assert_eq!(stack[8], 7);
    assert_eq!(stack[14], 9);
    assert_eq!(stack[15], 0x2100_0000);
}

#[test]
fn the_first_dispatch_is_a_resume_like_any_other() {
    let mut stack = [0u32; 512];
    let sp = initial_frame(&mut stack, 0x2000_0400, 0x0800_0131);
    let (regs, after) = resume(&stack, sp);
    assert_eq!(after, 510);
    assert_eq!(regs.saved, [0; 8]);
    assert_eq!(regs.frame, [0x2000_0400, 0, 0, 0, 0, 0, 0x0800_0131, 0x2100_0000]);
    assert_eq!(regs.frame[SLOT_ARG], 0x2000_0400);
    assert_eq!(regs.frame[SLOT_LINK], 0);
    assert_eq!(regs.frame[SLOT_ENTRY], 0x0800_0131);
    assert_eq!(regs.frame[SLOT_STATUS], INITIAL_STATUS);
}

#[test]
fn save_pushes_the_lowest_register_to_the_lowest_word() {
    let mut stack = [0u32; 16];
    let sp = save(&mut stack, 12, &[4, 5, 6, 7, 8, 9, 10, 11]);
    assert_eq!(sp, 4);
    assert_eq!(stack, [0, 0, 0, 0, 4, 5, 6, 7, 8, 9, 10, 11, 0, 0, 0, 0]);
}

#[test]
fn restore_reads_back_what_save_pushed() {
    let mut stack = [9u32; 24];
    let sp = save(&mut stack, 24, &[1, 2, 3, 4, 5, 6, 7, 8]);
    assert_eq!(sp, 16);
    let (regs, after) = restore(&stack, sp);
    assert_eq!(regs, [1, 2, 3, 4, 5, 6, 7, 8]);
    assert_eq!(after, 24);
    assert_eq!(&stack[..16], &[9u32; 16]);
}

#[test]
fn save_and_restore_reach_both_ends_of_the_stack() {
    let mut stack = [0u32; 8];
    assert_eq!(save(&mut stack, 8, &[1, 2, 3, 4, 5, 6, 7, 8]), 0);
    assert_eq!(restore(&stack, 0), ([1, 2, 3, 4, 5, 6, 7, 8], 8));
}

#[test]
fn suspend_lays_the_frame_above_the_saved_registers() {
    let regs = Registers { saved: [4, 5, 6, 7, 8, 9, 10, 11], frame: [0, 1, 2, 3, 12, 14, 15, 16] };
    let mut stack = [0xFFu32; 20];
    let sp = suspend(&mut stack, 18, &regs);
    assert_eq!(sp, 2);
    assert_eq!(stack, [0xFF, 0xFF, 4, 5, 6, 7, 8, 9, 10, 11, 0, 1, 2, 3, 12, 14, 15, 16, 0xFF, 0xFF]);
}

#[test]
fn a_resumed_task_finds_its_registers_and_stack_as_it_left_them() {
    let regs = Registers {
        saved: [0x44, 0x55, 0x66, 0x77, 0x88, 0x99, 0xAA, 0xBB],
        frame: [0, 1, 2, 3, 0xCC, 0x0800_0001, 0x0800_0220, 0x0100_0000],
    };
    let mut stack = [0u32; 64];
    for (k, w) in stack.iter_mut().enumerate() {
        *w = 1000 + k as u32;
    }
    let before = stack;
    let sp = suspend(&mut stack, 40, &regs);
    assert_eq!(sp, 24);
    assert_eq!(&stack[40..], &before[40..]);
    assert_eq!(&stack[..24], &before[..24]);
    let (back, after) = resume(&stack, sp);
    assert_eq!(back, regs);
    assert_eq!(after, 40);
}

/// A task that counts in a working register is preempted by another and
/// resumed; its count goes on from where it stood.
#[test]
fn a_counter_survives_preemption() {
    let mut counting = [0u32; 64];
    let mut other = [0u32; 64];
    let mut regs = Registers { saved: [0; 8], frame: [0, 0, 0, 0, 0, 0, 0x0800_0300, 0x0100_0000] };
    let mut sp = 64usize;
    let mut intruder = Registers { saved: [0xDEAD; 8], frame: [0xBEEF; 8] };
    let mut intruder_sp = 64usize;

    for round in 0..5u32 {
        for _ in 0..3 {
            regs.saved[0] += 1;
            regs.frame[SLOT_ENTRY] += 2;
        }
        let expected = regs;
        sp = suspend(&mut counting, sp, &regs);

        for w in intruder.saved.iter_mut() {
            *w = w.wrapping_mul(31).wrapping_add(round);
        }
        intruder_sp = suspend(&mut other, intruder_sp, &intruder);
        let (i, isp) = resume(&other, intruder_sp);
        intruder = i;
        intruder_sp = isp;

        let (back, after) = resume(&counting, sp);
        assert_eq!(back, expected);
        assert_eq!(back.saved[0], 3 * (round + 1));
        assert_eq!(back.frame[SLOT_ENTRY], 0x0800_0300 + 6 * (round + 1));
        assert_eq!(after, 64);
        regs = back;
        sp = after;
    }
}
