use rtos::task_man::{TaskID, TaskMan};
use rtos::tasks::{Task, TaskState};

#[derive(Clone, Copy, Debug, PartialEq)]
struct Plain {
    state: TaskState,
    sp: usize,
    prd: u32,
}

impl Task for Plain {
    fn state(&self) -> TaskState {
        self.state
    }
    fn stk_ptr(&self) -> usize {
        self.sp
    }
    fn prd(&self) -> u32 {
        self.prd
    }
    fn armed(&self) -> bool {
        true
    }
    fn run(&mut self) {}
    fn get_stk_ptr(&self) -> usize {
        self.sp
    }
    fn update_stk_ptr(&mut self, p: usize) {
        self.sp = p;
    }
    fn get_state(&self) -> TaskState {
        self.state
    }
    fn set_state(&mut self, s: TaskState) {
        self.state = s;
    }
    fn get_prd(&self) -> u32 {
        self.prd
    }
}

fn plain(state: TaskState, prd: u32) -> Plain {
    Plain { state, sp: 0, prd }
}

fn states<const N: usize>(tm: &TaskMan<Plain, N>) -> Vec<TaskState> {
    (0..N).map(|i| tm.get(TaskID::ID(i)).unwrap().get_state()).collect()
}

#[test]
fn new_starts_every_countdown_at_a_full_period() {
    let tm = TaskMan::new([plain(TaskState::Ready, 7), plain(TaskState::Ready, 5), plain(TaskState::Ready, 13)], 100);
    assert_eq!(tm.next_release_time(), 500);
    let one = TaskMan::new([plain(TaskState::Ready, 13)], 3);
    assert_eq!(one.next_release_time(), 39);
}

#[test]
fn new_keeps_the_tasks_in_the_order_given() {
    let tm = TaskMan::new([plain(TaskState::Ready, 7), plain(TaskState::Done, 5), plain(TaskState::PreInit, 13)], 1);
    assert_eq!(tm.get_pri(TaskID::ID(0)), Some(7));
    assert_eq!(tm.get_pri(TaskID::ID(1)), Some(5));
    assert_eq!(tm.get_pri(TaskID::ID(2)), Some(13));
    assert_eq!(states(&tm), vec![TaskState::Ready, TaskState::Done, TaskState::PreInit]);
}

#[test]
fn new_accepts_the_largest_reload_that_fits() {
    let tm = TaskMan::new([plain(TaskState::Ready, 1)], i32::MAX as u32);
    assert_eq!(tm.next_release_time(), 2147483647);
}

#[test]
fn get_current_is_the_first_running_slot() {
    let tm = TaskMan::new([plain(TaskState::Ready, 5), plain(TaskState::Running, 7), plain(TaskState::Running, 13)], 1);
    assert_eq!(tm.get_current(), Some(1));
    let idle = TaskMan::new([plain(TaskState::Ready, 5), plain(TaskState::Done, 7)], 1);
    assert_eq!(idle.get_current(), None);
}

#[test]
fn next_to_run_is_the_first_ready_or_suspended_slot() {
    let tm = TaskMan::new([plain(TaskState::Done, 5), plain(TaskState::Suspended, 7), plain(TaskState::Ready, 13)], 1);
    assert_eq!(tm.next_to_run(), Some(1));
    let tm = TaskMan::new([plain(TaskState::Running, 5), plain(TaskState::PreInit, 7), plain(TaskState::Ready, 13)], 1);
    assert_eq!(tm.next_to_run(), Some(2));
    let none = TaskMan::new([plain(TaskState::Running, 5), plain(TaskState::PreInit, 7), plain(TaskState::Done, 13)], 1);
    assert_eq!(none.next_to_run(), None);
}

#[test]
fn resolve_follows_each_selector() {
    let tm = TaskMan::new([plain(TaskState::Ready, 5), plain(TaskState::Running, 7), plain(TaskState::Done, 13)], 1);
    assert_eq!(tm.resolve(TaskID::Current), Some(1));
    assert_eq!(tm.resolve(TaskID::Next), Some(0));
    assert_eq!(tm.resolve(TaskID::ID(2)), Some(2));
    assert_eq!(tm.resolve(TaskID::ID(3)), None);
    assert_eq!(tm.resolve(TaskID::ID(usize::MAX)), None);
}

#[test]
fn set_state_changes_the_selected_slot_only() {
    let mut tm = TaskMan::new([plain(TaskState::Ready, 5), plain(TaskState::Running, 7), plain(TaskState::Done, 13)], 1);
    tm.set_state(TaskID::Current, TaskState::Suspended);
    assert_eq!(states(&tm), vec![TaskState::Ready, TaskState::Suspended, TaskState::Done]);
    tm.set_state(TaskID::Next, TaskState::Running);
    assert_eq!(states(&tm), vec![TaskState::Running, TaskState::Suspended, TaskState::Done]);
    tm.set_state(TaskID::ID(2), TaskState::Ready);
    assert_eq!(states(&tm), vec![TaskState::Running, TaskState::Suspended, TaskState::Ready]);
}

#[test]
fn selectors_that_stand_for_nothing_change_nothing() {
    let tasks = [plain(TaskState::Done, 5), plain(TaskState::Done, 7), plain(TaskState::PreInit, 13)];
    let mut tm = TaskMan::new(tasks, 2);
    let before: Vec<Plain> = (0..3).map(|i| *tm.get(TaskID::ID(i)).unwrap()).collect();
    let reload = tm.next_release_time();

    assert!(tm.get(TaskID::Current).is_none());
    assert!(tm.get(TaskID::Next).is_none());
    assert!(tm.get(TaskID::ID(3)).is_none());
    assert_eq!(tm.get_pri(TaskID::Current), None);
    assert_eq!(tm.get_pri(TaskID::Next), None);
    assert_eq!(tm.get_pri(TaskID::ID(3)), None);
    tm.set_state(TaskID::Current, TaskState::Running);
    tm.set_state(TaskID::Next, TaskState::Running);
    tm.set_state(TaskID::ID(3), TaskState::Running);
    tm.update_stk_ptr(TaskID::Current, 99);
    tm.update_stk_ptr(TaskID::Next, 99);
    tm.update_stk_ptr(TaskID::ID(7), 99);

    let after: Vec<Plain> = (0..3).map(|i| *tm.get(TaskID::ID(i)).unwrap()).collect();
    assert_eq!(before, after);
    assert_eq!(tm.next_release_time(), reload);
}

#[test]
fn get_pri_is_the_period_of_the_selected_slot() {
    let tm = TaskMan::new([plain(TaskState::Suspended, 5), plain(TaskState::Running, 7), plain(TaskState::Done, 13)], 1);
    assert_eq!(tm.get_pri(TaskID::Current), Some(7));
    assert_eq!(tm.get_pri(TaskID::Next), Some(5));
    assert_eq!(tm.get_pri(TaskID::ID(2)), Some(13));
}

#[test]
fn get_hands_out_the_selected_task() {
    let mut tm = TaskMan::new([plain(TaskState::Suspended, 5), plain(TaskState::Running, 7)], 1);
    tm.update_stk_ptr(TaskID::ID(1), 494);
    assert_eq!(*tm.get(TaskID::Current).unwrap(), Plain { state: TaskState::Running, sp: 494, prd: 7 });
    assert_eq!(*tm.get(TaskID::Next).unwrap(), Plain { state: TaskState::Suspended, sp: 0, prd: 5 });
    assert_eq!(tm.get(TaskID::ID(0)).unwrap().get_stk_ptr(), 0);
}

#[test]
fn update_stk_ptr_records_the_pointer_for_the_selected_slot() {
    let mut tm = TaskMan::new([plain(TaskState::Ready, 5), plain(TaskState::Running, 7)], 1);
    tm.update_stk_ptr(TaskID::Current, 480);
    tm.update_stk_ptr(TaskID::Next, 470);
    assert_eq!(tm.get(TaskID::ID(1)).unwrap().get_stk_ptr(), 480);
    assert_eq!(tm.get(TaskID::ID(0)).unwrap().get_stk_ptr(), 470);
    assert_eq!(states(&tm), vec![TaskState::Ready, TaskState::Running]);
}

#[test]
fn update_release_counts_down_by_the_ticks_elapsed() {
    let mut tm = TaskMan::new([plain(TaskState::Ready, 5)], 10);
    assert_eq!(tm.next_release_time(), 50);
    tm.update_release(20);
    assert_eq!(tm.next_release_time(), 30);
    tm.update_release(0);
    assert_eq!(tm.next_release_time(), 30);
    assert_eq!(states(&tm), vec![TaskState::Ready]);
}

#[test]
fn update_release_releases_a_done_task_whose_countdown_ran_out() {
    let mut tm = TaskMan::new([plain(TaskState::Done, 5)], 10);
    tm.update_release(49);
    assert_eq!(states(&tm), vec![TaskState::Done]);
    assert_eq!(tm.next_release_time(), 1);
    tm.update_release(1);
    assert_eq!(states(&tm), vec![TaskState::Ready]);
    assert_eq!(tm.next_release_time(), 50);
}

#[test]
fn update_release_leaves_an_unfinished_task_overdue() {
    let mut tm = TaskMan::new([plain(TaskState::Running, 5)], 10);
    tm.update_release(60);
    assert_eq!(states(&tm), vec![TaskState::Running]);
    assert_eq!(tm.next_release_time(), 4294967286);
    tm.set_state(TaskID::ID(0), TaskState::Done);
    tm.update_release(0);
    assert_eq!(states(&tm), vec![TaskState::Ready]);
    assert_eq!(tm.next_release_time(), 50);
}

#[test]
fn update_release_releases_as_soon_as_noticed_after_a_gap() {
    let mut tm = TaskMan::new([plain(TaskState::Done, 5)], 1);
    tm.update_release(17);
    assert_eq!(states(&tm), vec![TaskState::Ready]);
    assert_eq!(tm.next_release_time(), 5);
}

#[test]
fn update_release_stops_a_countdown_at_the_least_value() {
    let mut tm = TaskMan::new([plain(TaskState::Suspended, 5)], 10);
    tm.update_release(u32::MAX);
    assert_eq!(tm.next_release_time(), 2147483648);
    tm.update_release(u32::MAX);
    assert_eq!(tm.next_release_time(), 2147483648);
    tm.update_release(1);
    assert_eq!(tm.next_release_time(), 2147483648);
}

#[test]
fn update_release_treats_every_slot_on_its_own() {
    let mut tm = TaskMan::new([plain(TaskState::Done, 5), plain(TaskState::Done, 7), plain(TaskState::Running, 5), plain(TaskState::PreInit, 2)], 1);
    tm.update_release(5);
    assert_eq!(states(&tm), vec![TaskState::Ready, TaskState::Done, TaskState::Running, TaskState::PreInit]);
    assert_eq!(tm.next_release_time(), 4294967293);
    tm.update_release(2);
    assert_eq!(states(&tm), vec![TaskState::Ready, TaskState::Ready, TaskState::Running, TaskState::PreInit]);
}

#[test]
fn next_release_time_is_the_least_countdown() {
    let mut tm = TaskMan::new([plain(TaskState::Done, 13), plain(TaskState::Done, 7), plain(TaskState::Done, 5)], 1);
    assert_eq!(tm.next_release_time(), 5);
    tm.update_release(5);
    assert_eq!(tm.next_release_time(), 2);
    tm.update_release(2);
    assert_eq!(tm.next_release_time(), 3);
    tm.update_release(3);
    assert_eq!(tm.next_release_time(), 0);
    assert_eq!(states(&tm), vec![TaskState::Done, TaskState::Ready, TaskState::Ready]);
}

#[test]
fn task_states_know_their_life_cycle() {
    let all = [TaskState::PreInit, TaskState::Ready, TaskState::Running, TaskState::Suspended, TaskState::Done];
    let edges = [
        (TaskState::PreInit, TaskState::Ready),
        (TaskState::Ready, TaskState::Running),
        (TaskState::Suspended, TaskState::Running),
        (TaskState::Running, TaskState::Suspended),
        (TaskState::Running, TaskState::Done),
        (TaskState::Done, TaskState::Ready),
        (TaskState::Suspended, TaskState::Ready),
    ];
    for a in all {
        for b in all {
            assert_eq!(a.can_step_to(b), edges.contains(&(a, b)), "{:?} -> {:?}", a, b);
        }
        assert_eq!(a.is_runnable(), a == TaskState::Ready || a == TaskState::Suspended);
    }
}

#[test]
fn a_table_knows_whether_it_is_in_priority_order() {
    let ordered = TaskMan::new([plain(TaskState::Ready, 5), plain(TaskState::Ready, 7), plain(TaskState::Ready, 7), plain(TaskState::Ready, 13)], 1);
    assert!(ordered.is_priority_ordered());
    let mixed = TaskMan::new([plain(TaskState::Ready, 7), plain(TaskState::Ready, 5), plain(TaskState::Ready, 13)], 1);
    assert!(!mixed.is_priority_ordered());
    let late = TaskMan::new([plain(TaskState::Ready, 5), plain(TaskState::Ready, 13), plain(TaskState::Ready, 7)], 1);
    assert!(!late.is_priority_ordered());
    let one = TaskMan::new([plain(TaskState::Ready, 9)], 1);
    assert!(one.is_priority_ordered());
}

#[test]
fn out_of_priority_order_the_table_order_decides() {
    let tm = TaskMan::new([plain(TaskState::Ready, 7), plain(TaskState::Ready, 5), plain(TaskState::Ready, 13)], 1);
    assert_eq!(tm.next_to_run(), Some(0));
    assert_eq!(tm.get_pri(TaskID::Next), Some(7));
}
