use rtos::tasks::accel::AccelTask;
use rtos::tasks::board::BoardTask;
use rtos::tasks::gyro::GyroTask;
use rtos::tasks::led::{Led, LedPin, LedTask};
use rtos::tasks::{I16x3, Task, TaskState};

fn low() -> LedPin {
    LedPin { high: false }
}

fn high() -> LedPin {
    LedPin { high: true }
}

fn reading(n: i16) -> I16x3 {
    I16x3 { x: n, y: -n, z: 2 * n }
}

fn zero() -> I16x3 {
    I16x3 { x: 0, y: 0, z: 0 }
}

#[test]
fn a_new_led_is_on_record_as_off_whatever_its_pin_shows() {
    let l = Led::from(low());
    assert!(!l.is_lit());
    assert!(!l.is_high());
    let l = Led::from(high());
    assert!(!l.is_lit());
    assert!(l.is_high());
}

#[test]
fn on_and_off_drive_the_pin_and_leave_the_record() {
    let mut l = Led::from(low());
    l.on();
    assert!(l.is_high());
    assert!(!l.is_lit());
    l.off();
    assert!(!l.is_high());
    assert!(!l.is_lit());
    l.toggle();
    l.off();
    assert!(!l.is_high());
    assert!(l.is_lit());
}

#[test]
fn toggle_switches_the_led_over() {
    let mut l = Led::from(low());
    l.toggle();
    assert!(l.is_lit());
    assert!(l.is_high());
    l.toggle();
    assert!(!l.is_lit());
    assert!(!l.is_high());
    l.toggle();
    assert!(l.is_lit());
    assert!(l.is_high());
}

#[test]
fn toggle_goes_by_the_record_not_by_the_pin() {
    let mut l = Led::from(high());
    l.toggle();
    assert!(l.is_lit());
    assert!(l.is_high());
    l.off();
    l.toggle();
    assert!(!l.is_lit());
    assert!(!l.is_high());
}

#[test]
fn a_default_led_task_waits_for_init() {
    let t = LedTask::default();
    assert_eq!(t.get_state(), TaskState::PreInit);
    assert_eq!(t.get_prd(), 13);
    assert_eq!(t.get_stk_ptr(), 0);
    assert_eq!(t.led_lit(0), None);
    assert_eq!(t.led_high(7), None);
    assert_eq!(t.stack_word(0), Some(0));
    assert_eq!(t.stack_word(511), Some(0));
    assert_eq!(t.stack_word(512), None);
}

#[test]
fn led_task_init_builds_the_first_frame_and_marks_the_task_ready() {
    let mut t = LedTask::default();
    t.init(low(), high(), low(), high(), low(), low(), low(), high(), 0x2000_0800, 0x0800_0401);
    assert_eq!(t.get_state(), TaskState::Ready);
    assert_eq!(t.get_prd(), 13);
    assert_eq!(t.get_stk_ptr(), 494);
    for k in 0..512 {
        let expected = match k {
            502 => 0x2000_0800,
            508 => 0x0800_0401,
            509 => 0x2100_0000,
            _ => 0,
        };
        assert_eq!(t.stack_word(k), Some(expected), "word {}", k);
    }
    let pins = [false, true, false, true, false, false, false, true];
    for k in 0..8 {
        assert_eq!(t.led_lit(k), Some(false));
        assert_eq!(t.led_high(k), Some(pins[k]));
    }
    assert_eq!(t.led_lit(8), None);
    assert_eq!(t.led_high(8), None);
}

#[test]
fn led_task_run_switches_every_led_over() {
    let mut t = LedTask::default();
    t.init(low(), low(), low(), low(), low(), low(), low(), low(), 1, 2);
    t.run();
    for k in 0..8 {
        assert_eq!(t.led_lit(k), Some(true));
        assert_eq!(t.led_high(k), Some(true));
    }
    t.run();
    for k in 0..8 {
        assert_eq!(t.led_lit(k), Some(false));
        assert_eq!(t.led_high(k), Some(false));
    }
    assert_eq!(t.get_state(), TaskState::Ready);
    assert_eq!(t.get_stk_ptr(), 494);
    assert_eq!(t.stack_word(508), Some(2));
}

#[test]
fn the_scheduling_record_of_a_task_is_set_and_read_back() {
    let mut t = LedTask::default();
    t.set_state(TaskState::Suspended);
    t.update_stk_ptr(300);
    assert_eq!(t.get_state(), TaskState::Suspended);
    assert_eq!(t.get_stk_ptr(), 300);
    assert_eq!(t.get_prd(), 13);

    let mut a = AccelTask::default();
    a.set_state(TaskState::Done);
    a.update_stk_ptr(17);
    assert_eq!(a.get_state(), TaskState::Done);
    assert_eq!(a.get_stk_ptr(), 17);
    assert_eq!(a.get_prd(), 5);

    let mut g = GyroTask::default();
    g.set_state(TaskState::Running);
    g.update_stk_ptr(18);
    assert_eq!(g.get_state(), TaskState::Running);
    assert_eq!(g.get_stk_ptr(), 18);
    assert_eq!(g.get_prd(), 7);
}

#[test]
fn a_default_accel_task_waits_for_init() {
    let mut t = AccelTask::default();
    assert_eq!(t.get_state(), TaskState::PreInit);
    assert_eq!(t.get_prd(), 5);
    assert_eq!(t.get_stk_ptr(), 0);
    assert_eq!(t.head(), 0);
    assert_eq!(t.sample(0), Some(zero()));
    assert_eq!(t.sample(15), Some(zero()));
    assert_eq!(t.sample(16), None);
    t.measure(reading(3));
    t.init(1, 2);
    t.run();
    assert_eq!(t.sample(0), Some(zero()));
    assert_eq!(t.head(), 1);
}

#[test]
fn accel_task_init_builds_the_first_frame_and_marks_the_task_ready() {
    let mut t = AccelTask::default();
    t.init(0x2000_0000, 0x0800_0101);
    assert_eq!(t.get_state(), TaskState::Ready);
    assert_eq!(t.get_stk_ptr(), 494);
    assert_eq!(t.stack_word(502), Some(0x2000_0000));
    assert_eq!(t.stack_word(508), Some(0x0800_0101));
    assert_eq!(t.stack_word(509), Some(0x2100_0000));
    assert_eq!(t.stack_word(494), Some(0));
    assert_eq!(t.stack_word(512), None);
}

#[test]
fn accel_task_keeps_sixteen_readings_and_wraps() {
    let mut t = AccelTask::default();
    t.init(1, 2);
    for n in 1..=16i16 {
        assert_eq!(t.head(), (n - 1) as usize);
        t.measure(reading(n));
        t.run();
    }
    assert_eq!(t.head(), 0);
    for k in 0..16usize {
        assert_eq!(t.sample(k), Some(reading(k as i16 + 1)));
    }
    t.measure(reading(100));
    t.run();
    assert_eq!(t.head(), 1);
    assert_eq!(t.sample(0), Some(reading(100)));
    assert_eq!(t.sample(1), Some(reading(2)));
    assert_eq!(t.get_state(), TaskState::Ready);
    assert_eq!(t.get_stk_ptr(), 494);
}

#[test]
fn a_task_keeps_the_last_measurement_until_the_next() {
    let mut t = GyroTask::default();
    t.init(1, 2);
    t.measure(reading(9));
    t.run();
    t.run();
    assert_eq!(t.sample(0), Some(reading(9)));
    assert_eq!(t.sample(1), Some(reading(9)));
    assert_eq!(t.sample(2), Some(zero()));
}

#[test]
fn gyro_task_keeps_eight_readings_and_wraps() {
    let mut t = GyroTask::default();
    assert_eq!(t.get_state(), TaskState::PreInit);
    assert_eq!(t.get_prd(), 7);
    assert_eq!(t.sample(7), Some(zero()));
    assert_eq!(t.sample(8), None);
    t.init(0x2000_1000, 0x0800_0201);
    assert_eq!(t.get_state(), TaskState::Ready);
    assert_eq!(t.get_stk_ptr(), 494);
    assert_eq!(t.stack_word(502), Some(0x2000_1000));
    assert_eq!(t.stack_word(508), Some(0x0800_0201));
    assert_eq!(t.stack_word(509), Some(0x2100_0000));
    for n in 1..=9i16 {
        t.measure(reading(n));
        t.run();
    }
    assert_eq!(t.head(), 1);
    assert_eq!(t.sample(0), Some(reading(9)));
    for k in 1..8usize {
        assert_eq!(t.sample(k), Some(reading(k as i16 + 1)));
    }
}

#[test]
fn a_board_task_is_the_task_it_holds() {
    let mut a = AccelTask::default();
    a.init(1, 2);
    a.measure(reading(4));
    let mut t = BoardTask::Accel(a);
    assert_eq!(t.get_prd(), 5);
    assert_eq!(t.get_state(), TaskState::Ready);
    assert_eq!(t.get_stk_ptr(), 494);
    t.set_state(TaskState::Running);
    t.update_stk_ptr(400);
    t.run();
    match &t {
        BoardTask::Accel(a) => {
            assert_eq!(a.sample(0), Some(reading(4)));
            assert_eq!(a.get_state(), TaskState::Running);
            assert_eq!(a.get_stk_ptr(), 400);
        }
        _ => panic!("the kind of a task changed"),
    }

    let mut l = LedTask::default();
    l.init(low(), low(), low(), low(), low(), low(), low(), low(), 1, 2);
    let mut t = BoardTask::Led(l);
    assert_eq!(t.get_prd(), 13);
    t.run();
    match &t {
        BoardTask::Led(l) => assert_eq!(l.led_lit(3), Some(true)),
        _ => panic!("the kind of a task changed"),
    }

    let mut g = GyroTask::default();
    g.init(1, 2);
    let mut t = BoardTask::Gyro(g);
    assert_eq!(t.get_prd(), 7);
    t.run();
    match &t {
        BoardTask::Gyro(g) => assert_eq!(g.head(), 1),
        _ => panic!("the kind of a task changed"),
    }
}
