use typed_timers::{Status, Timer, Timers};

#[test]
fn default_status_is_zero() {
    assert_eq!(Status::default(), Status { count: 0, total: 0 });
}

#[test]
fn new_timer_reads_zero() {
    let timer = Timer::default();
    assert_eq!(timer.status_nonatomic(), Status { count: 0, total: 0 });
}

#[test]
fn timer_counts_events_and_sums_amounts() {
    let mut timer = Timer::default();
    timer.add(233);
    assert_eq!(timer.status_nonatomic(), Status { count: 1, total: 233 });
    timer.add(2100);
    assert_eq!(timer.status_nonatomic(), Status { count: 2, total: 2333 });
    timer.add(0);
    assert_eq!(timer.status_nonatomic(), Status { count: 3, total: 2333 });
}

#[test]
fn timer_total_wraps_around() {
    let mut timer = Timer::default();
    timer.add(u64::MAX);
    assert_eq!(timer.status_nonatomic(), Status { count: 1, total: u64::MAX });
    timer.add(1);
    assert_eq!(timer.status_nonatomic(), Status { count: 2, total: 0 });
    timer.add(u64::MAX);
    timer.add(u64::MAX);
    assert_eq!(timer.status_nonatomic(), Status { count: 4, total: u64::MAX - 1 });
}

#[test]
fn equal_events_multiply() {
    let mut timer = Timer::default();
    for _ in 0..4000 {
        timer.add(25);
    }
    assert_eq!(timer.status_nonatomic(), Status { count: 4000, total: 100_000 });
}

#[test]
fn empty_bank_has_empty_status() {
    let timers = Timers::new(0);
    assert_eq!(timers.status(), Vec::<Status>::new());
    assert_eq!(timers.status(), Vec::<Status>::new());
}

#[test]
fn new_bank_is_all_zero() {
    let timers = Timers::new(4);
    assert_eq!(timers.status(), vec![Status { count: 0, total: 0 }; 4]);
}

#[test]
fn bank_add_is_isolated() {
    let mut timers = Timers::new(3);
    timers.add(1, 9);
    assert_eq!(
        timers.status(),
        vec![
            Status { count: 0, total: 0 },
            Status { count: 1, total: 9 },
            Status { count: 0, total: 0 }
        ]
    );
    timers.add(2, 1);
    timers.add(1, 1);
    timers.add(0, 100);
    assert_eq!(
        timers.status(),
        vec![
            Status { count: 1, total: 100 },
            Status { count: 2, total: 10 },
            Status { count: 1, total: 1 }
        ]
    );
}

#[test]
fn bank_adds_at_different_indices_commute() {
    let mut one = Timers::new(2);
    one.add(0, 3);
    one.add(1, 4);
    let mut other = Timers::new(2);
    other.add(1, 4);
    other.add(0, 3);
    assert_eq!(one.status(), other.status());
}

#[test]
fn bank_timer_handle_writes_through() {
    let mut timers = Timers::new(2);
    timers.timer(1).add(10);
    timers.timer(1).add(20);
    assert_eq!(timers.timer(1).status_nonatomic(), Status { count: 2, total: 30 });
    assert_eq!(timers.timer(0).status_nonatomic(), Status { count: 0, total: 0 });
    assert_eq!(
        timers.status(),
        vec![Status { count: 0, total: 0 }, Status { count: 2, total: 30 }]
    );
}

#[test]
fn bank_scenario_in_index_order() {
    let mut timers = Timers::new(2);
    timers.add(0, 10);
    timers.add(0, 20);
    timers.add(0, 30);
    timers.add(1, 5);
    assert_eq!(
        timers.status(),
        vec![Status { count: 3, total: 60 }, Status { count: 1, total: 5 }]
    );
}

#[test]
fn bank_length_is_what_it_was_made_with() {
    assert_eq!(Timers::new(0).len(), 0);
    assert_eq!(Timers::new(1).len(), 1);
    let mut timers = Timers::new(7);
    timers.add(6, 1);
    assert_eq!(timers.len(), 7);
    assert_eq!(timers.status().len(), 7);
}
