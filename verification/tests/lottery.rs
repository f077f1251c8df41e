use coroutine_scheduler::countdown::Countdown;
use coroutine_scheduler::lottery::Lottery;
use coroutine_scheduler::task_list::TaskList;
use coroutine_scheduler::tasks::Task;

#[test]
fn single_task_wins_every_draw() {
    for _ in 0..200 {
        let mut l = Lottery::<Countdown>::new();
        l.add(Task::new(Countdown::new(1, false), 7));
        let t = l.peek().expect("the sole task should be returned");
        assert_eq!(t.priority(), 7);
        assert!(l.is_empty());
    }
}

#[test]
fn empty_lottery_yields_nothing() {
    let mut l = Lottery::<Countdown>::new();
    assert!(l.peek().is_none());
    assert!(l.is_empty());
}

// The draw lies in [0, total) and the scan takes the first position
// whose accumulated count reaches it, so the first-scanned task
// effectively owns one ticket more than its priority and the
// last-scanned one fewer.

#[test]
fn weighted_selection_with_priorities_one_and_three() {
    // first task: draws {0, 1} of 4; second task: draws {2, 3} of 4
    let trials = 10_000u32;
    let mut second_wins = 0u32;
    for _ in 0..trials {
        let mut l = Lottery::<Countdown>::new();
        l.add(Task::new(Countdown::new(1, false), 1));
        l.add(Task::new(Countdown::new(1, false), 3));
        let t = l.peek().expect("a task should be returned");
        if t.priority() == 3 {
            second_wins += 1;
        }
    }
    // expected 5000 of 10000; the band is about seven standard deviations
    assert!(
        4650 < second_wins && second_wins < 5350,
        "the heavier task won {} of {} trials",
        second_wins,
        trials
    );
}

#[test]
fn weighted_selection_with_priorities_one_and_seven() {
    // first task: draws {0, 1} of 8; second task: draws {2, ..., 7}
    let trials = 10_000u32;
    let mut second_wins = 0u32;
    for _ in 0..trials {
        let mut l = Lottery::<Countdown>::new();
        l.add(Task::new(Countdown::new(1, false), 1));
        l.add(Task::new(Countdown::new(1, false), 7));
        let t = l.peek().expect("a task should be returned");
        if t.priority() == 7 {
            second_wins += 1;
        }
    }
    // expected 7500 of 10000; the band is about seven standard deviations
    assert!(
        7200 < second_wins && second_wins < 7800,
        "the heavier task won {} of {} trials",
        second_wins,
        trials
    );
}

#[test]
fn every_resident_task_is_eventually_served() {
    let mut l = Lottery::<Countdown>::new();
    for p in 1..=4i64 {
        l.add(Task::new(Countdown::new(1, false), p));
    }
    let mut seen = vec![false; 5];
    for _ in 0..4 {
        let t = l.peek().expect("a task should be returned");
        seen[t.priority() as usize] = true;
    }
    assert!(l.is_empty());
    assert_eq!(seen, vec![false, true, true, true, true]);
}
