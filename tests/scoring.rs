use tetris::resources::{score, Movement, MovementSet, SpeedTimer, Status, Timer};
use tetris::systems::{drop, update_speed};

#[test]
fn score_table_at_level_one_and_two() {
    assert_eq!(score(0, 1), 0);
    assert_eq!(score(1, 1), 100);
    assert_eq!(score(2, 1), 250);
    assert_eq!(score(3, 1), 500);
    assert_eq!(score(4, 1), 1000);
    assert_eq!(score(5, 1), 0);
    for lines in 1..=4 {
        assert_eq!(score(lines, 2), 2 * score(lines, 1));
    }
    assert_eq!(score(4, usize::MAX), usize::MAX);
}

#[test]
fn record_clear_scores_at_the_current_level() {
    for (lines, delta) in [(1, 100), (2, 250), (3, 500), (4, 1000)] {
        let mut s = Status::new();
        s.record_clear(lines);
        assert_eq!(s.score, delta);
        let mut t = Status::new();
        t.level = 2;
        t.lines = 10;
        t.record_clear(lines);
        assert_eq!(t.score, 2 * delta);
    }
}

#[test]
fn level_follows_lines_and_never_drops() {
    let mut s = Status::new();
    let mut last = s.level;
    for count in [0, 4, 3, 2, 1, 4, 4, 0, 3, 2, 4, 4, 1] {
        s.record_clear(count);
        assert!(s.level >= last);
        assert_eq!(s.level, std::cmp::max(1, 1 + s.lines / 10));
        last = s.level;
    }
    assert_eq!(s.lines, 32);
    assert_eq!(s.level, 4);
}

#[test]
fn level_score_and_lines_saturate() {
    let mut s = Status::new();
    s.lines = usize::MAX - 1;
    s.level = 1 + s.lines / 10;
    s.score = usize::MAX - 5;
    s.record_clear(4);
    assert_eq!(s.lines, usize::MAX);
    assert_eq!(s.score, usize::MAX);
    assert_eq!(s.level, 1 + usize::MAX / 10);
}

#[test]
fn intents_collapse_into_a_set() {
    let mut m = MovementSet::new();
    m.insert(Movement::Left);
    m.insert(Movement::Left);
    assert!(m.contains(Movement::Left));
    assert!(!m.contains(Movement::Right));
    m.clear();
    assert!(!m.contains(Movement::Left));
}

#[test]
fn timer_fires_once_and_keeps_the_excess() {
    let mut t = Timer::new(200);
    assert!(!t.tick(150));
    assert_eq!(t.elapsed_ms, 150);
    assert!(t.tick(100));
    assert_eq!(t.elapsed_ms, 50);
    assert!(t.tick(1000));
    assert_eq!(t.elapsed_ms, 50);
}

#[test]
fn gravity_timer_queues_down() {
    let mut timer = SpeedTimer(Timer::new(800));
    let mut status = Status::new();
    drop(&mut timer, 500, &mut status);
    assert!(!status.next_movements.contains(Movement::Down));
    drop(&mut timer, 300, &mut status);
    assert!(status.next_movements.contains(Movement::Down));
}

#[test]
fn gravity_speeds_up_with_level() {
    let mut timer = SpeedTimer(Timer::new(800));
    let mut status = Status::new();
    update_speed(&mut timer, &status);
    assert_eq!(timer.0.period_ms, 950);
    status.level = 10;
    update_speed(&mut timer, &status);
    assert_eq!(timer.0.period_ms, 500);
    status.level = 19;
    update_speed(&mut timer, &status);
    assert_eq!(timer.0.period_ms, 50);
    status.level = 20;
    update_speed(&mut timer, &status);
    assert_eq!(timer.0.period_ms, 10);
    status.level = usize::MAX;
    update_speed(&mut timer, &status);
    assert_eq!(timer.0.period_ms, 10);
}
