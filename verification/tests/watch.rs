use deck::watch::{count_signals, watch_set, Debouncer, QUIET_PERIOD_MS};

fn watcher() -> Debouncer {
    Debouncer::new(vec!["deck.md".to_string(), "deck.css".to_string()], 200)
}

#[test]
fn change_of_a_watched_path_sets_the_timer() {
    let mut debouncer = watcher();
    assert_eq!(debouncer.deadline(), None);
    assert_eq!(debouncer.on_event("deck.md", 1000), Some(1200));
    assert_eq!(debouncer.deadline(), Some(1200));
}

#[test]
fn change_of_another_path_is_ignored() {
    let mut debouncer = watcher();
    assert!(!debouncer.watches("other.md"));
    assert!(debouncer.watches("deck.css"));
    assert_eq!(debouncer.on_event("other.md", 1000), None);
    assert_eq!(debouncer.deadline(), None);
    assert!(!debouncer.on_timer(5000));
    assert_eq!(debouncer.on_event("deck.md", 1000), Some(1200));
    assert_eq!(debouncer.on_event("Deck.md", 1100), None);
    assert_eq!(debouncer.deadline(), Some(1200));
}

#[test]
fn burst_of_changes_is_signalled_once() {
    let mut debouncer = watcher();
    let mut signals = 0;
    for now in [1000u64, 1050, 1100, 1150, 1299] {
        if debouncer.on_timer(now) {
            signals += 1;
        }
        debouncer.on_event("deck.md", now);
    }
    assert_eq!(debouncer.deadline(), Some(1499));
    assert!(!debouncer.on_timer(1498));
    if debouncer.on_timer(1499) {
        signals += 1;
    }
    assert_eq!(signals, 1);
    assert_eq!(debouncer.deadline(), None);
    assert!(!debouncer.on_timer(2000));
}

#[test]
fn spaced_changes_are_signalled_one_by_one() {
    let mut debouncer = watcher();
    let mut signals = 0;
    for now in [1000u64, 1201, 1500, 3000] {
        if debouncer.on_timer(now) {
            signals += 1;
        }
        debouncer.on_event("deck.css", now);
    }
    if debouncer.on_timer(3200) {
        signals += 1;
    }
    assert_eq!(signals, 4);
}

#[test]
fn timer_that_was_set_anew_does_not_fire_early() {
    let mut debouncer = watcher();
    debouncer.on_event("deck.md", 1000);
    debouncer.on_event("deck.md", 1100);
    assert!(!debouncer.on_timer(1200));
    assert_eq!(debouncer.deadline(), Some(1300));
    assert!(debouncer.on_timer(1300));
}

#[test]
fn deadline_stops_at_the_end_of_the_clock() {
    let mut debouncer = watcher();
    assert_eq!(debouncer.on_event("deck.md", u64::MAX - 10), Some(u64::MAX));
    assert!(!debouncer.on_timer(u64::MAX - 1));
    assert!(debouncer.on_timer(u64::MAX));
}

#[test]
fn watcher_of_nothing_ignores_everything() {
    let mut debouncer = Debouncer::new(Vec::new(), 100);
    assert_eq!(debouncer.on_event("deck.md", 0), None);
    assert!(!debouncer.on_timer(u64::MAX));
}

#[test]
fn watch_set_holds_the_paths_that_are_given() {
    assert_eq!(watch_set("deck.md".to_string(), None, None), vec!["deck.md".to_string()]);
    assert_eq!(
        watch_set("deck.md".to_string(), None, Some("deck.js".to_string())),
        vec!["deck.md".to_string(), "deck.js".to_string()]
    );
    assert_eq!(
        watch_set("deck.md".to_string(), Some("deck.css".to_string()), Some("deck.js".to_string())),
        vec!["deck.md".to_string(), "deck.css".to_string(), "deck.js".to_string()]
    );
}

#[test]
fn time_left_runs_down_to_nothing() {
    let mut debouncer = Debouncer::new(vec!["deck.md".to_string()], QUIET_PERIOD_MS);
    assert_eq!(debouncer.time_left(0), None);
    debouncer.on_event("deck.md", 1000);
    assert_eq!(debouncer.time_left(1000), Some(200));
    assert_eq!(debouncer.time_left(1150), Some(50));
    assert_eq!(debouncer.time_left(1200), Some(0));
    assert_eq!(debouncer.time_left(5000), Some(0));
    assert!(debouncer.on_timer(1200));
    assert_eq!(debouncer.time_left(1200), None);
}

#[test]
fn signals_are_counted_for_a_run_of_changes() {
    let paths = || vec!["deck.md".to_string()];
    assert_eq!(count_signals(paths(), 200, "deck.md", &vec![1000, 1050, 1100, 1299]), 1);
    assert_eq!(count_signals(paths(), 200, "deck.md", &vec![1000, 1201, 1500, 3000]), 4);
    assert_eq!(count_signals(paths(), 200, "deck.md", &vec![1000, 1100, 1400, 1500]), 2);
    assert_eq!(count_signals(paths(), 200, "deck.md", &vec![1000, 1200]), 2);
    assert_eq!(count_signals(paths(), 200, "deck.md", &vec![7]), 1);
    assert_eq!(count_signals(paths(), 200, "deck.md", &Vec::new()), 0);
    assert_eq!(count_signals(paths(), 200, "other.md", &vec![1000, 2000]), 0);
}
