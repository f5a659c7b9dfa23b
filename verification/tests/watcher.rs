use reflex_arcade::signals::Filter;
use reflex_arcade::watch::WatcherTable;
use reflex_arcade::watch::resource_changed;

const LIFE_PATH: u64 = 0;

#[test]
fn watch_resolves_only_on_a_real_change() {
    let mut table = WatcherTable::new();
    resource_changed(&mut table, 1, LIFE_PATH, Filter::NotEqualTo(3));
    // first observation: 3, rejected by the filter, merely remembered
    assert_eq!(table.tick(LIFE_PATH, 3), Vec::<u64>::new());
    // unchanged read: no spurious resolution
    assert_eq!(table.tick(LIFE_PATH, 3), Vec::<u64>::new());
    assert_eq!(table.len(), 1);
    // a real change to an accepted value fires
    assert_eq!(table.tick(LIFE_PATH, 2), vec![1]);
    assert_eq!(table.len(), 0);
    // a resolved watch never fires again
    assert_eq!(table.tick(LIFE_PATH, 1), Vec::<u64>::new());
}

#[test]
fn independently_filtered_watches_share_a_field() {
    let mut table = WatcherTable::new();
    resource_changed(&mut table, 1, LIFE_PATH, Filter::EqualTo(0));
    resource_changed(&mut table, 2, LIFE_PATH, Filter::NotEqualTo(3));
    assert_eq!(table.tick(LIFE_PATH, 3), Vec::<u64>::new());
    // one life lost: only the baseline watch fires
    assert_eq!(table.tick(LIFE_PATH, 2), vec![2]);
    assert_eq!(table.len(), 1);
    // lives exhausted: the game-over watch fires
    assert_eq!(table.tick(LIFE_PATH, 0), vec![1]);
    assert_eq!(table.len(), 0);
}

#[test]
fn cancel_watch_is_idempotent() {
    let mut table = WatcherTable::new();
    resource_changed(&mut table, 1, LIFE_PATH, Filter::Always);
    table.cancel_watch(1);
    assert_eq!(table.len(), 0);
    table.cancel_watch(1);
    assert_eq!(table.len(), 0);
    table.cancel_watch(9);
    assert_eq!(table.len(), 0);
    assert_eq!(table.tick(LIFE_PATH, 5), Vec::<u64>::new());
}

#[test]
fn a_tick_leaves_other_paths_untouched() {
    let mut table = WatcherTable::new();
    resource_changed(&mut table, 1, LIFE_PATH, Filter::Always);
    resource_changed(&mut table, 2, 1, Filter::Always);
    let fired = table.tick(LIFE_PATH, 7);
    assert_eq!(fired, vec![1]);
    assert_eq!(table.len(), 1);
    assert_eq!(table.tick(1, 7), vec![2]);
}

#[test]
fn first_observed_value_counts_as_a_change() {
    let mut table = WatcherTable::new();
    resource_changed(&mut table, 1, LIFE_PATH, Filter::EqualTo(0));
    // the field is already 0 when first observed: the watch fires at once
    assert_eq!(table.tick(LIFE_PATH, 0), vec![1]);
}

#[test]
fn resolved_reflects_the_last_observed_value() {
    let unseen = reflex_arcade::watch::ValueWatcher {
        promise: 1,
        path: LIFE_PATH,
        filter: Filter::EqualTo(0),
        last: None,
    };
    assert!(!unseen.resolved());
    let seen_wrong = reflex_arcade::watch::ValueWatcher { last: Some(2), ..unseen };
    assert!(!seen_wrong.resolved());
    let seen_right = reflex_arcade::watch::ValueWatcher { last: Some(0), ..unseen };
    assert!(seen_right.resolved());
}
