use std::hash::RandomState;
use storage_map::table::Table;

fn u64_table() -> Table<u64, u64, RandomState> {
    Table::with_hasher(RandomState::new())
}

#[test]
fn commit_keeps_first_value() {
    let mut t = u64_table();
    assert!(!t.contains(&1));
    t.commit(&1, 10);
    assert_eq!(t.get(&1), Some(&10));
    t.commit(&1, 20);
    assert_eq!(t.get(&1), Some(&10));
    assert_eq!(t.len(), 1);
}

#[test]
fn racing_commits_converge_on_first() {
    // Several callers raced on the same absent key; their commits run in
    // this order under the exclusive lock. The first wins, the rest are
    // discarded.
    let mut t = u64_table();
    for v in [100u64, 200, 300, 400, 500] {
        t.commit(&9, v);
    }
    assert_eq!(t.get(&9), Some(&100));
    assert_eq!(t.len(), 1);
}

#[test]
fn store_overwrites_last_writer_wins() {
    // The documented race of the conditional insertion: both callers see the
    // key absent, both produce a value, and both commit unconditionally. The
    // later commit wins, and exactly one of the two values is stored.
    let mut t = u64_table();
    let first_sees_absent = !t.contains(&5);
    let second_sees_absent = !t.contains(&5);
    assert!(first_sees_absent && second_sees_absent);
    t.store(&5, 111);
    t.store(&5, 222);
    assert_eq!(t.get(&5), Some(&222));
    assert_eq!(t.len(), 1);
}

#[test]
fn distinct_keys_do_not_interfere() {
    let mut t = u64_table();
    t.commit(&1, 10);
    t.commit(&2, 20);
    t.store(&2, 21);
    assert_eq!(t.get(&1), Some(&10));
    assert_eq!(t.get(&2), Some(&21));
    assert_eq!(t.get(&3), None);
    assert_eq!(t.len(), 2);
}

#[test]
fn empty_table_reads() {
    let t = u64_table();
    assert_eq!(t.len(), 0);
    assert!(!t.contains(&0));
    assert_eq!(t.get(&0), None);
}
