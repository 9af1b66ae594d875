use venvcache::error::CacheError;
use venvcache::journal::Journal;
use venvcache::usage::{UsageRecord, UsageTable};

fn test_journal(maximum_resources: usize) -> Journal {
    Journal::new(":memory:", maximum_resources).unwrap()
}

#[test]
fn test_journal_migrateable() {
    test_journal(10);
}

#[test]
fn test_journal_record() {
    let mut journal = test_journal(10);
    let expired_resources = journal.record_usage("fingerprint").unwrap();
    assert_eq!(expired_resources, Vec::<String>::new());
}

#[test]
fn test_journal_eviction() {
    let mut journal = test_journal(1);
    let expired_resources1 = journal.record_usage("fingerprint1").unwrap();
    assert_eq!(expired_resources1, Vec::<String>::new());

    let expired_resources2 = journal.record_usage("fingerprint2").unwrap();
    assert_eq!(expired_resources2, vec!["fingerprint1"]);

    let expired_resources3 = journal.record_usage("fingerprint3").unwrap();
    assert_eq!(expired_resources3, vec!["fingerprint1", "fingerprint2"]);
}

#[test]
fn test_journal_mark_deleted() {
    let mut journal = test_journal(1);
    let expired_resources1 = journal.record_usage("fingerprint1").unwrap();
    assert_eq!(expired_resources1, Vec::<String>::new());

    journal.mark_deleted("fingerprint1").unwrap();
    let expired_resources2 = journal.record_usage("fingerprint2").unwrap();
    assert_eq!(expired_resources2, Vec::<String>::new());
}

#[test]
fn journal_keeps_capacity() {
    let mut journal = test_journal(7);
    assert_eq!(journal.maximum_resources(), 7);
}

#[test]
fn journal_reuse_does_not_duplicate() {
    let mut journal = test_journal(1);
    assert!(journal.record_usage("a").unwrap().is_empty());
    assert!(journal.record_usage("a").unwrap().is_empty());
    assert_eq!(journal.record_usage("b").unwrap(), vec!["a"]);
    // "a" used again becomes the newest; "b" is now the oldest.
    assert_eq!(journal.record_usage("a").unwrap(), vec!["b"]);
}

#[test]
fn journal_mark_deleted_twice() {
    let mut journal = test_journal(1);
    journal.record_usage("f1").unwrap();
    journal.record_usage("f2").unwrap();
    journal.mark_deleted("f1").unwrap();
    journal.mark_deleted("f1").unwrap();
    assert!(journal.record_usage("f2").unwrap().is_empty());
}

#[test]
fn journal_distinct_uses_evict_first_ones() {
    let mut journal = test_journal(2);
    let mut all: Vec<String> = Vec::new();
    for f in ["f1", "f2", "f3", "f4", "f5"] {
        for e in journal.record_usage(f).unwrap() {
            if !all.contains(&e) {
                all.push(e);
            }
        }
    }
    assert_eq!(all, vec!["f1", "f2", "f3"]);
}

#[test]
fn journal_bad_path_is_io_error() {
    let r = Journal::new("/nonexistent-directory/for/journal.db", 3);
    assert!(matches!(r, Err(CacheError::JournalIo(_))));
}

fn names(v: &[&str]) -> Vec<String> {
    v.iter().map(|s| s.to_string()).collect()
}

#[test]
fn table_eviction_oldest_first() {
    let mut t = UsageTable::new();
    assert_eq!(t.record_usage("fingerprint1", 100, 1), names(&[]));
    assert_eq!(t.record_usage("fingerprint2", 200, 1), names(&["fingerprint1"]));
    assert_eq!(
        t.record_usage("fingerprint3", 300, 1),
        names(&["fingerprint1", "fingerprint2"])
    );
}

#[test]
fn table_mark_deleted_hides_from_eviction() {
    let mut t = UsageTable::new();
    assert_eq!(t.record_usage("fingerprint1", 100, 1), names(&[]));
    assert!(t.mark_deleted("fingerprint1"));
    assert!(!t.mark_deleted("fingerprint1"));
    assert_eq!(t.len(), 0);
    assert_eq!(t.record_usage("fingerprint2", 200, 1), names(&[]));
}

#[test]
fn table_clock_standing_still_keeps_call_order() {
    let mut t = UsageTable::new();
    t.record_usage("a", 5, 1);
    t.record_usage("b", 5, 1);
    assert_eq!(t.record_usage("c", 5, 1), names(&["a", "b"]));
    assert_eq!(t.records[0].last_used, 5);
    assert_eq!(t.records[1].last_used, 6);
    assert_eq!(t.records[2].last_used, 7);
}

#[test]
fn table_clock_going_back_still_stamps_later() {
    let mut t = UsageTable::new();
    t.record_usage("a", 1000, 5);
    assert_eq!(t.next_stamp(10), 1001);
    assert_eq!(t.next_stamp(2000), 2000);
    assert_eq!(t.latest(), 1000);
}

#[test]
fn table_saturates_at_largest_instant() {
    let mut t = UsageTable::new();
    t.record_usage("a", i64::MAX, 5);
    assert_eq!(t.next_stamp(0), i64::MAX);
    assert_eq!(t.record_usage("b", 0, 1), names(&["a"]));
}

#[test]
fn table_zero_capacity_evicts_everything() {
    let mut t = UsageTable::new();
    t.record_usage("a", 1, 0);
    assert_eq!(t.record_usage("b", 2, 0), names(&["a", "b"]));
}

#[test]
fn table_from_records_orders_by_rank() {
    let rows = vec![
        UsageRecord { fingerprint: "x".to_string(), last_used: 30 },
        UsageRecord { fingerprint: "y".to_string(), last_used: 10 },
        UsageRecord { fingerprint: "z".to_string(), last_used: 20 },
    ];
    let t = UsageTable::from_records(rows);
    assert_eq!(t.len(), 3);
    assert_eq!(t.rank_of(0), 0);
    assert_eq!(t.rank_of(1), 2);
    assert_eq!(t.rank_of(2), 1);
    assert_eq!(t.eviction_order(1), vec![1, 2]);
    assert_eq!(t.names(&vec![1, 2]), names(&["y", "z"]));
}

#[test]
fn table_from_records_keeps_last_duplicate() {
    let rows = vec![
        UsageRecord { fingerprint: "x".to_string(), last_used: 1 },
        UsageRecord { fingerprint: "x".to_string(), last_used: 9 },
    ];
    let t = UsageTable::from_records(rows);
    assert_eq!(t.len(), 1);
    assert_eq!(t.records[0].last_used, 9);
}

#[test]
fn journal_migrates_text_instants() {
    let uri = "file:venvcache_legacy_journal?mode=memory&cache=shared";
    let legacy = rusqlite::Connection::open(uri).unwrap();
    legacy
        .execute_batch(
            "CREATE TABLE resources (fingerprint VARCHAR PRIMARY KEY, last_used DATETIME NOT NULL);
             INSERT INTO resources VALUES ('old', '2020-01-01 00:00:00.000000+00:00');
             INSERT INTO resources VALUES ('older', '2019-01-01 00:00:00.000000+00:00');
             INSERT INTO resources VALUES ('junk', 'not a date');",
        )
        .unwrap();
    let mut journal = Journal::new(uri, 1).unwrap();
    let micros: i64 = legacy
        .query_row("SELECT last_used FROM resources WHERE fingerprint = 'old'", (), |row| row.get(0))
        .unwrap();
    assert_eq!(micros, 1_577_836_800_000_000);
    assert_eq!(journal.record_usage("new").unwrap(), vec!["older", "old"]);
    // Migrating again changes nothing.
    let mut again = Journal::new(uri, 1).unwrap();
    assert_eq!(again.record_usage("new").unwrap(), vec!["older", "old"]);
}

#[test]
fn two_handles_share_one_journal() {
    let uri = "file:venvcache_shared_journal?mode=memory&cache=shared";
    let mut first = Journal::new(uri, 1).unwrap();
    let mut second = Journal::new(uri, 1).unwrap();
    assert!(first.record_usage("a").unwrap().is_empty());
    assert_eq!(second.record_usage("b").unwrap(), vec!["a"]);
    second.mark_deleted("a").unwrap();
    assert!(first.record_usage("c").unwrap() == vec!["b"]);
}
