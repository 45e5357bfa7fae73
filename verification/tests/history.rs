use morpho_engine::clock::{civil_from_days, format_timestamp, local_timestamp};
use morpho_engine::history::{
    add_history, archive_history, history_file_order, history_from_file, missing_entry_message, new_history_entry,
    next_history_id, purge_history, restore_history, HistoryEntry,
};

fn key(e: &HistoryEntry) -> (u64, String, String, String, String, bool, Option<String>) {
    (
        e.id,
        e.source.clone(),
        e.output.clone(),
        e.target.clone(),
        e.when.clone(),
        e.archived,
        e.archived_at.clone(),
    )
}

fn keys(v: &[HistoryEntry]) -> Vec<(u64, String, String, String, String, bool, Option<String>)> {
    v.iter().map(key).collect()
}

fn sample() -> Vec<HistoryEntry> {
    let mut h = Vec::new();
    add_history(&mut h, "/out/a.webp", "2024-01-01 10:00:00");
    add_history(&mut h, "/out/b.mp3", "2024-01-01 11:00:00");
    add_history(&mut h, "/out/noext", "2024-01-01 12:00:00");
    h
}

#[test]
fn new_entries_go_first_with_fresh_ids() {
    let h = sample();
    assert_eq!(h.iter().map(|e| e.id).collect::<Vec<_>>(), vec![3, 2, 1]);
    assert_eq!(h[0].target, "");
    assert_eq!(h[1].target, "mp3");
    assert_eq!(h[2].output, "/out/a.webp");
    assert_eq!(h[2].target, "webp");
    assert_eq!(h[2].source, "");
    assert!(!h[2].archived);
    assert_eq!(next_history_id(&h), 4);
    assert_eq!(next_history_id(&Vec::new()), 1);
    let mut gap = vec![new_history_entry(40, "/x.png", "t")];
    add_history(&mut gap, "/y.png", "t2");
    assert_eq!(gap[0].id, 41);
}

#[test]
fn restore_undoes_archive() {
    let mut h = sample();
    let before = keys(&h);
    assert!(archive_history(&mut h, 2, "2024-02-02 00:00:00"));
    assert!(h[1].archived);
    assert_eq!(h[1].archived_at.as_deref(), Some("2024-02-02 00:00:00"));
    assert_eq!(key(&h[0]), before[0]);
    assert_eq!(key(&h[2]), before[2]);
    assert!(restore_history(&mut h, 2));
    assert_eq!(keys(&h), before);
}

#[test]
fn unknown_ids_change_nothing() {
    let mut h = sample();
    let before = keys(&h);
    assert!(!archive_history(&mut h, 99, "t"));
    assert!(!restore_history(&mut h, 99));
    assert_eq!(keys(&h), before);
    assert_eq!(missing_entry_message(99), "no history entry #99");
    assert_eq!(missing_entry_message(0), "no history entry #0");
}

#[test]
fn purge_removes_only_that_id() {
    let mut h = sample();
    let before = keys(&h);
    purge_history(&mut h, 2);
    assert_eq!(keys(&h), vec![before[0].clone(), before[2].clone()]);
    purge_history(&mut h, 2);
    assert_eq!(h.len(), 2);
    let mut dup = vec![new_history_entry(5, "/a.png", "t"), new_history_entry(5, "/b.png", "t"), new_history_entry(6, "/c.png", "t")];
    purge_history(&mut dup, 5);
    assert_eq!(dup.len(), 1);
    assert_eq!(dup[0].id, 6);
}

#[test]
fn the_file_is_oldest_first() {
    let h = sample();
    let file = history_file_order(&h);
    assert_eq!(file.iter().map(|e| e.id).collect::<Vec<_>>(), vec![1, 2, 3]);
    let back = history_from_file(file);
    assert_eq!(keys(&back), keys(&h));
}

#[test]
fn calendar_dates() {
    assert_eq!(civil_from_days(0), (1970, 1, 1));
    assert_eq!(civil_from_days(-1), (1969, 12, 31));
    assert_eq!(civil_from_days(59), (1970, 3, 1));
    assert_eq!(civil_from_days(11016), (2000, 2, 29));
    assert_eq!(civil_from_days(19723), (2024, 1, 1));
    assert_eq!(civil_from_days(-719468), (0, 3, 1));
}

#[test]
fn timestamps() {
    assert_eq!(format_timestamp(0), "1970-01-01 00:00:00");
    assert_eq!(format_timestamp(951782400), "2000-02-29 00:00:00");
    assert_eq!(format_timestamp(1_700_000_000), "2023-11-14 22:13:20");
    assert_eq!(format_timestamp(86399), "1970-01-01 23:59:59");
}

#[test]
fn local_timestamps_shift_by_the_zone_offset() {
    assert_eq!(local_timestamp(0, 8 * 3600), "1970-01-01 08:00:00");
    assert_eq!(local_timestamp(1_700_000_000, 3600), "2023-11-14 23:13:20");
    assert_eq!(local_timestamp(1_700_000_000, -5 * 3600), "2023-11-14 17:13:20");
    assert_eq!(local_timestamp(951_782_400, -60), "2000-02-28 23:59:00");
    assert_eq!(local_timestamp(1800, -3600), "1970-01-01 00:00:00");
}

#[test]
fn now_has_the_timestamp_shape() {
    let s = morpho_engine::clock::chrono_like_now(0);
    assert_eq!(s.len(), 19);
    let b = s.as_bytes();
    assert_eq!((b[4], b[7], b[10], b[13], b[16]), (b'-', b'-', b' ', b':', b':'));
    assert!(s.as_str() > "2020");
}

#[test]
fn archive_then_restore_of_an_archived_entry() {
    let mut h = sample();
    assert!(archive_history(&mut h, 1, "t1"));
    let mut only_restored = h.clone();
    assert!(restore_history(&mut only_restored, 1));
    assert!(archive_history(&mut h, 1, "t2"));
    assert!(restore_history(&mut h, 1));
    assert_eq!(keys(&h), keys(&only_restored));
    assert!(!h[2].archived);
    assert_eq!(h[2].archived_at, None);
}
