use blobrepo_factory::bookmarks::{has_expired, CachedBookmarks};
use blobrepo_factory::time::{Span, Timestamp};

fn at(secs: i64, nanos: u32) -> Timestamp {
    Timestamp { secs, nanos }
}

#[test]
fn stale_bookmark_may_be_read_within_ttl_but_not_after() {
    let mut bookmarks = CachedBookmarks::new(Some(Span { secs: 5, nanos: 0 }));
    bookmarks.update(b"master", b"rev1");
    assert_eq!(bookmarks.get_at(b"master", at(100, 0)), Some(b"rev1".to_vec()));

    bookmarks.update(b"master", b"rev2");
    assert_eq!(bookmarks.get_at(b"master", at(101, 0)), Some(b"rev1".to_vec()));
    assert_eq!(bookmarks.get_at(b"master", at(104, 999_999_999)), Some(b"rev1".to_vec()));
    assert_eq!(bookmarks.get_at(b"master", at(105, 0)), Some(b"rev2".to_vec()));
    assert_eq!(bookmarks.get_at(b"master", at(106, 0)), Some(b"rev2".to_vec()));
}

#[test]
fn snapshot_is_renewed_when_it_expires() {
    let mut bookmarks = CachedBookmarks::new(Some(Span { secs: 5, nanos: 0 }));
    assert_eq!(bookmarks.get_at(b"master", at(10, 0)), None);
    bookmarks.update(b"master", b"rev1");
    assert_eq!(bookmarks.get_at(b"master", at(12, 0)), None);
    assert_eq!(bookmarks.get_at(b"master", at(15, 0)), Some(b"rev1".to_vec()));
    bookmarks.update(b"master", b"rev2");
    // The snapshot of second 15 lasts until second 20.
    assert_eq!(bookmarks.get_at(b"master", at(19, 0)), Some(b"rev1".to_vec()));
    assert_eq!(bookmarks.get_at(b"master", at(20, 0)), Some(b"rev2".to_vec()));
}

#[test]
fn without_ttl_every_read_sees_the_store() {
    let mut bookmarks = CachedBookmarks::new(None);
    bookmarks.update(b"master", b"rev1");
    assert_eq!(bookmarks.get_at(b"master", at(1, 0)), Some(b"rev1".to_vec()));
    bookmarks.update(b"master", b"rev2");
    assert_eq!(bookmarks.get_at(b"master", at(1, 0)), Some(b"rev2".to_vec()));
    assert_eq!(bookmarks.get_at(b"other", at(1, 0)), None);
}

#[test]
fn expiry_counts_nanoseconds() {
    let ttl = Span { secs: 1, nanos: 500_000_000 };
    assert!(!has_expired(at(10, 0), at(11, 499_999_999), ttl));
    assert!(has_expired(at(10, 0), at(11, 500_000_000), ttl));
    assert!(has_expired(at(-3, 0), at(0, 0), ttl));
    assert!(!has_expired(at(10, 0), at(9, 0), ttl));
    assert!(has_expired(at(10, 0), at(10, 0), Span { secs: 0, nanos: 0 }));
    // The whole range of the clock is u64::MAX seconds long.
    assert!(has_expired(at(i64::MIN, 0), at(i64::MAX, 0), Span { secs: u64::MAX, nanos: 0 }));
    assert!(!has_expired(at(i64::MIN, 0), at(i64::MAX, 0), Span { secs: u64::MAX, nanos: 1 }));
}

#[test]
fn read_by_the_clock_sees_a_fresh_store() {
    let mut bookmarks = CachedBookmarks::new(Some(Span { secs: 3600, nanos: 0 }));
    bookmarks.update(b"master", b"rev1");
    assert_eq!(bookmarks.get(b"master"), Some(b"rev1".to_vec()));
    bookmarks.update(b"master", b"rev2");
    // Within the hour the snapshot answers.
    assert_eq!(bookmarks.get(b"master"), Some(b"rev1".to_vec()));

    let mut direct = CachedBookmarks::new(Some(Span { secs: 0, nanos: 0 }));
    direct.update(b"master", b"rev1");
    assert_eq!(direct.get(b"master"), Some(b"rev1".to_vec()));
    direct.update(b"master", b"rev2");
    assert_eq!(direct.get(b"master"), Some(b"rev2".to_vec()));
}
