use blobrepo_factory::runlog::{
    fresh_entry_id, runlog_dir, Entry, Logger, Progress, RunlogSettings,
};
use blobrepo_factory::time::Timestamp;

fn command() -> Vec<String> {
    vec!["hg".to_string(), "status".to_string()]
}

fn bar(position: u64) -> Progress {
    Progress::new("files".to_string(), "bytes".to_string(), position, 100)
}

fn enabled() -> Option<RunlogSettings> {
    Some(RunlogSettings { enable: true, shared_dot_hg_path: "/repo/.hg".to_string() })
}

#[test]
fn progress_records_the_bar() {
    let progress = Progress::new("topic".to_string(), "unit".to_string(), 3, 10);
    assert_eq!(progress.topic(), "topic");
    assert_eq!(progress.unit(), "unit");
    assert_eq!(progress.position(), 3);
    assert_eq!(progress.total(), 10);
    assert_eq!(progress, Progress::new("topic".to_string(), "unit".to_string(), 3, 10));
    assert_ne!(progress, Progress::new("topic".to_string(), "unit".to_string(), 10, 3));
}

#[test]
fn entry_id_is_sixteen_alphanumeric_characters() {
    for _ in 0..50 {
        let id = fresh_entry_id();
        assert_eq!(id.chars().count(), 16);
        assert!(id.chars().all(|c| c.is_ascii_alphanumeric()));
    }
    assert_ne!(fresh_entry_id(), fresh_entry_id());
}

#[test]
fn new_entry_has_started_and_nothing_else() {
    let entry = Entry::new(command(), 4321);
    assert_eq!(entry.id().chars().count(), 16);
    assert!(entry.id().chars().all(|c| c.is_ascii_alphanumeric()));
    assert_eq!(entry.command(), &command());
    assert_eq!(entry.pid(), 4321);
    assert!(entry.start_time().secs > 1_000_000_000);
    assert!(entry.start_time().nanos < 1_000_000_000);
    assert_eq!(entry.end_time(), None);
    assert_eq!(entry.exit_code(), None);
    assert!(entry.progress().is_empty());
}

#[test]
fn started_entry_holds_what_it_was_given() {
    let start = Timestamp { secs: 77, nanos: 5 };
    let entry = Entry::started("abcdefgh12345678".to_string(), command(), 9, start);
    assert_eq!(entry.id(), "abcdefgh12345678");
    assert_eq!(entry.command(), &command());
    assert_eq!(entry.pid(), 9);
    assert_eq!(entry.start_time(), start);
    assert_eq!(entry.end_time(), None);
    assert_eq!(entry.exit_code(), None);
    assert!(entry.progress().is_empty());
}

#[test]
fn set_progress_tells_whether_progress_differs() {
    let mut entry = Entry::started("id".to_string(), command(), 1, Timestamp { secs: 0, nanos: 0 });
    assert!(!entry.set_progress(vec![]));
    assert!(entry.set_progress(vec![bar(1)]));
    assert_eq!(entry.progress(), &vec![bar(1)]);
    assert!(!entry.set_progress(vec![bar(1)]));
    assert!(entry.set_progress(vec![bar(2)]));
    assert!(entry.set_progress(vec![bar(2), bar(3)]));
    assert!(entry.set_progress(vec![bar(3), bar(2)]));
    assert_eq!(entry.progress(), &vec![bar(3), bar(2)]);
    assert!(entry.set_progress(vec![]));
    assert!(entry.progress().is_empty());
}

#[test]
fn logger_saves_only_for_a_repository_that_enables_the_log() {
    let logger = Logger::new(enabled(), command(), 1);
    assert!(logger.write());
    assert_eq!(logger.storage(), &Some("/repo/.hg".to_string()));

    let disabled =
        Some(RunlogSettings { enable: false, shared_dot_hg_path: "/repo/.hg".to_string() });
    let logger = Logger::new(disabled, command(), 1);
    assert!(!logger.write());
    assert_eq!(logger.storage(), &None);

    let logger = Logger::new(None, command(), 1);
    assert!(!logger.write());
    assert_eq!(logger.storage(), &None);
    assert_eq!(logger.entry().command(), &command());
    assert_eq!(logger.entry().pid(), 1);
}

#[test]
fn update_progress_saves_only_changes() {
    let mut logger = Logger::new(enabled(), command(), 1);
    assert!(logger.update_progress(vec![bar(1)]));
    assert!(!logger.update_progress(vec![bar(1)]));
    assert!(logger.update_progress(vec![bar(2)]));
    assert_eq!(logger.entry().progress(), &vec![bar(2)]);

    let mut silent = Logger::new(None, command(), 1);
    assert!(!silent.update_progress(vec![bar(1)]));
    assert_eq!(silent.entry().progress(), &vec![bar(1)]);
}

#[test]
fn close_records_exit_and_drops_progress() {
    let start = Timestamp { secs: 10, nanos: 0 };
    let entry = Entry::started("id".to_string(), command(), 1, start);
    let mut logger = Logger::with_entry(enabled(), entry);
    assert!(logger.update_progress(vec![bar(1)]));
    let end = Timestamp { secs: 20, nanos: 1 };
    assert!(logger.close_at(3, end));
    assert_eq!(logger.entry().exit_code(), Some(3));
    assert_eq!(logger.entry().end_time(), Some(end));
    assert!(logger.entry().progress().is_empty());
    assert_eq!(logger.entry().start_time(), start);
    assert_eq!(logger.entry().id(), "id");

    // A closed entry takes no more progress.
    assert!(!logger.update_progress(vec![bar(2)]));
    assert!(logger.entry().progress().is_empty());
}

#[test]
fn close_reads_the_clock() {
    let mut logger = Logger::new(None, command(), 1);
    assert!(!logger.close(-1));
    assert_eq!(logger.entry().exit_code(), Some(-1));
    let end = logger.entry().end_time().unwrap();
    assert!(end.secs >= logger.entry().start_time().secs);
    assert!(end.nanos < 1_000_000_000);
}

#[test]
fn entry_is_restored_from_its_parts() {
    let start = Timestamp { secs: 1, nanos: 2 };
    let end = Timestamp { secs: 3, nanos: 4 };
    let entry = Entry::from_parts(
        "id".to_string(),
        command(),
        7,
        start,
        Some(end),
        Some(0),
        vec![bar(5)],
    );
    assert_eq!(entry.id(), "id");
    assert_eq!(entry.command(), &command());
    assert_eq!(entry.pid(), 7);
    assert_eq!(entry.start_time(), start);
    assert_eq!(entry.end_time(), Some(end));
    assert_eq!(entry.exit_code(), Some(0));
    assert_eq!(entry.progress(), &vec![bar(5)]);
}

#[test]
fn entries_are_saved_in_the_runlog_directory() {
    assert_eq!(runlog_dir(), "runlog");
}
