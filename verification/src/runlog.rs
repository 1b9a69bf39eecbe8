//! The run log of one command invocation: what is recorded of it, and when
//! the record has to be written out again.

use vstd::prelude::*;
use crate::time::{utc_now, Timestamp};

verus! {

/// The state of one progress bar.
#[derive(Clone, Debug, PartialEq, Eq)]
pub struct Progress {
    topic: String,
    unit: String,
    total: u64,
    position: u64,
}

/// What a `Progress` holds.
pub struct ProgressView {
    pub topic: Seq<char>,
    pub unit: Seq<char>,
    pub total: u64,
    pub position: u64,
}

impl View for Progress {
    type V = ProgressView;

    closed spec fn view(&self) -> ProgressView {
        ProgressView {
            topic: self.topic@,
            unit: self.unit@,
            total: self.total,
            position: self.position,
        }
    }
}

/// What a list of progress bars holds.
pub open spec fn progress_views(bars: Seq<Progress>) -> Seq<ProgressView> {
    Seq::new(bars.len(), |i: int| bars[i]@)
}

/// What a command line holds.
pub open spec fn command_views(command: Seq<String>) -> Seq<Seq<char>> {
    Seq::new(command.len(), |i: int| command[i]@)
}

impl Progress {
    /// Records a progress bar from its topic, its unit and its reading.
    pub fn new(topic: String, unit: String, position: u64, total: u64) -> (r: Progress)
        ensures
            r@ == (ProgressView { topic: topic@, unit: unit@, total, position }),
    {
        Progress { topic, unit, total, position }
    }

    pub fn topic(&self) -> (r: &String)
        ensures
            r@ == self@.topic,
    {
        &self.topic
    }

    pub fn unit(&self) -> (r: &String)
        ensures
            r@ == self@.unit,
    {
        &self.unit
    }

    pub fn total(&self) -> (r: u64)
        ensures
            r == self@.total,
    {
        self.total
    }

    pub fn position(&self) -> (r: u64)
        ensures
            r == self@.position,
    {
        self.position
    }

    /// Whether two progress bars hold the same.
    fn same_as(&self, other: &Progress) -> (r: bool)
        ensures
            r == (self@ == other@),
    {
        self.topic == other.topic && self.unit == other.unit && self.total == other.total
            && self.position == other.position
    }
}

/// Whether two lists of progress bars hold the same.
fn same_progress(a: &Vec<Progress>, b: &Vec<Progress>) -> (r: bool)
    ensures
        r == (progress_views(a@) == progress_views(b@)),
{
    if a.len() != b.len() {
        assert(progress_views(a@).len() != progress_views(b@).len());
        return false;
    }
    let mut i: usize = 0;
    while i < a.len()
        invariant
            i <= a.len(),
            a.len() == b.len(),
            forall|k: int| 0 <= k < i ==> a@[k]@ == b@[k]@,
        decreases a.len() - i,
    {
        if !a[i].same_as(&b[i]) {
            assert(progress_views(a@)[i as int] != progress_views(b@)[i as int]);
            return false;
        }
        i += 1;
    }
    assert(progress_views(a@) =~= progress_views(b@));
    true
}

/// The characters of which an entry's id is made.
pub open spec fn is_alphanumeric(c: char) -> bool {
    ('0' <= c && c <= '9') || ('a' <= c && c <= 'z') || ('A' <= c && c <= 'Z')
}

/// Sixteen alphanumeric characters.
pub open spec fn is_entry_id(id: Seq<char>) -> bool {
    id.len() == 16 && forall|i: int| 0 <= i < id.len() ==> is_alphanumeric(#[trigger] id[i])
}

/// Draws one character through `rand::Rng::sample` with the distribution
/// `rand::distributions::Alphanumeric`.
///
/// The distribution samples from the digits and the upper and lower case
/// letters of ASCII; which of them comes back is left open. The generator is
/// `rand::thread_rng`, which panics where the operating system has no
/// randomness to seed it with.
#[verifier::external_body]
fn random_alphanumeric() -> (c: char)
    ensures
        is_alphanumeric(c),
{
    char::from(rand::Rng::sample(&mut rand::thread_rng(), rand::distributions::Alphanumeric))
}

/// Appends one character through `String::push`.
#[verifier::external_body]
fn push_char(s: &mut String, c: char)
    ensures
        final(s)@ == old(s)@.push(c),
{
    s.push(c)
}

/// A fresh id of sixteen random alphanumeric characters.
pub fn fresh_entry_id() -> (id: String)
    ensures
        is_entry_id(id@),
{
    let mut id = String::new();
    let mut n: usize = 0;
    while n < 16
        invariant
            n <= 16,
            id@.len() == n,
            forall|i: int| 0 <= i < id@.len() ==> is_alphanumeric(#[trigger] id@[i]),
        decreases 16 - n,
    {
        let c = random_alphanumeric();
        push_char(&mut id, c);
        n += 1;
    }
    id
}

/// One run log entry: a single command execution.
#[derive(Clone, Debug, PartialEq, Eq)]
pub struct Entry {
    id: String,
    command: Vec<String>,
    pid: u64,
    start_time: Timestamp,
    end_time: Option<Timestamp>,
    exit_code: Option<i32>,
    progress: Vec<Progress>,
}

/// What an `Entry` holds.
pub struct EntryView {
    pub id: Seq<char>,
    pub command: Seq<Seq<char>>,
    pub pid: u64,
    pub start_time: Timestamp,
    pub end_time: Option<Timestamp>,
    pub exit_code: Option<i32>,
    pub progress: Seq<ProgressView>,
}

impl View for Entry {
    type V = EntryView;

    closed spec fn view(&self) -> EntryView {
        EntryView {
            id: self.id@,
            command: command_views(self.command@),
            pid: self.pid,
            start_time: self.start_time,
            end_time: self.end_time,
            exit_code: self.exit_code,
            progress: progress_views(self.progress@),
        }
    }
}

/// The entry of a command that has just started.
pub open spec fn started_entry(
    id: Seq<char>,
    command: Seq<Seq<char>>,
    pid: u64,
    start_time: Timestamp,
) -> EntryView {
    EntryView {
        id,
        command,
        pid,
        start_time,
        end_time: None,
        exit_code: None,
        progress: Seq::empty(),
    }
}

impl Entry {
    /// The entry of a command that starts now, under a fresh random id.
    pub fn new(command: Vec<String>, pid: u64) -> (r: Entry)
        ensures
            is_entry_id(r@.id),
            r@ == started_entry(r@.id, command_views(command@), pid, r@.start_time),
    {
        let id = fresh_entry_id();
        let start_time = utc_now();
        Entry::started(id, command, pid, start_time)
    }

    /// The entry of a command that started at `start_time` under `id`.
    pub fn started(id: String, command: Vec<String>, pid: u64, start_time: Timestamp) -> (r: Entry)
        ensures
            r@ == started_entry(id@, command_views(command@), pid, start_time),
    {
        let r = Entry {
            id,
            command,
            pid,
            start_time,
            end_time: None,
            exit_code: None,
            progress: Vec::new(),
        };
        assert(r@.progress =~= Seq::empty());
        r
    }

    /// The entry that holds the given parts, as it comes back from storage.
    pub fn from_parts(
        id: String,
        command: Vec<String>,
        pid: u64,
        start_time: Timestamp,
        end_time: Option<Timestamp>,
        exit_code: Option<i32>,
        progress: Vec<Progress>,
    ) -> (r: Entry)
        ensures
            r@ == (EntryView {
                id: id@,
                command: command_views(command@),
                pid,
                start_time,
                end_time,
                exit_code,
                progress: progress_views(progress@),
            }),
    {
        Entry { id, command, pid, start_time, end_time, exit_code, progress }
    }

    /// Replaces the progress where it differs from the current one, and
    /// returns whether it did.
    pub fn set_progress(&mut self, progress: Vec<Progress>) -> (changed: bool)
        ensures
            changed == (old(self)@.progress != progress_views(progress@)),
            final(self)@ == (EntryView { progress: progress_views(progress@), ..old(self)@ }),
    {
        if same_progress(&self.progress, &progress) {
            false
        } else {
            self.progress = progress;
            true
        }
    }

    pub fn id(&self) -> (r: &String)
        ensures
            r@ == self@.id,
    {
        &self.id
    }

    pub fn command(&self) -> (r: &Vec<String>)
        ensures
            command_views(r@) == self@.command,
    {
        &self.command
    }

    pub fn pid(&self) -> (r: u64)
        ensures
            r == self@.pid,
    {
        self.pid
    }

    pub fn start_time(&self) -> (r: Timestamp)
        ensures
            r == self@.start_time,
    {
        self.start_time
    }

    pub fn end_time(&self) -> (r: Option<Timestamp>)
        ensures
            r == self@.end_time,
    {
        self.end_time
    }

    pub fn exit_code(&self) -> (r: Option<i32>)
        ensures
            r == self@.exit_code,
    {
        self.exit_code
    }

    pub fn progress(&self) -> (r: &Vec<Progress>)
        ensures
            progress_views(r@) == self@.progress,
    {
        &self.progress
    }
}

/// The name of the directory, under a repository's shared metadata
/// directory, in which run log entries are saved.
pub fn runlog_dir() -> (r: String)
    ensures
        r@ == "runlog"@,
{
    "runlog".to_owned()
}

/// Where a repository keeps its run log, and whether it keeps one.
#[derive(Clone, Debug, PartialEq, Eq)]
pub struct RunlogSettings {
    /// The repository's `runlog.enable` setting.
    pub enable: bool,
    /// The repository's shared metadata directory.
    pub shared_dot_hg_path: String,
}

/// Logs runtime information of a single command invocation.
///
/// The logger decides what the entry holds and when it has to be saved.
/// Saving is the caller's part: after `new`, and after every call that
/// returns `true`, the caller saves `entry()` in the directory
/// `runlog_dir()` under `storage()`.
#[derive(Debug)]
pub struct Logger {
    entry: Entry,
    storage: Option<String>,
}

impl Logger {
    /// The directory under which entries are saved, if any.
    pub closed spec fn storage_view(&self) -> Option<Seq<char>> {
        match self.storage {
            Some(dir) => Some(dir@),
            None => None,
        }
    }

    /// What the entry holds.
    pub closed spec fn entry_view(&self) -> EntryView {
        self.entry@
    }

    /// Whether a changed entry has to be saved.
    pub open spec fn saves(&self) -> bool {
        self.storage_view() is Some
    }

    /// Starts the log of a command. Entries are saved only for a
    /// repository that enables its run log, in its shared directory.
    pub fn new(repo: Option<RunlogSettings>, command: Vec<String>, pid: u64) -> (r: Logger)
        ensures
            is_entry_id(r.entry_view().id),
            r.entry_view() == started_entry(
                r.entry_view().id,
                command_views(command@),
                pid,
                r.entry_view().start_time,
            ),
            r.storage_view() == match repo {
                Some(settings) => if settings.enable {
                    Some(settings.shared_dot_hg_path@)
                } else {
                    None
                },
                None => None,
            },
    {
        Logger::with_entry(repo, Entry::new(command, pid))
    }

    /// Starts a log on an entry that the caller has made.
    pub fn with_entry(repo: Option<RunlogSettings>, entry: Entry) -> (r: Logger)
        ensures
            r.entry_view() == entry@,
            r.storage_view() == match repo {
                Some(settings) => if settings.enable {
                    Some(settings.shared_dot_hg_path@)
                } else {
                    None
                },
                None => None,
            },
    {
        let storage = match repo {
            Some(settings) => if settings.enable {
                Some(settings.shared_dot_hg_path)
            } else {
                None
            },
            None => None,
        };
        Logger { entry, storage }
    }

    /// Closes the entry now. Returns whether the entry has to be saved.
    pub fn close(&mut self, exit_code: i32) -> (save: bool)
        ensures
            save == old(self).saves(),
            final(self).storage_view() == old(self).storage_view(),
            final(self).entry_view().end_time is Some,
            final(self).entry_view() == (EntryView {
                exit_code: Some(exit_code),
                end_time: final(self).entry_view().end_time,
                progress: Seq::empty(),
                ..old(self).entry_view()
            }),
    {
        let now = utc_now();
        self.close_at(exit_code, now)
    }

    /// Closes the entry at the given time: records the exit code and the
    /// end time and drops all progress. Returns whether the entry has to be
    /// saved.
    pub fn close_at(&mut self, exit_code: i32, now: Timestamp) -> (save: bool)
        ensures
            save == old(self).saves(),
            final(self).storage_view() == old(self).storage_view(),
            final(self).entry_view() == (EntryView {
                exit_code: Some(exit_code),
                end_time: Some(now),
                progress: Seq::empty(),
                ..old(self).entry_view()
            }),
    {
        self.entry.exit_code = Some(exit_code);
        self.entry.end_time = Some(now);
        self.entry.progress = Vec::new();
        assert(self.entry@.progress =~= Seq::empty());
        self.write()
    }

    /// Takes a new progress reading. A closed entry takes none. Returns
    /// whether the entry has changed and has to be saved.
    pub fn update_progress(&mut self, progress: Vec<Progress>) -> (save: bool)
        ensures
            final(self).storage_view() == old(self).storage_view(),
            final(self).entry_view() == if old(self).entry_view().exit_code is None {
                EntryView { progress: progress_views(progress@), ..old(self).entry_view() }
            } else {
                old(self).entry_view()
            },
            save == (old(self).saves() && old(self).entry_view().exit_code is None && old(
                self,
            ).entry_view().progress != progress_views(progress@)),
    {
        if self.entry.exit_code.is_none() && self.entry.set_progress(progress) {
            self.write()
        } else {
            false
        }
    }

    /// Whether entries are saved at all.
    pub fn write(&self) -> (save: bool)
        ensures
            save == self.saves(),
    {
        self.storage.is_some()
    }

    /// The entry as it stands.
    pub fn entry(&self) -> (r: &Entry)
        ensures
            r@ == self.entry_view(),
    {
        &self.entry
    }

    /// The repository directory under which the entry is saved, if any.
    pub fn storage(&self) -> (r: &Option<String>)
        ensures
            match *r {
                Some(dir) => self.storage_view() == Some(dir@),
                None => self.storage_view() is None,
            },
    {
        &self.storage
    }
}

} // verus!
