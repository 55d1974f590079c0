//! Recent log lines in memory and the housekeeping of log files. The ring
//! keeps the latest lines up to a fixed number and drops the oldest beyond
//! it. Times are milliseconds on the clock that never runs backwards; days
//! are counted from the first day of year 1.

use vstd::prelude::*;
use crate::text::{
    ends_with, first_at, has_prefix, has_suffix, occurs_in, split_once_text, starts_with, views_of,
};

verus! {

/// How many lines the ring keeps.
pub const LOG_CAPACITY: usize = 500;

/// The span of a snapshot: lines younger than this many milliseconds go
/// into it.
pub const SNAPSHOT_WINDOW_MS: u64 = 86_400_000;

/// How the name of a daily log file starts.
pub const LOG_FILE_PREFIX: &'static str = "APOLLO-";

/// How the name of a daily log file ends.
pub const LOG_FILE_SUFFIX: &'static str = ".log";

/// A daily log file is deleted once it is older than this many days.
pub const LOG_RETENTION_DAYS: i64 = 28;

/// The severity of a log record, the most severe first.
#[derive(Clone, Copy, Debug, PartialEq, Eq, Structural)]
pub enum LogLevel {
    Error,
    Warn,
    Info,
    Debug,
    Trace,
}

impl LogLevel {
    /// Whether records of this severity are kept: informational ones and
    /// anything more severe.
    pub open spec fn kept(self) -> bool {
        self == LogLevel::Error || self == LogLevel::Warn || self == LogLevel::Info
    }

    /// Whether records of this severity are kept.
    pub fn is_kept(&self) -> (b: bool)
        ensures
            b == self.kept(),
    {
        match self {
            LogLevel::Error => true,
            LogLevel::Warn => true,
            LogLevel::Info => true,
            _ => false,
        }
    }

    /// The severity's name in capitals.
    pub open spec fn label(self) -> Seq<char> {
        match self {
            LogLevel::Error => "ERROR"@,
            LogLevel::Warn => "WARN"@,
            LogLevel::Info => "INFO"@,
            LogLevel::Debug => "DEBUG"@,
            LogLevel::Trace => "TRACE"@,
        }
    }

    /// The severity's name in capitals.
    pub fn name(&self) -> (text: &'static str)
        ensures
            text@ == self.label(),
    {
        match self {
            LogLevel::Error => "ERROR",
            LogLevel::Warn => "WARN",
            LogLevel::Info => "INFO",
            LogLevel::Debug => "DEBUG",
            LogLevel::Trace => "TRACE",
        }
    }
}

/// A log line with the time at which it was taken.
pub type LogEntry = (u64, Seq<char>);

/// The ring of recent log lines.
#[derive(Debug, Clone)]
pub struct LogBuffer {
    entries: Vec<(u64, String)>,
}

impl View for LogBuffer {
    type V = Seq<LogEntry>;

    closed spec fn view(&self) -> Seq<LogEntry> {
        self.entries@.map_values(|e: (u64, String)| (e.0, e.1@))
    }
}

/// The ring after taking `entry`: the entry goes to the end, and the
/// oldest line leaves if the ring was full.
pub open spec fn pushed(ring: Seq<LogEntry>, entry: LogEntry) -> Seq<LogEntry> {
    if ring.len() >= LOG_CAPACITY {
        ring.skip(1).push(entry)
    } else {
        ring.push(entry)
    }
}

/// The test that an entry passes if it is younger than `window` at `now`.
pub open spec fn younger_than(now: u64, window: u64) -> spec_fn(LogEntry) -> bool {
    |e: LogEntry| now - e.0 < window
}

/// The lines of the entries, in order.
pub open spec fn lines_of(entries: Seq<LogEntry>) -> Seq<Seq<char>> {
    entries.map_values(|e: LogEntry| e.1)
}

/// The lines put together, with a line feed between neighbours.
pub open spec fn joined(lines: Seq<Seq<char>>) -> Seq<char>
    decreases lines.len(),
{
    if lines.len() == 0 {
        Seq::empty()
    } else if lines.len() == 1 {
        lines[0]
    } else {
        joined(lines.drop_last()).push('\n') + lines.last()
    }
}

impl LogBuffer {
    /// The ring's invariant: it holds no more lines than its capacity.
    pub closed spec fn wf(&self) -> bool {
        self.entries@.len() <= LOG_CAPACITY
    }

    /// What the invariant says of the view.
    pub proof fn lemma_wf(&self)
        requires
            self.wf(),
        ensures
            self@.len() <= LOG_CAPACITY,
    {
    }

    /// An empty ring.
    pub fn new() -> (ring: Self)
        ensures
            ring.wf(),
            ring@ == Seq::<LogEntry>::empty(),
    {
        let ring = LogBuffer { entries: Vec::new() };
        assert(ring@ =~= Seq::<LogEntry>::empty());
        ring
    }

    /// The number of lines in the ring.
    pub fn len(&self) -> (n: usize)
        requires
            self.wf(),
        ensures
            n == self@.len(),
            n <= LOG_CAPACITY,
    {
        self.entries.len()
    }

    /// Takes a line at time `stamp`. If the ring is full, its oldest line
    /// leaves.
    pub fn push(&mut self, stamp: u64, line: String)
        requires
            old(self).wf(),
        ensures
            final(self).wf(),
            final(self)@ == pushed(old(self)@, (stamp, line@)),
    {
        let ghost before = self@;
        self.entries.push((stamp, line));
        assert(self@ =~= before.push((stamp, line@)));
        if self.entries.len() > LOG_CAPACITY {
            let _oldest = self.entries.remove(0);
            assert(self@ =~= before.skip(1).push((stamp, line@)));
        }
    }

    /// Takes the line of a record of severity `level`, if records of that
    /// severity are kept; says whether it was taken.
    pub fn record(&mut self, level: LogLevel, stamp: u64, line: String) -> (taken: bool)
        requires
            old(self).wf(),
        ensures
            final(self).wf(),
            taken == level.kept(),
            final(self)@ == if level.kept() {
                pushed(old(self)@, (stamp, line@))
            } else {
                old(self)@
            },
    {
        if level.is_kept() {
            self.push(stamp, line);
            true
        } else {
            false
        }
    }

    /// The lines of the ring, the oldest first.
    pub fn lines(&self) -> (lines: Vec<String>)
        requires
            self.wf(),
        ensures
            views_of(lines@) == lines_of(self@),
    {
        let n = self.entries.len();
        let mut lines: Vec<String> = Vec::new();
        let mut i: usize = 0;
        while i < n
            invariant
                n == self.entries@.len(),
                i <= n,
                lines@.len() == i,
                forall|k: int| 0 <= k < i ==> (#[trigger] lines@[k])@ == self.entries@[k].1@,
            decreases n - i,
        {
            lines.push(self.entries[i].1.clone());
            i = i + 1;
        }
        assert(views_of(lines@) =~= lines_of(self@));
        lines
    }

    /// The lines that are younger than `window` milliseconds at `now`, the
    /// oldest first.
    pub fn recent(&self, now: u64, window: u64) -> (lines: Vec<String>)
        requires
            self.wf(),
        ensures
            views_of(lines@) == lines_of(self@.filter(younger_than(now, window))),
    {
        let n = self.entries.len();
        let mut lines: Vec<String> = Vec::new();
        let mut i: usize = 0;
        let ghost pred = younger_than(now, window);
        proof {
            reveal(Seq::filter);
            assert(self@.take(0) =~= Seq::<LogEntry>::empty());
            assert(views_of(lines@) =~= lines_of(self@.take(0).filter(pred)));
        }
        while i < n
            invariant
                n == self.entries@.len(),
                n == self@.len(),
                i <= n,
                pred == younger_than(now, window),
                views_of(lines@) == lines_of(self@.take(i as int).filter(pred)),
            decreases n - i,
        {
            let ghost kept = self@.take(i as int).filter(pred);
            let ghost shown = views_of(lines@);
            proof {
                reveal(Seq::filter);
                assert(self@.take(i + 1).drop_last() =~= self@.take(i as int));
                assert(self@.take(i + 1).last() == (self.entries@[i as int].0, self.entries@[i as int].1@));
            }
            let stamp = self.entries[i].0;
            let young = if now >= stamp {
                now - stamp < window
            } else {
                true
            };
            if young {
                let line = self.entries[i].1.clone();
                lines.push(line);
                proof {
                    let e = (stamp, line@);
                    assert(views_of(lines@) =~= shown.push(line@));
                    assert(lines_of(kept.push(e)) =~= lines_of(kept).push(line@));
                }
            }
            i = i + 1;
        }
        assert(self@.take(n as int) =~= self@);
        lines
    }
}

impl Default for LogBuffer {
    fn default() -> (ring: Self)
        ensures
            ring.wf(),
            ring@ == Seq::<LogEntry>::empty(),
    {
        LogBuffer::new()
    }
}

/// The lines put together, with a line feed between neighbours.
pub fn join_lines(lines: &Vec<String>) -> (text: String)
    ensures
        text@ == joined(views_of(lines@)),
{
    let mut text = String::new();
    let n = lines.len();
    let mut i: usize = 0;
    let ghost all = views_of(lines@);
    assert(all.take(0) =~= Seq::<Seq<char>>::empty());
    while i < n
        invariant
            n == lines@.len(),
            all == views_of(lines@),
            i <= n,
            text@ == joined(all.take(i as int)),
        decreases n - i,
    {
        proof {
            assert(all.take(i + 1).drop_last() =~= all.take(i as int));
            assert(all.take(i + 1).last() == lines@[i as int]@);
            if i == 0 {
                assert(all.take(1)[0] == lines@[0]@);
                assert(Seq::<char>::empty() + lines@[0]@ =~= lines@[0]@);
            }
        }
        if i > 0 {
            text.push('\n');
        }
        text.append(lines[i].as_str());
        i = i + 1;
    }
    assert(all.take(n as int) =~= all);
    text
}

/// A line as the ring shows it: time and origin in brackets, then the
/// message.
pub fn format_buffer_line(time: &str, origin: &str, message: &str) -> (line: String)
    ensures
        line@ == "["@ + time@ + "] ["@ + origin@ + "] "@ + message@,
{
    let mut line = String::new();
    assert(line@ + "["@ =~= "["@);
    line.append("[");
    line.append(time);
    line.append("] [");
    line.append(origin);
    line.append("] ");
    line.append(message);
    line
}

/// A line as a log file holds it: time, origin and severity in brackets,
/// then the message.
pub fn format_file_line(time: &str, origin: &str, level: LogLevel, message: &str) -> (line: String)
    ensures
        line@ == "["@ + time@ + "]["@ + origin@ + "]["@ + level.label() + "] "@ + message@,
{
    let mut line = String::new();
    assert(line@ + "["@ =~= "["@);
    line.append("[");
    line.append(time);
    line.append("][");
    line.append(origin);
    line.append("][");
    line.append(level.name());
    line.append("] ");
    line.append(message);
    line
}

/// How many origin tags the console sets off in a log line.
pub const TAG_COUNT: usize = 7;

/// The origin tags that the console sets off in a log line, in the order in
/// which a line is searched for them.
pub open spec fn tag_label(k: int) -> Seq<char> {
    if k == 0 {
        "[CORE]"@
    } else if k == 1 {
        "[gRPC]"@
    } else if k == 2 {
        "[AUTH]"@
    } else if k == 3 {
        "[STATE]"@
    } else if k == 4 {
        "[DIRECTIVE]"@
    } else if k == 5 {
        "[MONITOR]"@
    } else {
        "[CONFIG]"@
    }
}

/// The `k`-th origin tag.
pub fn tag_name(k: usize) -> (tag: &'static str)
    requires
        k < TAG_COUNT,
    ensures
        tag@ == tag_label(k as int),
{
    if k == 0 {
        "[CORE]"
    } else if k == 1 {
        "[gRPC]"
    } else if k == 2 {
        "[AUTH]"
    } else if k == 3 {
        "[STATE]"
    } else if k == 4 {
        "[DIRECTIVE]"
    } else if k == 5 {
        "[MONITOR]"
    } else {
        "[CONFIG]"
    }
}

/// Finds the tag to set off in a line: the first tag, in the tags' order,
/// that occurs in the line, at its first occurrence. Answers what stands
/// before the tag, the tag's number and what stands after it; nothing if
/// the line holds no tag.
pub fn split_at_tag(line: &str) -> (found: Option<(String, usize, String)>)
    ensures
        match found {
            Some((before, k, after)) => {
                &&& k < TAG_COUNT
                &&& forall|j: int| 0 <= j < k ==> !occurs_in(line@, #[trigger] tag_label(j))
                &&& exists|i: int|
                    first_at(line@, tag_label(k as int), i) && before@ == line@.take(i) && after@
                        == line@.skip(i + tag_label(k as int).len())
            },
            None => forall|j: int| 0 <= j < TAG_COUNT ==> !occurs_in(line@, #[trigger] tag_label(j)),
        },
{
    let mut k: usize = 0;
    while k < TAG_COUNT
        invariant
            k <= TAG_COUNT,
            forall|j: int| 0 <= j < k ==> !occurs_in(line@, #[trigger] tag_label(j)),
        decreases TAG_COUNT - k,
    {
        match split_once_text(line, tag_name(k)) {
            Some((before, after)) => {
                return Some((before, k, after));
            },
            None => {},
        }
        k = k + 1;
    }
    None
}

/// The path of a snapshot taken at the time that `stamp` writes out.
pub fn snapshot_file_name(stamp: &str) -> (path: String)
    ensures
        path@ == "logs/snapshot/APOLLO_snapshot_"@ + stamp@ + ".log"@,
{
    let mut path = String::new();
    assert(path@ + "logs/snapshot/APOLLO_snapshot_"@ =~= "logs/snapshot/APOLLO_snapshot_"@);
    path.append("logs/snapshot/APOLLO_snapshot_");
    path.append(stamp);
    path.append(".log");
    path
}

/// The day that `chrono::NaiveDate::parse_from_str` reads from `date` in
/// the form year-month-day, as the date's number of days since the last
/// day before year 1; nothing where chrono does not accept the text.
pub uninterp spec fn parsed_day(date: Seq<char>) -> Option<int>;

/// Reads `date` by `chrono::NaiveDate::parse_from_str` with the format
/// `%Y-%m-%d` and counts the date's days by `num_days_from_ce`.
#[verifier::external_body]
fn parse_day(date: &str) -> (day: Option<i32>)
    ensures
        match day {
            Some(d) => parsed_day(date@) == Some(d as int),
            None => parsed_day(date@) is None,
        },
{
    match chrono::NaiveDate::parse_from_str(date, "%Y-%m-%d") {
        Ok(d) => Some(chrono::Datelike::num_days_from_ce(&d)),
        Err(_) => None,
    }
}

/// Today's date in UTC by `chrono::Utc::now`, counted in days by
/// `num_days_from_ce`. It depends on the clock, so nothing is claimed of
/// it.
#[verifier::external_body]
fn today_utc() -> (day: i32) {
    chrono::Datelike::num_days_from_ce(&chrono::Utc::now().date_naive())
}

/// The format of the time in a log line: date and time of day.
pub const LINE_TIME_FORMAT: &'static str = "%Y-%m-%d %H:%M:%S";

/// The format of the time in the name of a snapshot.
pub const FILE_TIME_FORMAT: &'static str = "%Y-%m-%d_%H-%M-%S";

/// The local time by `chrono::Local::now`, written out by `format` in one
/// of the two formats above; chrono fails on a format that it cannot read,
/// so no other is let in. The text depends on the clock and the time zone,
/// so nothing is claimed of it.
#[verifier::external_body]
fn local_time_text(format: &str) -> (text: String)
    requires
        format@ == LINE_TIME_FORMAT@ || format@ == FILE_TIME_FORMAT@,
{
    chrono::Local::now().format(format).to_string()
}

/// The local time as log lines show it: date and time of day.
pub fn log_timestamp() -> (text: String) {
    local_time_text(LINE_TIME_FORMAT)
}

/// The local time as the name of a snapshot holds it.
pub fn snapshot_timestamp() -> (text: String) {
    local_time_text(FILE_TIME_FORMAT)
}

/// The date part of the name of a daily log file: what stands between the
/// prefix and the suffix. Other names have none.
pub open spec fn log_date_text(name: Seq<char>) -> Option<Seq<char>> {
    if starts_with(name, LOG_FILE_PREFIX@) && ends_with(name, LOG_FILE_SUFFIX@) && name.len()
        >= LOG_FILE_PREFIX@.len() + LOG_FILE_SUFFIX@.len() {
        Some(name.subrange(LOG_FILE_PREFIX@.len() as int, name.len() - LOG_FILE_SUFFIX@.len()))
    } else {
        None
    }
}

/// Whether the file is a daily log file whose day is `day`.
pub open spec fn is_log_of_day(name: Seq<char>, day: int) -> bool {
    match log_date_text(name) {
        Some(text) => parsed_day(text) == Some(day),
        None => false,
    }
}

/// Whether a file of that name is due for deletion on day `today`: it is a
/// daily log file, and its day lies more than the retention before today.
pub open spec fn expired(name: Seq<char>, today: int) -> bool {
    match log_date_text(name) {
        Some(text) => match parsed_day(text) {
            Some(day) => day < today - LOG_RETENTION_DAYS,
            None => false,
        },
        None => false,
    }
}

/// Whether a daily log file of day `day` is due for deletion on day
/// `today`.
pub fn day_expired(day: i32, today: i32) -> (due: bool)
    ensures
        due == (day < today - LOG_RETENTION_DAYS),
{
    (day as i64) < (today as i64) - LOG_RETENTION_DAYS
}

/// Whether a file of that name is due for deletion on day `today`.
pub fn is_expired(name: &str, today: i32) -> (due: bool)
    ensures
        due == expired(name@, today as int),
{
    proof {
        reveal_strlit("APOLLO-");
        reveal_strlit(".log");
    }
    if !has_prefix(name, LOG_FILE_PREFIX) || !has_suffix(name, LOG_FILE_SUFFIX) {
        return false;
    }
    let n = name.unicode_len();
    if n < 11 {
        return false;
    }
    let date = name.substring_char(7, n - 4);
    match parse_day(date) {
        Some(day) => day_expired(day, today),
        None => false,
    }
}

/// The test that a file name passes if it is due for deletion on `today`.
pub open spec fn expired_on(today: int) -> spec_fn(Seq<char>) -> bool {
    |name: Seq<char>| expired(name, today)
}

/// Those of `names`, in order, that are due for deletion on day `today`.
pub fn expired_logs(names: &Vec<String>, today: i32) -> (due: Vec<String>)
    ensures
        views_of(due@) == views_of(names@).filter(expired_on(today as int)),
{
    let n = names.len();
    let mut due: Vec<String> = Vec::new();
    let mut i: usize = 0;
    let ghost all = views_of(names@);
    let ghost pred = expired_on(today as int);
    proof {
        reveal(Seq::filter);
        assert(all.take(0) =~= Seq::<Seq<char>>::empty());
        assert(views_of(due@) =~= all.take(0).filter(pred));
    }
    while i < n
        invariant
            n == names@.len(),
            all == views_of(names@),
            pred == expired_on(today as int),
            i <= n,
            views_of(due@) == all.take(i as int).filter(pred),
        decreases n - i,
    {
        let ghost shown = views_of(due@);
        proof {
            reveal(Seq::filter);
            assert(all.take(i + 1).drop_last() =~= all.take(i as int));
            assert(all.take(i + 1).last() == names@[i as int]@);
        }
        if is_expired(names[i].as_str(), today) {
            let name = names[i].clone();
            due.push(name);
            assert(views_of(due@) =~= shown.push(name@));
        }
        i = i + 1;
    }
    assert(all.take(n as int) =~= all);
    due
}

/// Those of `names`, in order, that are due for deletion today.
pub fn stale_logs(names: &Vec<String>) -> (due: Vec<String>)
    ensures
        exists|today: int| views_of(due@) == views_of(names@).filter(expired_on(today)),
{
    let today = today_utc();
    let due = expired_logs(names, today);
    assert(views_of(due@) == views_of(names@).filter(expired_on(today as int)));
    due
}

} // verus!
