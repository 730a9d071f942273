//! The log table: append-only entries kept in timestamp order, with a
//! conjunctive filtered query, pagination, statistics and retention pruning.
use vstd::prelude::*;
use crate::clock::{format_utc_seconds, utc_now, utc_text};
use crate::error::StoreError;
use crate::order::{lemma_text_le_total, lemma_text_le_trans, text_le, text_less_eq};
use crate::text::{chars_of, contains_substring, contains_text, push_char};

verus! {

/// The recognised levels.
pub const DEBUG: &'static str = "DEBUG";
pub const INFO: &'static str = "INFO";
pub const WARN: &'static str = "WARN";
pub const ERROR: &'static str = "ERROR";

/// One log record.
#[derive(Debug)]
pub struct LogEntry {
    pub id: i64,
    pub timestamp: String,
    pub level: String,
    pub module: Option<String>,
    pub message: String,
    pub error_detail: Option<String>,
    pub task_id: Option<i64>,
}

/// Aggregate counts over the log table.
#[derive(Debug)]
pub struct LogStats {
    pub total: usize,
    pub debug: usize,
    pub info: usize,
    pub warn: usize,
    pub error: usize,
    pub today_count: usize,
}

/// Independently optional conditions of a query; those given must all hold.
pub struct LogFilter {
    /// Exact level.
    pub level: Option<String>,
    /// Exact module.
    pub module: Option<String>,
    /// Inclusive lower bound on the timestamp text.
    pub start_time: Option<String>,
    /// Inclusive upper bound on the timestamp text.
    pub end_time: Option<String>,
    /// Case-sensitive substring of the message.
    pub keyword: Option<String>,
}

/// The log table. Entries are kept in ascending timestamp order; among equal
/// timestamps, in the order they were added.
pub struct LogTable {
    entries: Vec<LogEntry>,
    next_id: i64,
}

/// Timestamps never decrease along `s`.
pub open spec fn sorted_by_time(s: Seq<LogEntry>) -> bool {
    forall|i: int, j: int|
        0 <= i < j < s.len() ==> text_le(#[trigger] s[i].timestamp@, #[trigger] s[j].timestamp@)
}

/// An optional text equals the optional condition, when the condition is given.
pub open spec fn opt_text_eq(value: Option<String>, cond: Option<String>) -> bool {
    match cond {
        None => true,
        Some(c) => value.is_some() && value.unwrap()@ == c@,
    }
}

/// `e` meets every condition of `f` that is given.
pub open spec fn matches(e: LogEntry, f: LogFilter) -> bool {
    &&& (f.level.is_some() ==> e.level@ == f.level.unwrap()@)
    &&& opt_text_eq(e.module, f.module)
    &&& (f.start_time.is_some() ==> text_le(f.start_time.unwrap()@, e.timestamp@))
    &&& (f.end_time.is_some() ==> text_le(e.timestamp@, f.end_time.unwrap()@))
    &&& (f.keyword.is_some() ==> contains_text(e.message@, f.keyword.unwrap()@))
}

/// The entries of `s` that meet `f`, last first.
pub open spec fn select_desc(s: Seq<LogEntry>, f: LogFilter) -> Seq<LogEntry>
    decreases s.len(),
{
    if s.len() == 0 {
        Seq::empty()
    } else {
        select_desc(s.drop_first(), f) + if matches(s[0], f) {
            seq![s[0]]
        } else {
            Seq::empty()
        }
    }
}

/// First row index that a page starts at: a negative offset counts as none.
pub open spec fn page_start(len: int, offset: i32) -> int {
    let off: int = if offset < 0 {
        0
    } else {
        offset as int
    };
    if off < len {
        off
    } else {
        len
    }
}

/// Row index that a page ends before: a negative limit means no limit.
pub open spec fn page_end(len: int, offset: i32, limit: i32) -> int {
    let start = page_start(len, offset);
    if limit < 0 || start + limit >= len {
        len
    } else {
        start + limit
    }
}

/// `limit` rows of `s` after skipping `offset`.
pub open spec fn page(s: Seq<LogEntry>, offset: i32, limit: i32) -> Seq<LogEntry> {
    s.subrange(page_start(s.len() as int, offset), page_end(s.len() as int, offset, limit))
}

/// What a query returns: the matching entries, newest first, paginated.
pub open spec fn query_result(s: Seq<LogEntry>, f: LogFilter, limit: i32, offset: i32) -> Seq<LogEntry> {
    page(select_desc(s, f), offset, limit)
}

/// The number of entries of `s` whose level is `level`.
pub open spec fn count_level(s: Seq<LogEntry>, level: Seq<char>) -> nat
    decreases s.len(),
{
    if s.len() == 0 {
        0
    } else {
        count_level(s.drop_last(), level) + if s.last().level@ == level {
            1nat
        } else {
            0nat
        }
    }
}

/// The timestamp text starts with the day text.
pub open spec fn on_day(timestamp: Seq<char>, day: Seq<char>) -> bool {
    day.len() <= timestamp.len() && timestamp.subrange(0, day.len() as int) == day
}

/// The number of entries of `s` stamped on `day`.
pub open spec fn count_day(s: Seq<LogEntry>, day: Seq<char>) -> nat
    decreases s.len(),
{
    if s.len() == 0 {
        0
    } else {
        count_day(s.drop_last(), day) + if on_day(s.last().timestamp@, day) {
            1nat
        } else {
            0nat
        }
    }
}

/// The statistics of `s` with `day` as the current date.
pub open spec fn stats_match(st: LogStats, s: Seq<LogEntry>, day: Seq<char>) -> bool {
    &&& st.total == s.len()
    &&& st.debug == count_level(s, DEBUG@)
    &&& st.info == count_level(s, INFO@)
    &&& st.warn == count_level(s, WARN@)
    &&& st.error == count_level(s, ERROR@)
    &&& st.today_count == count_day(s, day)
}

/// The entries that pruning to `keep` leaves: the `keep` last ones.
pub open spec fn kept(s: Seq<LogEntry>, keep: i32) -> Seq<LogEntry> {
    if keep <= 0 {
        Seq::empty()
    } else if keep >= s.len() {
        s
    } else {
        s.subrange(s.len() - keep, s.len() as int)
    }
}

/// `new` is `old` with `e` put in at one position.
pub open spec fn inserted(old: Seq<LogEntry>, new: Seq<LogEntry>, e: LogEntry) -> bool {
    exists|p: int| 0 <= p <= old.len() && new == #[trigger] old.insert(p, e)
}

/// The view of an optional owned text.
pub open spec fn opt_view(o: Option<String>) -> Option<Seq<char>> {
    match o {
        Some(t) => Some(t@),
        None => None,
    }
}

/// The view of an optional borrowed text.
pub open spec fn opt_str_view(o: Option<&str>) -> Option<Seq<char>> {
    match o {
        Some(t) => Some(t@),
        None => None,
    }
}

/// `e` holds the given fields, and a timestamp that is the UTC text of some second.
pub open spec fn entry_has(
    e: LogEntry,
    id: i64,
    level: Seq<char>,
    module: Option<Seq<char>>,
    message: Seq<char>,
    error_detail: Option<Seq<char>>,
    task_id: Option<i64>,
) -> bool {
    &&& e.id == id
    &&& e.level@ == level
    &&& opt_view(e.module) == module
    &&& e.message@ == message
    &&& opt_view(e.error_detail) == error_detail
    &&& e.task_id == task_id
    &&& exists|s: i64| utc_text(s) == Some(e.timestamp@)
}

fn copy_text(s: &Option<String>) -> (r: Option<String>)
    ensures
        r == *s,
{
    match s {
        Some(t) => Some(t.clone()),
        None => None,
    }
}

fn opt_owned(s: Option<&str>) -> (r: Option<String>)
    ensures
        r.is_some() == s.is_some(),
        r.is_some() ==> r.unwrap()@ == s.unwrap()@,
{
    match s {
        Some(t) => Some(t.to_owned()),
        None => None,
    }
}

impl LogEntry {
    /// A field-by-field copy.
    pub fn duplicate(&self) -> (r: LogEntry)
        ensures
            r == *self,
    {
        LogEntry {
            id: self.id,
            timestamp: self.timestamp.clone(),
            level: self.level.clone(),
            module: copy_text(&self.module),
            message: self.message.clone(),
            error_detail: copy_text(&self.error_detail),
            task_id: self.task_id,
        }
    }
}

/// Whether `e` meets every given condition of `f`.
pub fn entry_matches(e: &LogEntry, f: &LogFilter) -> (r: bool)
    ensures
        r == matches(*e, *f),
{
    match &f.level {
        Some(l) => {
            if !(e.level == *l) {
                return false;
            }
        },
        None => {},
    }
    match &f.module {
        Some(m) => match &e.module {
            Some(em) => {
                if !(*em == *m) {
                    return false;
                }
            },
            None => {
                return false;
            },
        },
        None => {},
    }
    match &f.start_time {
        Some(t) => {
            if !text_less_eq(t.as_str(), e.timestamp.as_str()) {
                return false;
            }
        },
        None => {},
    }
    match &f.end_time {
        Some(t) => {
            if !text_less_eq(e.timestamp.as_str(), t.as_str()) {
                return false;
            }
        },
        None => {},
    }
    match &f.keyword {
        Some(k) => contains_substring(e.message.as_str(), k.as_str()),
        None => true,
    }
}

impl View for LogTable {
    type V = Seq<LogEntry>;

    closed spec fn view(&self) -> Seq<LogEntry> {
        self.entries@
    }
}

impl LogTable {
    /// The identifier that the next appended entry gets.
    pub closed spec fn next_id_spec(&self) -> i64 {
        self.next_id
    }

    /// The table's invariant: entries in timestamp order.
    pub open spec fn wf(&self) -> bool {
        sorted_by_time(self@)
    }

    /// An empty table; identifiers start at 1.
    pub fn new() -> (r: LogTable)
        ensures
            r.wf(),
            r@.len() == 0,
            r.next_id_spec() == 1,
    {
        LogTable { entries: Vec::new(), next_id: 1 }
    }

    /// The identifier that the next appended entry gets.
    pub fn next_id(&self) -> (r: i64)
        ensures
            r == self.next_id_spec(),
    {
        self.next_id
    }

    /// The entries, oldest first.
    pub fn entries(&self) -> (r: &Vec<LogEntry>)
        ensures
            r@ == self@,
    {
        &self.entries
    }

    /// The number of entries.
    pub fn len(&self) -> (r: usize)
        ensures
            r == self@.len(),
    {
        self.entries.len()
    }

    /// Puts `entry` in at its place by timestamp, after every entry with an equal
    /// or earlier timestamp. Later identifiers are drawn above `entry.id`.
    pub fn insert_entry(&mut self, entry: LogEntry)
        requires
            old(self).wf(),
        ensures
            final(self).wf(),
            inserted(old(self)@, final(self)@, entry),
            final(self).next_id_spec() >= old(self).next_id_spec(),
    {
        let ghost s = self.entries@;
        let n = self.entries.len();
        let mut p: usize = n;
        while p > 0 && !text_less_eq(self.entries[p - 1].timestamp.as_str(), entry.timestamp.as_str())
            invariant
                self.entries@ == s,
                n == s.len(),
                p <= n,
                forall|k: int| p <= k < n ==> !text_le(#[trigger] s[k].timestamp@, entry.timestamp@),
            decreases p,
        {
            p = p - 1;
        }
        if entry.id >= self.next_id {
            self.next_id = if entry.id < i64::MAX {
                entry.id + 1
            } else {
                i64::MAX
            };
        }
        let ghost e = entry;
        self.entries.insert(p, entry);
        proof {
            let t = s.insert(p as int, e);
            assert(self.entries@ == t);
            assert forall|i: int, j: int| 0 <= i < j < t.len() implies text_le(
                #[trigger] t[i].timestamp@,
                #[trigger] t[j].timestamp@,
            ) by {
                if j < p {
                } else if i > p {
                    assert(t[i] == s[i - 1] && t[j] == s[j - 1]);
                } else if i == p {
                    assert(t[j] == s[j - 1]);
                    lemma_text_le_total(s[j - 1].timestamp@, e.timestamp@);
                } else if j == p {
                    assert(text_le(s[p - 1].timestamp@, e.timestamp@));
                    if i < p - 1 {
                        lemma_text_le_trans(s[i].timestamp@, s[p - 1].timestamp@, e.timestamp@);
                    }
                } else {
                    assert(t[j] == s[j - 1]);
                }
            }
            assert(inserted(s, t, e));
        }
    }
}

proof fn lemma_select_step(s: Seq<LogEntry>, f: LogFilter, i: int)
    requires
        0 <= i < s.len(),
    ensures
        select_desc(s.subrange(i, s.len() as int), f) == select_desc(
            s.subrange(i + 1, s.len() as int),
            f,
        ) + if matches(s[i], f) {
            seq![s[i]]
        } else {
            Seq::<LogEntry>::empty()
        },
{
    assert(s.subrange(i, s.len() as int).drop_first() =~= s.subrange(i + 1, s.len() as int));
}

proof fn lemma_counts_bounded(s: Seq<LogEntry>, level: Seq<char>, day: Seq<char>)
    ensures
        count_level(s, level) <= s.len(),
        count_day(s, day) <= s.len(),
    decreases s.len(),
{
    if s.len() > 0 {
        lemma_counts_bounded(s.drop_last(), level, day);
    }
}

/// Whether `ts` starts with `day`.
fn starts_with_text(ts: &str, day: &str) -> (r: bool)
    ensures
        r == on_day(ts@, day@),
{
    let t = chars_of(ts);
    let d = chars_of(day);
    if d.len() > t.len() {
        return false;
    }
    let mut i: usize = 0;
    while i < d.len()
        invariant
            t@ == ts@,
            d@ == day@,
            d@.len() <= t@.len(),
            i <= d@.len(),
            forall|k: int| 0 <= k < i ==> t@[k] == d@[k],
        decreases d@.len() - i,
    {
        if t[i] != d[i] {
            assert(t@.subrange(0, d@.len() as int)[i as int] != d@[i as int]);
            return false;
        }
        i = i + 1;
    }
    assert(t@.subrange(0, d@.len() as int) =~= d@);
    true
}

/// The first `n` characters of `s` (all of it if shorter).
fn prefix_text(s: &str, n: usize) -> (r: String)
    ensures
        r@ == s@.subrange(0, if n < s@.len() { n as int } else { s@.len() as int }),
{
    let cs = chars_of(s);
    let end = if n < cs.len() {
        n
    } else {
        cs.len()
    };
    let mut out = String::new();
    let mut i: usize = 0;
    while i < end
        invariant
            cs@ == s@,
            end <= cs@.len(),
            end == (if n < s@.len() { n as int } else { s@.len() as int }),
            i <= end,
            out@ == cs@.subrange(0, i as int),
        decreases end - i,
    {
        push_char(&mut out, cs[i]);
        i = i + 1;
        assert(out@ =~= cs@.subrange(0, i as int));
    }
    out
}

impl LogTable {
    /// Adds one entry stamped `timestamp`, under the next identifier, which it
    /// returns. Fails with `Io` only when identifiers are used up.
    pub fn append(
        &mut self,
        timestamp: String,
        level: String,
        module: Option<String>,
        message: String,
        error_detail: Option<String>,
        task_id: Option<i64>,
    ) -> (r: Result<i64, StoreError>)
        requires
            old(self).wf(),
        ensures
            final(self).wf(),
            old(self).next_id_spec() == i64::MAX ==> r == Err::<i64, StoreError>(StoreError::Io)
                && final(self)@ == old(self)@,
            old(self).next_id_spec() < i64::MAX ==> r == Ok::<i64, StoreError>(old(self).next_id_spec())
                && inserted(old(self)@, final(self)@, LogEntry {
                id: old(self).next_id_spec(),
                timestamp,
                level,
                module,
                message,
                error_detail,
                task_id,
            }),
    {
        if self.next_id == i64::MAX {
            return Err(StoreError::Io);
        }
        let id = self.next_id;
        self.insert_entry(LogEntry { id, timestamp, level, module, message, error_detail, task_id });
        Ok(id)
    }
}

/// Adds one entry stamped with the current UTC time as "YYYY-MM-DD HH:MM:SS".
pub fn log_message(
    table: &mut LogTable,
    level: &str,
    module: Option<&str>,
    message: &str,
    error_detail: Option<&str>,
    task_id: Option<i64>,
) -> (r: Result<(), StoreError>)
    requires
        old(table).wf(),
    ensures
        final(table).wf(),
        r.is_err() ==> final(table)@ == old(table)@,
        r.is_ok() ==> old(table).next_id_spec() < i64::MAX && exists|p: int|
            0 <= p <= old(table)@.len() && final(table)@ == #[trigger] old(table)@.insert(p, final(table)@[p])
            && entry_has(final(table)@[p], old(table).next_id_spec(), level@, opt_str_view(module),
                message@, opt_str_view(error_detail), task_id),
{
    let now = utc_now();
    let stamp = match format_utc_seconds(now.secs) {
        Some(t) => t,
        None => {
            return Err(StoreError::Io);
        },
    };
    let lvl = level.to_owned();
    let md = opt_owned(module);
    let msg = message.to_owned();
    let det = opt_owned(error_detail);
    let ghost e = LogEntry {
        id: table.next_id_spec(),
        timestamp: stamp,
        level: lvl,
        module: md,
        message: msg,
        error_detail: det,
        task_id,
    };
    let ghost secs = now.secs;
    match table.append(stamp, lvl, md, msg, det, task_id) {
        Ok(_) => {
            proof {
                let p = choose|p: int| 0 <= p <= old(table)@.len() && table@ == #[trigger] old(table)@.insert(p, e);
                assert(table@[p] == e);
                assert(utc_text(secs) == Some(e.timestamp@));
                assert(entry_has(table@[p], old(table).next_id_spec(), level@, opt_str_view(module),
                    message@, opt_str_view(error_detail), task_id));
            }
            Ok(())
        },
        Err(e) => Err(e),
    }
}

impl LogTable {
    /// The entries that meet `f`, newest first, `limit` of them (all when
    /// negative) after skipping `offset` (none when negative).
    pub fn query(&self, f: &LogFilter, limit: i32, offset: i32) -> (r: Vec<LogEntry>)
        ensures
            r@ == query_result(self@, *f, limit, offset),
    {
        let ghost s = self.entries@;
        let n = self.entries.len();
        let mut all: Vec<LogEntry> = Vec::new();
        let mut i: usize = n;
        assert(s.subrange(n as int, n as int) =~= Seq::<LogEntry>::empty());
        while i > 0
            invariant
                self.entries@ == s,
                n == s.len(),
                i <= n,
                all@ == select_desc(s.subrange(i as int, n as int), *f),
            decreases i,
        {
            i = i - 1;
            proof {
                lemma_select_step(s, *f, i as int);
            }
            if entry_matches(&self.entries[i], f) {
                all.push(self.entries[i].duplicate());
            }
        }
        assert(s.subrange(0, n as int) =~= s);
        let len = all.len();
        let start: usize = if offset < 0 {
            0
        } else if (offset as usize) < len {
            offset as usize
        } else {
            len
        };
        let end: usize = if limit < 0 || limit as usize >= len - start {
            len
        } else {
            start + limit as usize
        };
        let mut out: Vec<LogEntry> = Vec::new();
        let mut j: usize = start;
        while j < end
            invariant
                start <= j <= end,
                end <= all@.len(),
                out@ == all@.subrange(start as int, j as int),
            decreases end - j,
        {
            out.push(all[j].duplicate());
            j = j + 1;
            assert(out@ =~= all@.subrange(start as int, j as int));
        }
        out
    }

    /// Counts of all entries, of each recognised level, and of those stamped on
    /// `day` ("YYYY-MM-DD").
    pub fn stats_on(&self, day: &str) -> (r: LogStats)
        ensures
            stats_match(r, self@, day@),
    {
        let ghost s = self.entries@;
        let debug = String::from_str(DEBUG);
        let info = String::from_str(INFO);
        let warn = String::from_str(WARN);
        let error = String::from_str(ERROR);
        let mut st = LogStats { total: 0, debug: 0, info: 0, warn: 0, error: 0, today_count: 0 };
        let mut i: usize = 0;
        while i < self.entries.len()
            invariant
                self.entries@ == s,
                i <= s.len(),
                debug@ == DEBUG@,
                info@ == INFO@,
                warn@ == WARN@,
                error@ == ERROR@,
                stats_match(st, s.subrange(0, i as int), day@),
            decreases s.len() - i,
        {
            let e = &self.entries[i];
            proof {
                assert(s.subrange(0, i + 1 as int).drop_last() =~= s.subrange(0, i as int));
                lemma_counts_bounded(s.subrange(0, i as int), DEBUG@, day@);
                lemma_counts_bounded(s.subrange(0, i as int), INFO@, day@);
                lemma_counts_bounded(s.subrange(0, i as int), WARN@, day@);
                lemma_counts_bounded(s.subrange(0, i as int), ERROR@, day@);
            }
            if e.level == debug {
                st.debug = st.debug + 1;
            }
            if e.level == info {
                st.info = st.info + 1;
            }
            if e.level == warn {
                st.warn = st.warn + 1;
            }
            if e.level == error {
                st.error = st.error + 1;
            }
            if starts_with_text(e.timestamp.as_str(), day) {
                st.today_count = st.today_count + 1;
            }
            st.total = st.total + 1;
            i = i + 1;
        }
        assert(s.subrange(0, s.len() as int) =~= s);
        st
    }

    /// Deletes every entry but the `keep_count` most recent ones; none remain
    /// when `keep_count` is zero or negative.
    pub fn prune(&mut self, keep_count: i32)
        requires
            old(self).wf(),
        ensures
            final(self).wf(),
            final(self)@ == kept(old(self)@, keep_count),
            final(self).next_id_spec() == old(self).next_id_spec(),
    {
        let n = self.entries.len();
        if keep_count <= 0 {
            self.entries.clear();
        } else if (keep_count as usize) < n {
            let rest = self.entries.split_off(n - keep_count as usize);
            self.entries = rest;
        }
        proof {
            let s = old(self)@;
            let t = self@;
            assert forall|i: int, j: int| 0 <= i < j < t.len() implies text_le(
                #[trigger] t[i].timestamp@,
                #[trigger] t[j].timestamp@,
            ) by {
                if 0 < keep_count < n {
                    let b = n - keep_count;
                    assert(t[i] == s[b + i] && t[j] == s[b + j]);
                }
            }
        }
    }
}

/// Length of the "YYYY-MM-DD" date at the start of a timestamp text.
pub const DATE_LEN: usize = 10;

/// The date part of a timestamp text.
pub open spec fn date_part(t: Seq<char>) -> Seq<char> {
    t.subrange(0, if DATE_LEN < t.len() { DATE_LEN as int } else { t.len() as int })
}

/// Builds the filter from its optional parts and runs the query.
pub fn get_logs(
    table: &LogTable,
    level: Option<String>,
    module: Option<String>,
    start_time: Option<String>,
    end_time: Option<String>,
    keyword: Option<String>,
    limit: i32,
    offset: i32,
) -> (r: Vec<LogEntry>)
    ensures
        r@ == query_result(table@, LogFilter { level, module, start_time, end_time, keyword }, limit, offset),
{
    let f = LogFilter { level, module, start_time, end_time, keyword };
    table.query(&f, limit, offset)
}

/// The statistics of the table, with today's UTC date as the current date.
pub fn get_log_stats(table: &LogTable) -> (r: Result<LogStats, StoreError>)
    ensures
        r.is_ok() ==> exists|secs: i64| #[trigger] utc_text(secs).is_some()
            && stats_match(r.unwrap(), table@, date_part(utc_text(secs).unwrap())),
{
    let now = utc_now();
    match format_utc_seconds(now.secs) {
        None => Err(StoreError::Io),
        Some(t) => {
            let day = prefix_text(t.as_str(), DATE_LEN);
            let st = table.stats_on(day.as_str());
            assert(utc_text(now.secs).is_some());
            Ok(st)
        },
    }
}

/// Keeps only the `keep_count` most recent entries.
pub fn clear_logs(table: &mut LogTable, keep_count: i32)
    requires
        old(table).wf(),
    ensures
        final(table).wf(),
        final(table)@ == kept(old(table)@, keep_count),
{
    table.prune(keep_count);
}

/// The filter with no condition.
pub open spec fn no_filter() -> LogFilter {
    LogFilter { level: None, module: None, start_time: None, end_time: None, keyword: None }
}

/// Timestamps never increase along `s`.
pub open spec fn sorted_desc_by_time(s: Seq<LogEntry>) -> bool {
    forall|i: int, j: int|
        0 <= i < j < s.len() ==> text_le(#[trigger] s[j].timestamp@, #[trigger] s[i].timestamp@)
}

/// A query selects exactly the entries that meet the filter, and when the
/// table is in timestamp order it returns them newest first.
pub proof fn law_query_selects_matching(s: Seq<LogEntry>, f: LogFilter)
    ensures
        forall|e: LogEntry| #[trigger] select_desc(s, f).contains(e) <==> (s.contains(e) && matches(e, f)),
        sorted_by_time(s) ==> sorted_desc_by_time(select_desc(s, f)),
    decreases s.len(),
{
    if s.len() > 0 {
        let t = s.drop_first();
        law_query_selects_matching(t, f);
        let r = select_desc(s, f);
        let rt = select_desc(t, f);
        assert forall|e: LogEntry| #[trigger] r.contains(e) <==> (s.contains(e) && matches(e, f)) by {
            if r.contains(e) {
                let k = choose|k: int| 0 <= k < r.len() && r[k] == e;
                if k < rt.len() {
                    assert(rt[k] == e);
                    assert(rt.contains(e));
                    let m = choose|m: int| 0 <= m < t.len() && t[m] == e;
                    assert(s[m + 1] == e);
                }
                else {
                    assert(s[0] == e);
                }
            }
            if s.contains(e) && matches(e, f) {
                let m = choose|m: int| 0 <= m < s.len() && s[m] == e;
                if m == 0 {
                    assert(r[rt.len() as int] == e);
                } else {
                    assert(t[m - 1] == e);
                    assert(rt.contains(e));
                    let k = choose|k: int| 0 <= k < rt.len() && rt[k] == e;
                    assert(r[k] == e);
                }
            }
        }
        if sorted_by_time(s) {
            assert(sorted_by_time(t)) by {
                assert forall|i: int, j: int| 0 <= i < j < t.len() implies text_le(
                    #[trigger] t[i].timestamp@,
                    #[trigger] t[j].timestamp@,
                ) by {
                    assert(t[i] == s[i + 1] && t[j] == s[j + 1]);
                }
            }
            assert forall|i: int, j: int| 0 <= i < j < r.len() implies text_le(
                #[trigger] r[j].timestamp@,
                #[trigger] r[i].timestamp@,
            ) by {
                if j < rt.len() {
                    assert(r[i] == rt[i] && r[j] == rt[j]);
                } else {
                    assert(r[j] == s[0]);
                    assert(r[i] == rt[i]);
                    assert(rt.contains(rt[i]));
                    let m = choose|m: int| 0 <= m < t.len() && t[m] == rt[i];
                    assert(s[m + 1] == rt[i]);
                }
            }
        }
    }
}

/// With no filter, a query sees every entry, last stored first; a first page
/// with no limit, or one at least as large as the table, holds them all.
pub proof fn law_query_all_newest_first(s: Seq<LogEntry>, limit: i32)
    ensures
        select_desc(s, no_filter()).len() == s.len(),
        forall|i: int| 0 <= i < s.len() ==> #[trigger] select_desc(s, no_filter())[i] == s[s.len() - 1 - i],
        limit < 0 || limit >= s.len() ==> page(select_desc(s, no_filter()), 0, limit) == select_desc(s, no_filter()),
    decreases s.len(),
{
    if s.len() > 0 {
        let t = s.drop_first();
        law_query_all_newest_first(t, limit);
        let r = select_desc(s, no_filter());
        assert(matches(s[0], no_filter()));
        assert forall|i: int| 0 <= i < s.len() implies #[trigger] r[i] == s[s.len() - 1 - i] by {
            if i < t.len() {
                assert(r[i] == select_desc(t, no_filter())[i]);
                assert(t[t.len() - 1 - i] == s[s.len() - 1 - i]);
            }
        }
    }
    if limit < 0 || limit >= s.len() {
        assert(page(select_desc(s, no_filter()), 0, limit) =~= select_desc(s, no_filter()));
    }
}

/// An entry whose level is none of the recognised four adds to the total and
/// to no level's count.
pub proof fn law_unrecognised_level_counts_in_total_only(s: Seq<LogEntry>, e: LogEntry)
    requires
        e.level@ != DEBUG@,
        e.level@ != INFO@,
        e.level@ != WARN@,
        e.level@ != ERROR@,
    ensures
        s.push(e).len() == s.len() + 1,
        count_level(s.push(e), DEBUG@) == count_level(s, DEBUG@),
        count_level(s.push(e), INFO@) == count_level(s, INFO@),
        count_level(s.push(e), WARN@) == count_level(s, WARN@),
        count_level(s.push(e), ERROR@) == count_level(s, ERROR@),
{
    assert(s.push(e).drop_last() =~= s);
}

/// Pruning keeps the most recent entries: as many as asked (none for zero or
/// less, all when asked for at least as many as there are), each no older than
/// any removed one; asking for at least as many as there are changes nothing.
pub proof fn law_prune_keeps_most_recent(s: Seq<LogEntry>, keep: i32)
    requires
        sorted_by_time(s),
    ensures
        kept(s, keep).len() == (if keep <= 0 { 0 } else if keep >= s.len() { s.len() as int } else { keep as int }),
        keep >= s.len() ==> kept(s, keep) == s,
        forall|i: int, j: int|
            0 <= i < s.len() - kept(s, keep).len() && 0 <= j < kept(s, keep).len() ==> text_le(
                #[trigger] s[i].timestamp@,
                #[trigger] kept(s, keep)[j].timestamp@,
            ),
{
    let k = kept(s, keep);
    assert forall|i: int, j: int|
        0 <= i < s.len() - k.len() && 0 <= j < k.len() implies text_le(
            #[trigger] s[i].timestamp@,
            #[trigger] k[j].timestamp@,
        ) by {
        let b = s.len() - k.len();
        assert(k[j] == s[b + j]);
    }
}

} // verus!
