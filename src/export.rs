//! CSV rendering of log entries.
use vstd::prelude::*;
use crate::csv::{escape_csv_field, escaped};
use crate::logs::{get_logs, query_result, LogEntry, LogFilter, LogTable};
use crate::text::{push_char, push_str};

verus! {

/// Header line of an export: time, level, module, message, error detail, task id.
pub const CSV_HEADER: &'static str = "时间,级别,模块,消息,错误详情,任务ID\n";

/// Most rows that one export holds.
pub const EXPORT_CAP: i32 = 10000;

/// The character of one decimal digit.
pub open spec fn digit_char(d: nat) -> char {
    if d == 0 {
        '0'
    } else if d == 1 {
        '1'
    } else if d == 2 {
        '2'
    } else if d == 3 {
        '3'
    } else if d == 4 {
        '4'
    } else if d == 5 {
        '5'
    } else if d == 6 {
        '6'
    } else if d == 7 {
        '7'
    } else if d == 8 {
        '8'
    } else {
        '9'
    }
}

/// Decimal digits of `n`, most significant first, without leading zeros.
pub open spec fn digits(n: nat) -> Seq<char>
    decreases n,
{
    if n < 10 {
        seq![digit_char(n)]
    } else {
        digits(n / 10).push(digit_char(n % 10))
    }
}

/// Decimal text of an integer, with a leading '-' when negative.
pub open spec fn decimal(i: int) -> Seq<char> {
    if i < 0 {
        seq!['-'] + digits((-i) as nat)
    } else {
        digits(i as nat)
    }
}

/// An optional text, empty when absent.
pub open spec fn text_or_empty(o: Option<String>) -> Seq<char> {
    match o {
        Some(t) => t@,
        None => Seq::empty(),
    }
}

/// The task id column: decimal, or empty when absent.
pub open spec fn task_text(t: Option<i64>) -> Seq<char> {
    match t {
        Some(i) => decimal(i as int),
        None => Seq::empty(),
    }
}

/// One CSV line: timestamp, level, module, message, error detail, task id.
pub open spec fn csv_row(e: LogEntry) -> Seq<char> {
    escaped(e.timestamp@) + seq![','] + escaped(e.level@) + seq![','] + escaped(
        text_or_empty(e.module),
    ) + seq![','] + escaped(e.message@) + seq![','] + escaped(text_or_empty(e.error_detail))
        + seq![','] + task_text(e.task_id) + seq!['\n']
}

/// The lines of all entries, in order.
pub open spec fn csv_rows(s: Seq<LogEntry>) -> Seq<char>
    decreases s.len(),
{
    if s.len() == 0 {
        Seq::empty()
    } else {
        csv_rows(s.drop_last()) + csv_row(s.last())
    }
}

/// A whole export: the header, then one line per entry.
pub open spec fn csv_document(s: Seq<LogEntry>) -> Seq<char> {
    CSV_HEADER@ + csv_rows(s)
}

fn digit_of(d: u64) -> (c: char)
    requires
        d < 10,
    ensures
        c == digit_char(d as nat),
{
    if d == 0 {
        '0'
    } else if d == 1 {
        '1'
    } else if d == 2 {
        '2'
    } else if d == 3 {
        '3'
    } else if d == 4 {
        '4'
    } else if d == 5 {
        '5'
    } else if d == 6 {
        '6'
    } else if d == 7 {
        '7'
    } else if d == 8 {
        '8'
    } else {
        '9'
    }
}

fn push_digits(out: &mut String, m: u64)
    ensures
        final(out)@ == old(out)@ + digits(m as nat),
    decreases m,
{
    if m >= 10 {
        push_digits(out, m / 10);
    }
    push_char(out, digit_of(m % 10));
    assert(final(out)@ =~= old(out)@ + digits(m as nat)) by {
        if m < 10 {
            assert(digits(m as nat) == seq![digit_char(m as nat)]);
        }
    }
}

/// Appends the decimal text of `i`.
pub fn push_decimal(out: &mut String, i: i64)
    ensures
        final(out)@ == old(out)@ + decimal(i as int),
{
    if i < 0 {
        push_char(out, '-');
        let m: u64 = (-(i as i128)) as u64;
        push_digits(out, m);
        assert(final(out)@ =~= old(out)@ + decimal(i as int));
    } else {
        push_digits(out, i as u64);
    }
}

fn push_field(out: &mut String, s: &str)
    ensures
        final(out)@ == old(out)@ + escaped(s@),
{
    let e = escape_csv_field(s);
    push_str(out, e.as_str());
}

fn push_opt_field(out: &mut String, s: &Option<String>)
    ensures
        final(out)@ == old(out)@ + escaped(text_or_empty(*s)),
{
    match s {
        Some(t) => {
            assert(text_or_empty(*s) == t@);
            push_field(out, t.as_str());
        },
        None => {
            proof {
                reveal_strlit("");
            }
            assert(""@ =~= Seq::<char>::empty());
            push_field(out, "");
        },
    }
}

/// Appends the CSV line of `e`.
pub fn push_row(out: &mut String, e: &LogEntry)
    ensures
        final(out)@ == old(out)@ + csv_row(*e),
{
    let ghost start = out@;
    push_field(out, e.timestamp.as_str());
    push_char(out, ',');
    push_field(out, e.level.as_str());
    push_char(out, ',');
    push_opt_field(out, &e.module);
    push_char(out, ',');
    push_field(out, e.message.as_str());
    push_char(out, ',');
    push_opt_field(out, &e.error_detail);
    push_char(out, ',');
    match e.task_id {
        Some(id) => push_decimal(out, id),
        None => {},
    }
    push_char(out, '\n');
    assert(out@ =~= start + csv_row(*e));
}

/// Renders entries as a CSV document: the header, then one line per entry.
pub fn render_csv(entries: &Vec<LogEntry>) -> (r: String)
    ensures
        r@ == csv_document(entries@),
{
    let mut out = String::new();
    push_str(&mut out, CSV_HEADER);
    let mut i: usize = 0;
    while i < entries.len()
        invariant
            i <= entries@.len(),
            out@ == CSV_HEADER@ + csv_rows(entries@.subrange(0, i as int)),
        decreases entries@.len() - i,
    {
        push_row(&mut out, &entries[i]);
        proof {
            let s = entries@.subrange(0, i + 1 as int);
            assert(s.drop_last() =~= entries@.subrange(0, i as int));
        }
        i = i + 1;
        assert(out@ =~= CSV_HEADER@ + csv_rows(entries@.subrange(0, i as int)));
    }
    assert(entries@.subrange(0, entries@.len() as int) =~= entries@);
    out
}

/// The entries that meet the filter (any keyword), newest first and at most
/// `EXPORT_CAP` of them, as a CSV document.
pub fn export_logs(
    table: &LogTable,
    level: Option<String>,
    module: Option<String>,
    start_time: Option<String>,
    end_time: Option<String>,
) -> (r: String)
    ensures
        r@ == csv_document(
            query_result(
                table@,
                LogFilter { level, module, start_time, end_time, keyword: None },
                EXPORT_CAP,
                0,
            ),
        ),
{
    let rows = get_logs(table, level, module, start_time, end_time, None, EXPORT_CAP, 0);
    render_csv(&rows)
}

} // verus!
