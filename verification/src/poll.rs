use vstd::prelude::*;

use crate::db::{copy_row, HealthCheckRow};
use crate::text::{decimal, decimal_string, join, joined, texts};

verus! {

/// Seconds between two reports of the failed health checks.
pub const REPORT_INTERVAL_SECS: u64 = 60 * 10;

/// Whether a health check failed: any status but 200, 0 included (the status
/// of a request that got no answer).
pub open spec fn is_failure(row: HealthCheckRow) -> bool {
    row.status != 200
}

/// Whether an HTTP status is a success: one of 200 to 299.
pub fn is_success(status: u16) -> (r: bool)
    ensures
        r == (200 <= status && status < 300),
{
    200 <= status && status < 300
}

/// The status recorded for a poll: the answer's status, or 0 where the
/// request failed.
pub open spec fn polled_status(status: Option<u16>) -> u16 {
    match status {
        Some(s) => s,
        None => 0,
    }
}

/// The health check of one poll of the endpoint `name`: the answer's status
/// (0 where the request got no answer), and the time taken in milliseconds,
/// cut to 64 bits as a cast does; not stored yet.
pub fn poll_row(name: String, status: Option<u16>, elapsed_millis: u128) -> (r: HealthCheckRow)
    ensures
        r.name == name,
        r.status == polled_status(status),
        status matches Some(s) ==> r.status == s,
        status is None ==> r.status == 0,
        r.response_time as int == elapsed_millis as int % 0x1_0000_0000_0000_0000,
        r.created_at is None,
{
    let response_time = elapsed_millis as u64;
    assert(response_time == elapsed_millis % 0x1_0000_0000_0000_0000) by (bit_vector)
        requires
            response_time == elapsed_millis as u64,
    ;
    let status = match status {
        Some(s) => s,
        None => 0,
    };
    HealthCheckRow { name, status, response_time, created_at: None }
}

/// Whether the time since the last report, `elapsed_secs` seconds and
/// `elapsed_nanos` nanoseconds, is over the report interval.
pub open spec fn report_due_spec(elapsed_secs: u64, elapsed_nanos: u32) -> bool {
    elapsed_secs * 1_000_000_000 + elapsed_nanos > REPORT_INTERVAL_SECS * 1_000_000_000
}

/// Whether a report is due: the time since the last report is longer than
/// the report interval.
pub fn report_due(elapsed_secs: u64, elapsed_nanos: u32) -> (r: bool)
    requires
        elapsed_nanos < 1_000_000_000,
    ensures
        r == report_due_spec(elapsed_secs, elapsed_nanos),
{
    elapsed_secs > REPORT_INTERVAL_SECS || (elapsed_secs == REPORT_INTERVAL_SECS && elapsed_nanos > 0)
}

/// The log after a health check has been handed to it: the check is added at
/// the end where it failed.
pub open spec fn after_record(log: Seq<HealthCheckRow>, row: HealthCheckRow) -> Seq<HealthCheckRow> {
    if is_failure(row) {
        log.push(row)
    } else {
        log
    }
}

/// The log after the health checks `rows` have been handed to it in order.
pub open spec fn after_records(log: Seq<HealthCheckRow>, rows: Seq<HealthCheckRow>) -> Seq<HealthCheckRow>
    decreases rows.len(),
{
    if rows.len() == 0 {
        log
    } else {
        after_record(after_records(log, rows.drop_last()), rows.last())
    }
}

/// The failed health checks gathered since the last report.
pub struct FailureLog {
    rows: Vec<HealthCheckRow>,
}

impl View for FailureLog {
    type V = Seq<HealthCheckRow>;

    closed spec fn view(&self) -> Seq<HealthCheckRow> {
        self.rows@
    }
}

impl FailureLog {
    /// An empty log.
    pub fn new() -> (r: FailureLog)
        ensures
            r@ == Seq::<HealthCheckRow>::empty(),
    {
        FailureLog { rows: Vec::new() }
    }

    /// The number of failed checks held.
    pub fn len(&self) -> (r: usize)
        ensures
            r == self@.len(),
    {
        self.rows.len()
    }

    /// Hands a health check to the log, which keeps it where it failed.
    pub fn record(&mut self, row: HealthCheckRow)
        ensures
            final(self)@ == after_record(old(self)@, row),
    {
        if row.status != 200 {
            self.rows.push(row);
        }
    }

    /// Where a report is due after `elapsed_secs` seconds and `elapsed_nanos`
    /// nanoseconds, the failed checks to report, all those held, in the order
    /// they came, and the log is emptied; else nothing, and the log stays.
    pub fn take_report(&mut self, elapsed_secs: u64, elapsed_nanos: u32) -> (r: Option<Vec<HealthCheckRow>>)
        requires
            elapsed_nanos < 1_000_000_000,
        ensures
            report_due_spec(elapsed_secs, elapsed_nanos) ==> r is Some && r->0@ == old(self)@
                && final(self)@ == Seq::<HealthCheckRow>::empty(),
            !report_due_spec(elapsed_secs, elapsed_nanos) ==> r is None && final(self)@ == old(self)@,
    {
        if report_due(elapsed_secs, elapsed_nanos) {
            let mut report: Vec<HealthCheckRow> = Vec::new();
            std::mem::swap(&mut report, &mut self.rows);
            Some(report)
        } else {
            None
        }
    }

    /// Ends a polling round in which the checks `rows` were made, after
    /// `elapsed_secs` seconds and `elapsed_nanos` nanoseconds since the last
    /// report: the failed checks are kept, then the report is taken where it
    /// is due.
    pub fn end_round(&mut self, rows: &Vec<HealthCheckRow>, elapsed_secs: u64, elapsed_nanos: u32) -> (r: Option<Vec<HealthCheckRow>>)
        requires
            elapsed_nanos < 1_000_000_000,
        ensures
            (final(self)@, match r {
                Some(v) => Some(v@),
                None => None,
            }) == round_step(old(self)@, rows@, report_due_spec(elapsed_secs, elapsed_nanos)),
            report_due_spec(elapsed_secs, elapsed_nanos) ==> r is Some
                && r->0@ == old(self)@ + rows@.filter(|x: HealthCheckRow| x.status != 200)
                && final(self)@ == Seq::<HealthCheckRow>::empty(),
            !report_due_spec(elapsed_secs, elapsed_nanos) ==> r is None
                && final(self)@ == old(self)@ + rows@.filter(|x: HealthCheckRow| x.status != 200),
    {
        let mut i: usize = 0;
        while i < rows.len()
            invariant
                i <= rows.len(),
                self@ == after_records(old(self)@, rows@.take(i as int)),
            decreases rows.len() - i,
        {
            assert(rows@.take(i + 1).drop_last() == rows@.take(i as int));
            assert(rows@.take(i + 1).last() == rows@[i as int]);
            self.record(copy_row(&rows[i]));
            i = i + 1;
        }
        assert(rows@.take(rows.len() as int) == rows@);
        proof {
            lemma_records_keep_failures(old(self)@, rows@);
        }
        self.take_report(elapsed_secs, elapsed_nanos)
    }
}

/// The log and the report at the end of a polling round in which the checks
/// `rows` were made: the failed ones are added to the log; then, where a
/// report is `due`, all that the log holds is reported and the log is
/// emptied.
pub open spec fn round_step(log: Seq<HealthCheckRow>, rows: Seq<HealthCheckRow>, due: bool) -> (Seq<HealthCheckRow>, Option<Seq<HealthCheckRow>>) {
    let held = after_records(log, rows);
    if due {
        (Seq::empty(), Some(held))
    } else {
        (held, None)
    }
}

/// The checks of a list of lists, one list after another.
pub open spec fn concat_all(lists: Seq<Seq<HealthCheckRow>>) -> Seq<HealthCheckRow>
    decreases lists.len(),
{
    if lists.len() == 0 {
        Seq::empty()
    } else {
        concat_all(lists.drop_last()) + lists.last()
    }
}

/// Law: the lists one after another: nothing for no list, and each further
/// list adds its checks at the end.
pub proof fn lemma_concat_all_appends(lists: Seq<Seq<HealthCheckRow>>, list: Seq<HealthCheckRow>)
    ensures
        concat_all(Seq::empty()) == Seq::<HealthCheckRow>::empty(),
        concat_all(lists.push(list)) == concat_all(lists) + list,
{
    assert(lists.push(list).drop_last() == lists);
}

/// The log, and the reports made in order, after polling rounds, each given
/// by its checks and whether a report was due at its end.
pub open spec fn run_rounds(log: Seq<HealthCheckRow>, rounds: Seq<(Seq<HealthCheckRow>, bool)>) -> (Seq<HealthCheckRow>, Seq<Seq<HealthCheckRow>>)
    decreases rounds.len(),
{
    if rounds.len() == 0 {
        (log, Seq::empty())
    } else {
        let before = run_rounds(log, rounds.drop_last());
        let step = round_step(before.0, rounds.last().0, rounds.last().1);
        match step.1 {
            Some(report) => (step.0, before.1.push(report)),
            None => (step.0, before.1),
        }
    }
}

/// The checks made in the rounds, in order.
pub open spec fn round_checks(rounds: Seq<(Seq<HealthCheckRow>, bool)>) -> Seq<HealthCheckRow> {
    concat_all(rounds.map_values(|r: (Seq<HealthCheckRow>, bool)| r.0))
}

/// Law: over any run of polling rounds that starts from an empty log, every
/// failed check goes into exactly one report, or is still held where no
/// report has come after it, and no check with status 200 goes into any:
/// the reports, one after another, then what the log still holds, are the
/// failed checks in the order they were made. A report is made at the end
/// of exactly the rounds at which it was due.
pub proof fn lemma_rounds_report_each_failure_once(rounds: Seq<(Seq<HealthCheckRow>, bool)>)
    ensures
        concat_all(run_rounds(Seq::empty(), rounds).1) + run_rounds(Seq::empty(), rounds).0
            == round_checks(rounds).filter(|r: HealthCheckRow| r.status != 200),
        run_rounds(Seq::empty(), rounds).1.len() == rounds.filter(|r: (Seq<HealthCheckRow>, bool)| r.1).len(),
    decreases rounds.len(),
{
    let pred = |r: HealthCheckRow| r.status != 200;
    let is_due = |r: (Seq<HealthCheckRow>, bool)| r.1;
    let first = |r: (Seq<HealthCheckRow>, bool)| r.0;
    let empty = Seq::<HealthCheckRow>::empty();
    if rounds.len() == 0 {
        reveal(Seq::filter);
        assert(round_checks(rounds) == empty);
        assert(concat_all(Seq::<Seq<HealthCheckRow>>::empty()) + empty == empty);
    } else {
        let prefix = rounds.drop_last();
        lemma_rounds_report_each_failure_once(prefix);
        let before = run_rounds(empty, prefix);
        let rows = rounds.last().0;
        lemma_records_keep_failures(before.0, rows);
        assert(rounds.map_values(first).drop_last() == prefix.map_values(first));
        assert(round_checks(rounds) == round_checks(prefix) + rows);
        Seq::filter_distributes_over_add(round_checks(prefix), rows, pred);
        prefix.lemma_filter_push(rounds.last(), is_due);
        assert(prefix.push(rounds.last()) == rounds);
        if rounds.last().1 {
            let report = before.0 + rows.filter(pred);
            assert(before.1.push(report).drop_last() == before.1);
            assert(concat_all(before.1.push(report)) + empty == concat_all(before.1) + report);
        }
    }
}

/// Law: handing health checks to a log, one by one, adds exactly those that
/// failed, in the order they came.
pub proof fn lemma_records_keep_failures(log: Seq<HealthCheckRow>, rows: Seq<HealthCheckRow>)
    ensures
        after_records(log, rows) == log + rows.filter(|r: HealthCheckRow| r.status != 200),
    decreases rows.len(),
{
    let pred = |r: HealthCheckRow| r.status != 200;
    if rows.len() == 0 {
        reveal(Seq::filter);
        assert(log + rows.filter(pred) == log);
    } else {
        lemma_records_keep_failures(log, rows.drop_last());
        rows.drop_last().lemma_filter_push(rows.last(), pred);
        assert(rows.drop_last().push(rows.last()) == rows);
        assert((log + rows.drop_last().filter(pred)).push(rows.last())
            == log + rows.drop_last().filter(pred).push(rows.last()));
    }
}

/// Law: the status recorded for an answered poll is the status answered,
/// whatever it is; an unanswered poll is recorded with status 0.
pub proof fn lemma_polled_status_is_the_answer(s: u16)
    ensures
        polled_status(Some(s)) == s,
        polled_status(None) == 0,
{
}

/// Law: at the end of a round at which a report is due, the report holds
/// everything the log held before, then every failed check of the round,
/// in order, and the log is left empty; at the end of any other round nothing
/// is reported and the round's failed checks are added to the log.
pub proof fn lemma_round_reports_everything_held(log: Seq<HealthCheckRow>, rows: Seq<HealthCheckRow>)
    ensures
        round_step(log, rows, true) == (Seq::<HealthCheckRow>::empty(), Some(
            log + rows.filter(|r: HealthCheckRow| r.status != 200),
        )),
        round_step(log, rows, false) == (log + rows.filter(|r: HealthCheckRow| r.status != 200), None::<
            Seq<HealthCheckRow>,
        >),
{
    lemma_records_keep_failures(log, rows);
}

/// Law: a report is due after more than ten minutes since the last one,
/// never before.
pub proof fn lemma_report_due_after_ten_minutes(elapsed_secs: u64, elapsed_nanos: u32)
    requires
        elapsed_nanos < 1_000_000_000,
    ensures
        elapsed_secs > 600 ==> report_due_spec(elapsed_secs, elapsed_nanos),
        elapsed_secs < 600 ==> !report_due_spec(elapsed_secs, elapsed_nanos),
        elapsed_secs == 600 ==> (report_due_spec(elapsed_secs, elapsed_nanos) <==> elapsed_nanos > 0),
{
}

/// Law: the report message has one line for each failed check, in order:
/// nothing for no check, the check's line alone for one, and each further
/// check adds a newline and its line `name - status`.
pub proof fn lemma_report_message_lines(rows: Seq<HealthCheckRow>, row: HealthCheckRow)
    ensures
        report_message_spec(Seq::empty()) == Seq::<char>::empty(),
        report_message_spec(seq![row]) == row.name@ + " - "@ + decimal(row.status as nat),
        rows.len() > 0 ==> report_message_spec(rows.push(row))
            == report_message_spec(rows) + "\n"@ + row.name@ + " - "@ + decimal(row.status as nat),
{
    let f = |r: HealthCheckRow| report_line(r);
    assert(Seq::<HealthCheckRow>::empty().map_values(f) == Seq::<Seq<char>>::empty());
    assert(seq![row].map_values(f) == seq![report_line(row)]);
    assert(rows.push(row).map_values(f) == rows.map_values(f).push(report_line(row)));
    assert(rows.map_values(f).push(report_line(row)).drop_last() == rows.map_values(f));
    assert(report_line(row) == row.name@ + " - "@ + decimal(row.status as nat));
    if rows.len() > 0 {
        assert(report_message_spec(rows.push(row)) == report_message_spec(rows) + "\n"@ + report_line(row));
        assert(report_message_spec(rows) + "\n"@ + (row.name@ + " - "@ + decimal(row.status as nat))
            == report_message_spec(rows) + "\n"@ + row.name@ + " - "@ + decimal(row.status as nat));
    }
}

/// Law: a poll whose request got no answer always counts as a failure.
pub proof fn lemma_unanswered_poll_fails(row: HealthCheckRow)
    requires
        row.status == polled_status(None),
    ensures
        is_failure(row),
{
}

/// The line that reports one failed check: `name - status`.
pub open spec fn report_line(row: HealthCheckRow) -> Seq<char> {
    row.name@ + " - "@ + decimal(row.status as nat)
}

/// The report of failed checks: one line for each, in order.
pub open spec fn report_message_spec(rows: Seq<HealthCheckRow>) -> Seq<char> {
    joined(rows.map_values(|r: HealthCheckRow| report_line(r)), "\n"@)
}

/// The text of the report of failed checks.
pub fn report_message(rows: &Vec<HealthCheckRow>) -> (r: String)
    ensures
        r@ == report_message_spec(rows@),
{
    let mut lines: Vec<String> = Vec::new();
    let mut i: usize = 0;
    while i < rows.len()
        invariant
            i <= rows.len(),
            lines@.len() == i,
            forall|j: int| 0 <= j < i ==> #[trigger] lines@[j]@ == report_line(rows@[j]),
        decreases rows.len() - i,
    {
        let mut line = rows[i].name.clone();
        line.append(" - ");
        let status = decimal_string(rows[i].status as u64);
        line.append(status.as_str());
        lines.push(line);
        i = i + 1;
    }
    let r = join(&lines, "\n");
    assert(texts(lines@) == rows@.map_values(|r: HealthCheckRow| report_line(r)));
    r
}

} // verus!
