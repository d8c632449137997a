use vstd::prelude::*;

use crate::text::{decimal, decimal_string};

verus! {

/// One health check: the endpoint's name, the HTTP status it answered with
/// (0 where the request failed), how long the answer took in milliseconds,
/// and when it was stored (absent before it is stored).
#[derive(Debug, Clone)]
pub struct HealthCheckRow {
    pub name: String,
    pub status: u16,
    pub response_time: u64,
    pub created_at: Option<String>,
}

/// An endpoint to be stored: its URL and its polling interval.
#[derive(Debug, Clone)]
pub struct EndpointPayload {
    pub url: String,
    pub interval: u64,
}

/// An observation to be stored against a stored endpoint.
#[derive(Debug, Clone)]
pub struct HealthCheckPayload {
    pub endpoint_id: u64,
    pub status: u16,
    pub response_time: u64,
}

/// The statement that tells whether the table of health checks exists.
pub const FIND_CHECKS_TABLE: &'static str = "SELECT name FROM sqlite_master WHERE type='table' AND name='health_checks'";

/// The statement that stores a health check; its parameters are those of
/// `health_check_params`.
pub const INSERT_HEALTH_CHECK: &'static str = "INSERT INTO health_checks (name, status, response_time) VALUES (?, ?, ?)";

/// The statement that reads the latest health checks of an endpoint; its
/// parameters are those of `checks_query_params`.
pub const SELECT_HEALTH_CHECKS: &'static str = "SELECT name, status, response_time, created_at FROM health_checks WHERE name = ? ORDER BY created_at DESC LIMIT ?";

/// The statement that stores an endpoint; its parameters are those of
/// `endpoint_params`.
pub const INSERT_ENDPOINT: &'static str = "INSERT INTO endpoints (url, interval) VALUES (?, ?)";

/// The statement that stores an observation; its parameters are those of
/// `observation_params`.
pub const INSERT_OBSERVATION: &'static str = "INSERT INTO observation (endpoint_id, status, response_time) VALUES (?, ?, ?)";

/// A copy of a health check, field for field.
pub fn copy_row(row: &HealthCheckRow) -> (r: HealthCheckRow)
    ensures
        r == *row,
{
    HealthCheckRow {
        name: row.name.clone(),
        status: row.status,
        response_time: row.response_time,
        created_at: match &row.created_at {
            Some(c) => Some(c.clone()),
            None => None,
        },
    }
}

/// The parameters with which a health check is stored: its name, and its
/// status and response time written in decimal.
pub fn health_check_params(row: &HealthCheckRow) -> (r: Vec<String>)
    ensures
        r@.len() == 3,
        r@[0]@ == row.name@,
        r@[1]@ == decimal(row.status as nat),
        r@[2]@ == decimal(row.response_time as nat),
{
    let mut r: Vec<String> = Vec::new();
    r.push(row.name.clone());
    r.push(decimal_string(row.status as u64));
    r.push(decimal_string(row.response_time));
    r
}

/// The parameters with which the latest health checks of the endpoint `name`
/// are read: the name, and the most rows to read written in decimal.
pub fn checks_query_params(name: &String, limit: u32) -> (r: Vec<String>)
    ensures
        r@.len() == 2,
        r@[0]@ == name@,
        r@[1]@ == decimal(limit as nat),
{
    let mut r: Vec<String> = Vec::new();
    r.push(name.clone());
    r.push(decimal_string(limit as u64));
    r
}

/// The parameters with which an endpoint is stored: its URL, and its interval
/// written in decimal.
pub fn endpoint_params(endpoint: &EndpointPayload) -> (r: Vec<String>)
    ensures
        r@.len() == 2,
        r@[0]@ == endpoint.url@,
        r@[1]@ == decimal(endpoint.interval as nat),
{
    let mut r: Vec<String> = Vec::new();
    r.push(endpoint.url.clone());
    r.push(decimal_string(endpoint.interval));
    r
}

/// The parameters with which an observation is stored, as integers: the
/// endpoint's id, the status and the response time.
pub fn observation_params(payload: &HealthCheckPayload) -> (r: Vec<u64>)
    ensures
        r@ == seq![payload.endpoint_id, payload.status as u64, payload.response_time],
{
    let mut r: Vec<u64> = Vec::new();
    r.push(payload.endpoint_id);
    r.push(payload.status as u64);
    r.push(payload.response_time);
    r
}

/// The health check read back from a stored row: it carries the time at
/// which it was stored.
pub fn stored_row(name: String, status: u16, response_time: u64, created_at: String) -> (r: HealthCheckRow)
    ensures
        r == (HealthCheckRow { name, status, response_time, created_at: Some(created_at) }),
{
    HealthCheckRow { name, status, response_time, created_at: Some(created_at) }
}

/// Whether the tables must be created: exactly when looking up the table of
/// health checks found no row.
pub fn tables_missing(lookup: &Result<String, String>) -> (r: bool)
    ensures
        r == lookup is Err,
{
    lookup.is_err()
}

/// The rows read, or the first error met while reading them.
pub open spec fn collected(rows: Seq<Result<HealthCheckRow, String>>) -> Result<Seq<HealthCheckRow>, String>
    decreases rows.len(),
{
    if rows.len() == 0 {
        Ok(Seq::empty())
    } else {
        match collected(rows.drop_last()) {
            Err(e) => Err(e),
            Ok(done) => match rows.last() {
                Ok(row) => Ok(done.push(row)),
                Err(e) => Err(e),
            },
        }
    }
}

/// Law: the rows are gathered exactly when every read succeeded, and then
/// they are all there, in order; else the error is that of the first read
/// that failed.
pub proof fn lemma_collected_is_all_rows_or_first_error(rows: Seq<Result<HealthCheckRow, String>>)
    ensures
        collected(rows) is Ok <==> forall|i: int| 0 <= i < rows.len() ==> #[trigger] rows[i] is Ok,
        collected(rows) matches Ok(v) ==> v.len() == rows.len() && forall|i: int|
            0 <= i < rows.len() ==> #[trigger] v[i] == rows[i]->Ok_0,
        collected(rows) matches Err(e) ==> exists|k: int|
            0 <= k < rows.len() && #[trigger] rows[k] == Err::<HealthCheckRow, String>(e)
                && forall|j: int| 0 <= j < k ==> #[trigger] rows[j] is Ok,
    decreases rows.len(),
{
    if rows.len() > 0 {
        let before = rows.drop_last();
        lemma_collected_is_all_rows_or_first_error(before);
        assert forall|i: int| 0 <= i < before.len() implies #[trigger] before[i] == rows[i] by {}
        match collected(before) {
            Err(e) => {
                let k = choose|k: int| 0 <= k < before.len() && #[trigger] before[k] == Err::<HealthCheckRow, String>(e)
                    && forall|j: int| 0 <= j < k ==> #[trigger] before[j] is Ok;
                assert(rows[k] == before[k]);
                assert forall|j: int| 0 <= j < k implies #[trigger] rows[j] is Ok by {
                    assert(rows[j] == before[j]);
                }
                assert(!(rows[k] is Ok));
            },
            Ok(done) => {
                assert forall|i: int| 0 <= i < before.len() implies #[trigger] rows[i] is Ok by {
                    assert(rows[i] == before[i]);
                }
                match rows.last() {
                    Ok(row) => {
                        let v = done.push(row);
                        assert forall|i: int| 0 <= i < rows.len() implies #[trigger] v[i] == rows[i]->Ok_0 by {
                            if i < before.len() {
                                assert(rows[i] == before[i]);
                            }
                        }
                    },
                    Err(e) => {
                        let k = rows.len() - 1;
                        assert(rows[k] == Err::<HealthCheckRow, String>(e));
                        assert forall|j: int| 0 <= j < k implies #[trigger] rows[j] is Ok by {
                            assert(rows[j] == before[j]);
                        }
                    },
                }
            },
        }
    }
}

/// Gathers rows read one by one: all of them, in order, where none failed;
/// else the first error.
pub fn collect_rows(rows: &Vec<Result<HealthCheckRow, String>>) -> (r: Result<Vec<HealthCheckRow>, String>)
    ensures
        (match r {
            Ok(v) => Ok(v@),
            Err(e) => Err(e),
        }) == collected(rows@),
{
    let mut done: Vec<HealthCheckRow> = Vec::new();
    let mut i: usize = 0;
    while i < rows.len()
        invariant
            i <= rows.len(),
            collected(rows@.take(i as int)) == Ok::<Seq<HealthCheckRow>, String>(done@),
        decreases rows.len() - i,
    {
        assert(rows@.take(i + 1).drop_last() == rows@.take(i as int));
        assert(rows@.take(i + 1).last() == rows@[i as int]);
        match &rows[i] {
            Ok(row) => {
                done.push(copy_row(row));
            },
            Err(e) => {
                assert(collected(rows@.take(i + 1)) == Err::<Seq<HealthCheckRow>, String>(*e));
                proof {
                    lemma_collected_keeps_error(rows@, i + 1);
                }
                return Err(e.clone());
            },
        }
        i = i + 1;
    }
    assert(rows@.take(rows.len() as int) == rows@);
    Ok(done)
}

/// Once an error has been met, reading on does not change the outcome.
proof fn lemma_collected_keeps_error(rows: Seq<Result<HealthCheckRow, String>>, n: int)
    requires
        0 <= n <= rows.len(),
        collected(rows.take(n)) is Err,
    ensures
        collected(rows) == collected(rows.take(n)),
    decreases rows.len() - n,
{
    if n < rows.len() {
        assert(rows.take(n + 1).drop_last() == rows.take(n));
        lemma_collected_keeps_error(rows, n + 1);
    } else {
        assert(rows.take(n) == rows);
    }
}

} // verus!
