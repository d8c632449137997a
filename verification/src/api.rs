use vstd::prelude::*;

use crate::config::{copy_endpoints, endpoint_config, endpoint_named, Config, Endpoint};
use crate::db::HealthCheckRow;

verus! {

/// The text of the answer when the endpoint asked for is not known.
pub const ENDPOINT_NOT_FOUND: &'static str = "Endpoint not found";

/// The answer that lists the configured endpoints.
#[derive(Debug, Clone)]
pub struct ListEndpointsResponse {
    pub endpoints: Vec<Endpoint>,
}

/// One health check as the API shows it.
#[derive(Debug, Clone)]
pub struct Check {
    pub status: u16,
    pub response_time: u64,
    pub created_at: String,
}

/// The answer that lists the latest health checks of an endpoint.
#[derive(Debug, Clone)]
pub struct ListChecksResponse {
    pub name: String,
    pub url: String,
    pub interval: u64,
    pub checks: Vec<Check>,
}

/// How many health checks are listed when the request does not say.
pub fn default_limit() -> (r: u32)
    ensures
        r == 100,
{
    100
}

/// The text of the API's root: the package's name, then ` v` and its version.
pub fn version_banner(name: &str, version: &str) -> (r: String)
    ensures
        r@ == name@ + " v"@ + version@,
{
    let mut r = String::from_str(name);
    r.append(" v");
    r.append(version);
    r
}

/// The list of the configured endpoints, in order.
pub fn list_endpoints(config: &Config) -> (r: ListEndpointsResponse)
    ensures
        r.endpoints@ == config.endpoints@,
{
    ListEndpointsResponse { endpoints: copy_endpoints(&config.endpoints) }
}

/// Whether `check` shows `row`: the same status and response time, and the
/// time it was stored, or an empty text where it has none.
pub open spec fn shows(check: Check, row: HealthCheckRow) -> bool {
    &&& check.status == row.status
    &&& check.response_time == row.response_time
    &&& match row.created_at {
        Some(c) => check.created_at == c,
        None => check.created_at@ == Seq::<char>::empty(),
    }
}

/// Law: a check shows a row exactly when it carries the row's status and
/// response time, and the time the row was stored, whatever its status, or an
/// empty text where the row has none.
pub proof fn lemma_shows_keeps_every_field(check: Check, row: HealthCheckRow)
    ensures
        shows(check, row) <==> {
            &&& check.status == row.status
            &&& check.response_time == row.response_time
            &&& (row.created_at matches Some(c) ==> check.created_at == c)
            &&& (row.created_at is None ==> check.created_at@ == Seq::<char>::empty())
        },
{
}

/// A health check as the API shows it.
pub fn check_of(row: &HealthCheckRow) -> (r: Check)
    ensures
        shows(r, *row),
        r.status == row.status,
        r.response_time == row.response_time,
        row.created_at matches Some(c) ==> r.created_at == c,
        row.created_at is None ==> r.created_at@ == Seq::<char>::empty(),
{
    let created_at = match &row.created_at {
        Some(c) => c.clone(),
        None => String::new(),
    };
    Check { status: row.status, response_time: row.response_time, created_at }
}

/// The answer for the health checks of the endpoint `name`, given what
/// reading them gave: nothing (an answer of "not found") where reading
/// failed or no endpoint has that name; else the endpoint's name and URL,
/// the polling interval, and each check read, in order.
pub fn list_checks(config: &Config, name: &str, checks: Result<Vec<HealthCheckRow>, String>) -> (r: Option<ListChecksResponse>)
    ensures
        r is None <==> (checks is Err || endpoint_named(config.endpoints@, name@) is None),
        r matches Some(resp) ==> {
            let e = endpoint_named(config.endpoints@, name@)->0;
            let rows = checks->Ok_0@;
            &&& resp.name == e.name
            &&& resp.url == e.url
            &&& resp.interval == config.interval
            &&& resp.checks@.len() == rows.len()
            &&& forall|i: int| 0 <= i < rows.len() ==> shows(#[trigger] resp.checks@[i], rows[i])
            &&& forall|i: int| 0 <= i < rows.len() ==> {
                &&& (#[trigger] resp.checks@[i]).status == rows[i].status
                &&& resp.checks@[i].response_time == rows[i].response_time
                &&& (rows[i].created_at matches Some(c) ==> resp.checks@[i].created_at == c)
                &&& (rows[i].created_at is None ==> resp.checks@[i].created_at@ == Seq::<char>::empty())
            }
        },
{
    let rows = match checks {
        Ok(rows) => rows,
        Err(_) => return None,
    };
    let endpoint = match endpoint_config(config, name) {
        Some(e) => e,
        None => return None,
    };
    let mut shown: Vec<Check> = Vec::new();
    let mut i: usize = 0;
    while i < rows.len()
        invariant
            i <= rows.len(),
            shown@.len() == i,
            forall|j: int| 0 <= j < i ==> shows(#[trigger] shown@[j], rows@[j]),
        decreases rows.len() - i,
    {
        shown.push(check_of(&rows[i]));
        i = i + 1;
    }
    Some(ListChecksResponse { name: endpoint.name, url: endpoint.url, interval: config.interval, checks: shown })
}

} // verus!
