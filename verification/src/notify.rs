use vstd::prelude::*;

use crate::config::{copy_endpoint, Endpoint};
use crate::db::HealthCheckRow;
use crate::poll::is_failure;
use crate::text::{join, joined, texts};

verus! {

/// How many of an endpoint's latest health checks decide whether to notify.
pub const NOTIFY_WINDOW: u32 = 10;

/// Seconds between two rounds of notifications.
pub const NOTIFY_PERIOD_SECS: u64 = 60;

/// Whether some of the checks failed.
pub open spec fn any_failure(checks: Seq<HealthCheckRow>) -> bool {
    exists|i: int| 0 <= i < checks.len() && is_failure(#[trigger] checks[i])
}

/// Law: the checks hold a failure exactly when one of them, wherever it
/// stands in the list, has a status other than 200.
pub proof fn lemma_any_failure_is_any_non_200(checks: Seq<HealthCheckRow>)
    ensures
        any_failure(checks) <==> exists|i: int| 0 <= i < checks.len() && #[trigger] checks[i].status != 200,
{
}

/// Whether an endpoint must be notified about, given its latest health
/// checks: exactly when one of them failed.
pub fn should_notify(checks: &Vec<HealthCheckRow>) -> (r: bool)
    ensures
        r == any_failure(checks@),
        r == exists|i: int| 0 <= i < checks@.len() && #[trigger] checks@[i].status != 200,
{
    let mut i: usize = 0;
    while i < checks.len()
        invariant
            i <= checks.len(),
            forall|j: int| 0 <= j < i ==> !is_failure(#[trigger] checks@[j]),
        decreases checks.len() - i,
    {
        if checks[i].status != 200 {
            assert(is_failure(checks@[i as int]));
            return true;
        }
        i = i + 1;
    }
    false
}

/// The endpoints to notify about, in order: those whose latest checks hold a
/// failure.
pub open spec fn failing_endpoints(recent: Seq<(Endpoint, Vec<HealthCheckRow>)>) -> Seq<Endpoint>
    decreases recent.len(),
{
    if recent.len() == 0 {
        Seq::empty()
    } else if any_failure(recent.last().1@) {
        failing_endpoints(recent.drop_last()).push(recent.last().0)
    } else {
        failing_endpoints(recent.drop_last())
    }
}

/// Given each endpoint with its latest health checks, the endpoints to
/// notify about, in the order given.
pub fn endpoints_to_notify(recent: &Vec<(Endpoint, Vec<HealthCheckRow>)>) -> (r: Vec<Endpoint>)
    ensures
        r@ == failing_endpoints(recent@),
{
    let mut r: Vec<Endpoint> = Vec::new();
    let mut i: usize = 0;
    while i < recent.len()
        invariant
            i <= recent.len(),
            r@ == failing_endpoints(recent@.take(i as int)),
        decreases recent.len() - i,
    {
        assert(recent@.take(i + 1).drop_last() == recent@.take(i as int));
        assert(recent@.take(i + 1).last() == recent@[i as int]);
        if should_notify(&recent[i].1) {
            r.push(copy_endpoint(&recent[i].0));
        }
        i = i + 1;
    }
    assert(recent@.take(recent.len() as int) == recent@);
    r
}

/// One round of notifications, given each endpoint with its latest health
/// checks: the endpoints to send one notification about, in the order given,
/// exactly where there is at least one; else nothing is sent this round.
pub fn notify_round(recent: &Vec<(Endpoint, Vec<HealthCheckRow>)>) -> (r: Option<Vec<Endpoint>>)
    ensures
        r is Some <==> failing_endpoints(recent@).len() > 0,
        r matches Some(v) ==> v@ == failing_endpoints(recent@),
{
    let to_notify = endpoints_to_notify(recent);
    if to_notify.len() > 0 {
        Some(to_notify)
    } else {
        None
    }
}

/// Law: an endpoint is notified about exactly when it is given with a failed
/// check, and the endpoints come in the order given.
pub proof fn lemma_failing_endpoints_are_those_with_failures(recent: Seq<(Endpoint, Vec<HealthCheckRow>)>)
    ensures
        failing_endpoints(recent) == recent.filter(|p: (Endpoint, Vec<HealthCheckRow>)| any_failure(p.1@)).map_values(
            |p: (Endpoint, Vec<HealthCheckRow>)| p.0,
        ),
    decreases recent.len(),
{
    let pred = |p: (Endpoint, Vec<HealthCheckRow>)| any_failure(p.1@);
    let first = |p: (Endpoint, Vec<HealthCheckRow>)| p.0;
    if recent.len() == 0 {
        reveal(Seq::filter);
        assert(recent.filter(pred).map_values(first) == Seq::<Endpoint>::empty());
    } else {
        lemma_failing_endpoints_are_those_with_failures(recent.drop_last());
        recent.drop_last().lemma_filter_push(recent.last(), pred);
        assert(recent.drop_last().push(recent.last()) == recent);
        if pred(recent.last()) {
            assert(recent.drop_last().filter(pred).push(recent.last()).map_values(first)
                == recent.drop_last().filter(pred).map_values(first).push(recent.last().0));
        }
    }
}

/// Law: some endpoint is notified about exactly when some endpoint is given
/// with a failed check.
pub proof fn lemma_notify_iff_some_failure(recent: Seq<(Endpoint, Vec<HealthCheckRow>)>)
    ensures
        failing_endpoints(recent).len() > 0 <==> exists|i: int|
            0 <= i < recent.len() && any_failure(#[trigger] recent[i].1@),
    decreases recent.len(),
{
    if recent.len() > 0 {
        let rest = recent.drop_last();
        lemma_notify_iff_some_failure(rest);
        if failing_endpoints(rest).len() > 0 {
            let i = choose|i: int| 0 <= i < rest.len() && any_failure(#[trigger] rest[i].1@);
            assert(recent[i] == rest[i]);
        }
        if exists|i: int| 0 <= i < recent.len() && any_failure(#[trigger] recent[i].1@) {
            let i = choose|i: int| 0 <= i < recent.len() && any_failure(#[trigger] recent[i].1@);
            if i < recent.len() - 1 {
                assert(rest[i] == recent[i]);
            }
        }
    }
}

/// The names of the endpoints.
pub open spec fn endpoint_names(endpoints: Seq<Endpoint>) -> Seq<Seq<char>> {
    endpoints.map_values(|e: Endpoint| e.name@)
}

/// Law: the names are those of the endpoints, one for each, in order.
pub proof fn lemma_endpoint_names_are_each_name(endpoints: Seq<Endpoint>)
    ensures
        endpoint_names(endpoints).len() == endpoints.len(),
        forall|i: int| 0 <= i < endpoints.len() ==> #[trigger] endpoint_names(endpoints)[i] == endpoints[i].name@,
{
}

/// The message that announces that endpoints are down: their names joined by
/// `, `, then ` is down`.
pub fn pushover_message(endpoints: &Vec<Endpoint>) -> (r: String)
    ensures
        r@ == joined(endpoint_names(endpoints@), ", "@) + " is down"@,
{
    let mut names: Vec<String> = Vec::new();
    let mut i: usize = 0;
    while i < endpoints.len()
        invariant
            i <= endpoints.len(),
            names@.len() == i,
            forall|j: int| 0 <= j < i ==> #[trigger] names@[j]@ == endpoints@[j].name@,
        decreases endpoints.len() - i,
    {
        names.push(endpoints[i].name.clone());
        i = i + 1;
    }
    let mut r = join(&names, ", ");
    assert(texts(names@) == endpoint_names(endpoints@));
    r.append(" is down");
    r
}

} // verus!
