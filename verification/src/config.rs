use vstd::prelude::*;

verus! {

/// One monitored endpoint: a name and the URL polled for it.
#[derive(Debug, Clone)]
pub struct Endpoint {
    pub name: String,
    pub url: String,
}

/// A way of sending notifications.
#[derive(Debug, Clone, Copy, PartialEq, Eq)]
pub enum Notifier {
    Pushover,
}

/// The service's configuration.
#[derive(Debug, Clone)]
pub struct Config {
    pub endpoints: Vec<Endpoint>,
    /// Seconds to wait between two rounds of polling.
    pub interval: u64,
    /// Where the database file lies; in memory when absent.
    pub database: Option<String>,
    /// The notifiers to use; none when absent.
    pub notify: Option<Vec<Notifier>>,
}

/// A copy of an endpoint, field for field.
pub fn copy_endpoint(e: &Endpoint) -> (r: Endpoint)
    ensures
        r == *e,
{
    Endpoint { name: e.name.clone(), url: e.url.clone() }
}

/// A copy of a list of endpoints, item for item.
pub fn copy_endpoints(v: &Vec<Endpoint>) -> (r: Vec<Endpoint>)
    ensures
        r@ == v@,
{
    let mut r: Vec<Endpoint> = Vec::new();
    let mut i: usize = 0;
    while i < v.len()
        invariant
            i <= v.len(),
            r@ == v@.take(i as int),
        decreases v.len() - i,
    {
        r.push(copy_endpoint(&v[i]));
        assert(v@.take(i + 1) == v@.take(i as int).push(v@[i as int]));
        i = i + 1;
    }
    assert(v@.take(v.len() as int) == v@);
    r
}

/// The first of `endpoints` whose name is `name`, if there is one.
pub open spec fn endpoint_named(endpoints: Seq<Endpoint>, name: Seq<char>) -> Option<Endpoint>
    decreases endpoints.len(),
{
    if endpoints.len() == 0 {
        None
    } else if endpoints[0].name@ == name {
        Some(endpoints[0])
    } else {
        endpoint_named(endpoints.drop_first(), name)
    }
}

/// The configuration of the endpoint called `name`: the first endpoint of the
/// configuration with that name, or `None` where no endpoint has it.
pub fn endpoint_config(config: &Config, name: &str) -> (r: Option<Endpoint>)
    ensures
        r == endpoint_named(config.endpoints@, name@),
{
    let wanted = String::from_str(name);
    let eps = &config.endpoints;
    let mut i: usize = 0;
    assert(eps@.skip(0) == eps@);
    while i < eps.len()
        invariant
            i <= eps.len(),
            wanted@ == name@,
            eps@ == config.endpoints@,
            endpoint_named(eps@, name@) == endpoint_named(eps@.skip(i as int), name@),
        decreases eps.len() - i,
    {
        assert(eps@.skip(i as int)[0] == eps@[i as int]);
        assert(eps@.skip(i as int).drop_first() == eps@.skip(i + 1));
        if eps[i].name == wanted {
            return Some(copy_endpoint(&eps[i]));
        }
        i = i + 1;
    }
    None
}

/// Law: the endpoint found is one of the configuration's endpoints, it has
/// the name asked for, and no endpoint before it has that name; nothing is
/// found exactly when no endpoint has the name.
pub proof fn lemma_endpoint_named_is_first_match(endpoints: Seq<Endpoint>, name: Seq<char>)
    ensures
        endpoint_named(endpoints, name) is None <==> (forall|i: int|
            0 <= i < endpoints.len() ==> #[trigger] endpoints[i].name@ != name),
        endpoint_named(endpoints, name) matches Some(e) ==> exists|i: int|
            0 <= i < endpoints.len() && #[trigger] endpoints[i] == e && e.name@ == name
                && forall|j: int| 0 <= j < i ==> #[trigger] endpoints[j].name@ != name,
    decreases endpoints.len(),
{
    if endpoints.len() > 0 {
        let rest = endpoints.drop_first();
        lemma_endpoint_named_is_first_match(rest, name);
        if endpoints[0].name@ != name {
            assert forall|i: int| 1 <= i < endpoints.len() implies endpoints[i] == #[trigger] rest[i - 1] by {}
            if endpoint_named(rest, name) is None {
                assert forall|i: int| 0 <= i < endpoints.len() implies #[trigger] endpoints[i].name@ != name by {
                    if i > 0 {
                        assert(rest[i - 1].name@ != name);
                    }
                }
            } else {
                let e = endpoint_named(rest, name)->0;
                let k = choose|k: int| 0 <= k < rest.len() && #[trigger] rest[k] == e && e.name@ == name
                    && forall|j: int| 0 <= j < k ==> #[trigger] rest[j].name@ != name;
                assert(endpoints[k + 1] == e);
                assert forall|j: int| 0 <= j < k + 1 implies #[trigger] endpoints[j].name@ != name by {
                    if j > 0 {
                        assert(rest[j - 1].name@ != name);
                    }
                }
                assert(endpoints[0].name@ != name);
            }
        } else {
            assert(endpoints[0] == endpoint_named(endpoints, name)->0);
        }
    }
}

/// The notifiers that the configuration names, in order; none where it names
/// none.
pub fn configured_notifiers(config: &Config) -> (r: Vec<Notifier>)
    ensures
        r@ == match config.notify {
            Some(v) => v@,
            None => Seq::empty(),
        },
{
    match &config.notify {
        Some(v) => {
            let mut r: Vec<Notifier> = Vec::new();
            let mut i: usize = 0;
            while i < v.len()
                invariant
                    i <= v.len(),
                    r@ == v@.take(i as int),
                decreases v.len() - i,
            {
                r.push(v[i]);
                assert(v@.take(i + 1) == v@.take(i as int).push(v@[i as int]));
                i = i + 1;
            }
            assert(v@.take(v.len() as int) == v@);
            r
        },
        None => Vec::new(),
    }
}

} // verus!
