//! The health of upstream servers.
use crate::config::{Config, VHostConfig};
use crate::text::text_eq;
use dashmap::DashMap;
use vstd::prelude::*;

verus! {

broadcast use vstd::string::group_string_axioms;

/// Seconds between two rounds of probes.
pub const PROBE_INTERVAL_SECONDS: u64 = 10;

/// Seconds after which a probe that is not answered has failed.
pub const PROBE_TIMEOUT_SECONDS: u64 = 2;

/// What a table of upstream addresses holds: the last known status of each.
pub uninterp spec fn status_entries(table: DashMap<String, bool>) -> Map<Seq<char>, bool>;

/// `DashMap::new` makes an empty map.
#[verifier::external_body]
fn new_statuses() -> (r: DashMap<String, bool>)
    ensures
        forall|addr: Seq<char>| !#[trigger] status_entries(r).contains_key(addr),
{
    DashMap::new()
}

/// `DashMap::get` finds the value of a key.
#[verifier::external_body]
fn status_of(table: &DashMap<String, bool>, addr: &str) -> (r: Option<bool>)
    ensures
        r == status_entries(*table).get(addr@),
{
    table.get(addr).map(|status| *status.value())
}

/// `DashMap::insert` puts a value under a key and hands back the one that it
/// replaced.
#[verifier::external_body]
fn put_status(table: &mut DashMap<String, bool>, addr: String, healthy: bool) -> (r: Option<bool>)
    ensures
        r == status_entries(*old(table)).get(addr@),
        status_entries(*final(table)) == status_entries(*old(table)).insert(addr@, healthy),
{
    table.insert(addr, healthy)
}

/// Whether an upstream counts as healthy. One that was never probed does.
pub open spec fn healthy(statuses: Map<Seq<char>, bool>, addr: Seq<char>) -> bool {
    statuses.contains_key(addr) ==> statuses[addr]
}

/// Manages the health status of all upstream servers: for each address, its last
/// known status.
pub struct HealthManager {
    statuses: DashMap<String, bool>,
}

impl View for HealthManager {
    type V = Map<Seq<char>, bool>;

    closed spec fn view(&self) -> Map<Seq<char>, bool> {
        status_entries(self.statuses)
    }
}

impl HealthManager {
    pub fn new() -> (r: Self)
        ensures
            r@ == Map::<Seq<char>, bool>::empty(),
    {
        let r = HealthManager { statuses: new_statuses() };
        assert(r@ == Map::<Seq<char>, bool>::empty());
        r
    }

    /// Check if a specific upstream is currently marked as healthy.
    pub fn is_healthy(&self, addr: &str) -> (r: bool)
        ensures
            r == healthy(self@, addr@),
    {
        match status_of(&self.statuses, addr) {
            Some(status) => status,
            None => true,
        }
    }

    /// Records the outcome of a probe. Says whether it differs from what was known.
    pub fn record_probe(&mut self, addr: &String, is_healthy: bool) -> (changed: bool)
        ensures
            final(self)@ == old(self)@.insert(addr@, is_healthy),
            changed == (old(self)@.get(addr@) != Some(is_healthy)),
    {
        match put_status(&mut self.statuses, addr.clone(), is_healthy) {
            Some(status) => status != is_healthy,
            None => true,
        }
    }
}

/// The texts of a list of addresses.
pub open spec fn addr_texts(addrs: Seq<String>) -> Seq<Seq<char>> {
    addrs.map_values(|addr: String| addr@)
}

/// The upstream addresses of routes, in order.
pub open spec fn route_addrs(routes: Seq<(String, Vec<String>)>) -> Seq<Seq<char>>
    decreases routes.len(),
{
    if routes.len() == 0 {
        Seq::empty()
    } else {
        route_addrs(routes.drop_last()) + addr_texts(routes.last().1@)
    }
}

/// The upstream addresses of virtual hosts, in order.
pub open spec fn vhost_addrs(vhosts: Seq<(String, VHostConfig)>) -> Seq<Seq<char>>
    decreases vhosts.len(),
{
    if vhosts.len() == 0 {
        Seq::empty()
    } else {
        vhost_addrs(vhosts.drop_last()) + route_addrs(vhosts.last().1.routers@)
    }
}

/// Each text where it first occurs.
pub open spec fn first_occurrences(texts: Seq<Seq<char>>) -> Seq<Seq<char>>
    decreases texts.len(),
{
    if texts.len() == 0 {
        Seq::empty()
    } else {
        let earlier = first_occurrences(texts.drop_last());
        if earlier.contains(texts.last()) {
            earlier
        } else {
            earlier.push(texts.last())
        }
    }
}

/// Adds an address unless it is there.
fn add_upstream(upstreams: &mut Vec<String>, addr: &String)
    ensures
        addr_texts(final(upstreams)@) == if addr_texts(old(upstreams)@).contains(addr@) {
            addr_texts(old(upstreams)@)
        } else {
            addr_texts(old(upstreams)@).push(addr@)
        },
{
    let ghost before = addr_texts(upstreams@);
    let mut i: usize = 0;
    while i < upstreams.len()
        invariant
            i <= upstreams@.len(),
            before == addr_texts(upstreams@),
            forall|j: int| 0 <= j < i ==> #[trigger] before[j] != addr@,
        decreases upstreams@.len() - i,
    {
        assert(before[i as int] == upstreams@[i as int]@);
        if text_eq(upstreams[i].as_str(), addr.as_str()) {
            return ;
        }
        i += 1;
    }
    upstreams.push(addr.clone());
    assert(addr_texts(upstreams@) == before.push(addr@));
}

/// Adds the addresses of routes that are not there.
fn add_routes(
    upstreams: &mut Vec<String>,
    routes: &Vec<(String, Vec<String>)>,
    Ghost(seen): Ghost<Seq<Seq<char>>>,
)
    requires
        addr_texts(old(upstreams)@) == first_occurrences(seen),
    ensures
        addr_texts(final(upstreams)@) == first_occurrences(seen + route_addrs(routes@)),
{
    assert(seen + Seq::<Seq<char>>::empty() == seen);
    assert(routes@.take(0) == Seq::<(String, Vec<String>)>::empty());
    let mut i: usize = 0;
    while i < routes.len()
        invariant
            i <= routes@.len(),
            addr_texts(upstreams@) == first_occurrences(seen + route_addrs(routes@.take(i as int))),
        decreases routes@.len() - i,
    {
        let ghost listed = seen + route_addrs(routes@.take(i as int));
        let addrs = &routes[i].1;
        let ghost texts = addr_texts(addrs@);
        assert(texts.take(0) == Seq::<Seq<char>>::empty());
        assert(listed + texts.take(0) == listed);
        let mut k: usize = 0;
        while k < addrs.len()
            invariant
                k <= addrs@.len(),
                texts == addr_texts(addrs@),
                addr_texts(upstreams@) == first_occurrences(listed + texts.take(k as int)),
            decreases addrs@.len() - k,
        {
            let ghost all = listed + texts.take(k + 1);
            assert(all.drop_last() == listed + texts.take(k as int));
            assert(all.last() == addrs@[k as int]@);
            add_upstream(upstreams, &addrs[k]);
            k += 1;
        }
        assert(texts.take(k as int) == texts);
        assert(routes@.take(i + 1).drop_last() == routes@.take(i as int));
        assert(seen + route_addrs(routes@.take(i + 1)) == listed + texts);
        i += 1;
    }
    assert(routes@.take(i as int) == routes@);
}

/// All upstream addresses of a configuration, each once: those to probe.
pub fn unique_upstreams(config: &Config) -> (r: Vec<String>)
    ensures
        addr_texts(r@) == first_occurrences(vhost_addrs(config.vhosts@)),
{
    let mut upstreams: Vec<String> = Vec::new();
    assert(addr_texts(upstreams@) == Seq::<Seq<char>>::empty());
    assert(config.vhosts@.take(0) == Seq::<(String, VHostConfig)>::empty());
    let mut i: usize = 0;
    while i < config.vhosts.len()
        invariant
            i <= config.vhosts@.len(),
            addr_texts(upstreams@) == first_occurrences(vhost_addrs(config.vhosts@.take(i as int))),
        decreases config.vhosts@.len() - i,
    {
        add_routes(
            &mut upstreams,
            &config.vhosts[i].1.routers,
            Ghost(vhost_addrs(config.vhosts@.take(i as int))),
        );
        assert(config.vhosts@.take(i + 1).drop_last() == config.vhosts@.take(i as int));
        i += 1;
    }
    assert(config.vhosts@.take(i as int) == config.vhosts@);
    upstreams
}

/// The addresses to probe are exactly the configured ones, and none is probed
/// twice in a round.
pub proof fn upstreams_are_probed_once(texts: Seq<Seq<char>>)
    ensures
        first_occurrences(texts).no_duplicates(),
        forall|addr: Seq<char>| #[trigger]
            first_occurrences(texts).contains(addr) <==> texts.contains(addr),
    decreases texts.len(),
{
    if texts.len() > 0 {
        let init = texts.drop_last();
        upstreams_are_probed_once(init);
        let earlier = first_occurrences(init);
        assert(texts == init.push(texts.last()));
        assert forall|addr: Seq<char>| #[trigger]
            first_occurrences(texts).contains(addr) <==> texts.contains(addr) by {
            if texts.contains(addr) {
                let k = choose|k: int| 0 <= k < texts.len() && texts[k] == addr;
                if k < init.len() {
                    assert(init[k] == addr);
                    assert(earlier.contains(addr));
                    let j = choose|j: int| 0 <= j < earlier.len() && earlier[j] == addr;
                    assert(first_occurrences(texts)[j] == addr);
                } else if !earlier.contains(addr) {
                    assert(first_occurrences(texts).last() == addr);
                }
            }
            if first_occurrences(texts).contains(addr) {
                if earlier.contains(addr) {
                    assert(init.contains(addr));
                    let k = choose|k: int| 0 <= k < init.len() && init[k] == addr;
                    assert(texts[k] == addr);
                } else {
                    let k = choose|k: int|
                        0 <= k < first_occurrences(texts).len() && first_occurrences(texts)[k] == addr;
                    if k < earlier.len() {
                        assert(earlier[k] == addr);
                    }
                    assert(addr == texts.last());
                }
            }
        }
    }
}

/// After a probe its outcome is what is known of that address, and of no other.
pub proof fn probe_decides_its_upstream_only(
    statuses: Map<Seq<char>, bool>,
    addr: Seq<char>,
    is_healthy: bool,
    other: Seq<char>,
)
    ensures
        healthy(statuses.insert(addr, is_healthy), addr) == is_healthy,
        other != addr ==> healthy(statuses.insert(addr, is_healthy), other) == healthy(
            statuses,
            other,
        ),
{
}

/// An upstream server is taken for healthy until a probe says otherwise.
pub proof fn unknown_upstreams_are_healthy(statuses: Map<Seq<char>, bool>, addr: Seq<char>)
    ensures
        !statuses.contains_key(addr) ==> healthy(statuses, addr),
        statuses.contains_key(addr) ==> healthy(statuses, addr) == statuses[addr],
{
}

/// Whether an address is listed for a route of a virtual host.
pub open spec fn is_listed(
    vhosts: Seq<(String, VHostConfig)>,
    v: int,
    i: int,
    k: int,
    addr: Seq<char>,
) -> bool {
    &&& 0 <= v < vhosts.len()
    &&& 0 <= i < vhosts[v].1.routers@.len()
    &&& 0 <= k < vhosts[v].1.routers@[i].1@.len()
    &&& vhosts[v].1.routers@[i].1@[k]@ == addr
}

/// Every address that is listed for a route of a virtual host is to be probed, and no
/// other.
pub proof fn listed_upstreams_are_probed(vhosts: Seq<(String, VHostConfig)>, addr: Seq<char>)
    ensures
        first_occurrences(vhost_addrs(vhosts)).contains(addr) <==> exists|v: int, i: int, k: int|
            is_listed(vhosts, v, i, k, addr),
{
    upstreams_are_probed_once(vhost_addrs(vhosts));
    vhost_addresses(vhosts, addr);
}

proof fn vhost_addresses(vhosts: Seq<(String, VHostConfig)>, addr: Seq<char>)
    ensures
        vhost_addrs(vhosts).contains(addr) <==> exists|v: int, i: int, k: int|
            is_listed(vhosts, v, i, k, addr),
    decreases vhosts.len(),
{
    if vhosts.len() > 0 {
        let init = vhosts.drop_last();
        let last = vhosts.last().1.routers@;
        vhost_addresses(init, addr);
        route_addresses(last, addr);
        sum_contains(vhost_addrs(init), route_addrs(last), addr);
        if vhost_addrs(init).contains(addr) {
            let (v, i, k) = choose|v: int, i: int, k: int| is_listed(init, v, i, k, addr);
            assert(is_listed(vhosts, v, i, k, addr));
        }
        if route_addrs(last).contains(addr) {
            let (i, k) = choose|i: int, k: int| in_route(last, i, k, addr);
            assert(is_listed(vhosts, vhosts.len() - 1, i, k, addr));
        }
        if exists|v: int, i: int, k: int| is_listed(vhosts, v, i, k, addr) {
            let (v, i, k) = choose|v: int, i: int, k: int| is_listed(vhosts, v, i, k, addr);
            if v < init.len() {
                assert(is_listed(init, v, i, k, addr));
            } else {
                assert(in_route(last, i, k, addr));
            }
        }
    }
}

spec fn in_route(routes: Seq<(String, Vec<String>)>, i: int, k: int, addr: Seq<char>) -> bool {
    0 <= i < routes.len() && 0 <= k < routes[i].1@.len() && routes[i].1@[k]@ == addr
}

proof fn route_addresses(routes: Seq<(String, Vec<String>)>, addr: Seq<char>)
    ensures
        route_addrs(routes).contains(addr) <==> exists|i: int, k: int| in_route(routes, i, k, addr),
    decreases routes.len(),
{
    if routes.len() > 0 {
        let init = routes.drop_last();
        let last = routes.last().1@;
        let texts = addr_texts(last);
        route_addresses(init, addr);
        sum_contains(route_addrs(init), texts, addr);
        if route_addrs(init).contains(addr) {
            let (i, k) = choose|i: int, k: int| in_route(init, i, k, addr);
            assert(in_route(routes, i, k, addr));
        }
        if texts.contains(addr) {
            let k = choose|k: int| 0 <= k < texts.len() && texts[k] == addr;
            assert(in_route(routes, routes.len() - 1, k, addr));
        }
        if exists|i: int, k: int| in_route(routes, i, k, addr) {
            let (i, k) = choose|i: int, k: int| in_route(routes, i, k, addr);
            if i < init.len() {
                assert(in_route(init, i, k, addr));
            } else {
                assert(texts[k] == addr);
            }
        }
    }
}

proof fn sum_contains(a: Seq<Seq<char>>, b: Seq<Seq<char>>, x: Seq<char>)
    ensures
        (a + b).contains(x) <==> a.contains(x) || b.contains(x),
{
    if (a + b).contains(x) {
        let i = choose|i: int| 0 <= i < (a + b).len() && (a + b)[i] == x;
        if i < a.len() {
            assert(a[i] == x);
        } else {
            assert(b[i - a.len()] == x);
        }
    }
    if a.contains(x) {
        let i = choose|i: int| 0 <= i < a.len() && a[i] == x;
        assert((a + b)[i] == x);
    }
    if b.contains(x) {
        let i = choose|i: int| 0 <= i < b.len() && b[i] == x;
        assert((a + b)[a.len() + i] == x);
    }
}

/// A probe's outcome is what is told of its address from then on, and changes nothing else;
/// it is news if nothing or something else was known.
pub proof fn probes_are_remembered(
    manager: &mut HealthManager,
    addr: String,
    is_healthy: bool,
    changed: bool,
    other: Seq<char>,
)
    requires
        call_ensures(HealthManager::record_probe, (manager, &addr, is_healthy), changed),
        other != addr@,
    ensures
        healthy(final(manager)@, addr@) == is_healthy,
        healthy(final(manager)@, other) == healthy(old(manager)@, other),
        changed == !(old(manager)@.contains_key(addr@) && old(manager)@[addr@] == is_healthy),
{
}

/// An address is healthy unless its last probe failed.
pub proof fn health_is_told(manager: HealthManager, addr: &str, r: bool)
    requires
        call_ensures(HealthManager::is_healthy, (&manager, addr), r),
    ensures
        r == (!manager@.contains_key(addr@) || manager@[addr@]),
{
}

/// Every address that is configured is probed, each once, and no other.
pub proof fn configured_upstreams_are_probed(config: Config, r: Vec<String>, addr: Seq<char>)
    requires
        call_ensures(unique_upstreams, (&config,), r),
    ensures
        addr_texts(r@).no_duplicates(),
        addr_texts(r@).contains(addr) <==> exists|v: int, i: int, k: int|
            is_listed(config.vhosts@, v, i, k, addr),
{
    upstreams_are_probed_once(vhost_addrs(config.vhosts@));
    listed_upstreams_are_probed(config.vhosts@, addr);
}

/// Every upstream server is healthy at first; probes come every ten seconds and fail after
/// two.
pub proof fn all_are_healthy_at_first(manager: HealthManager, addr: Seq<char>)
    requires
        call_ensures(HealthManager::new, (), manager),
    ensures
        healthy(manager@, addr),
        PROBE_INTERVAL_SECONDS == 10,
        PROBE_TIMEOUT_SECONDS == 2,
{
}

} // verus!
