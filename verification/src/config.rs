//! The configuration of the proxy and its virtual hosts.
use crate::text::{starts_with, text_eq};
use vstd::prelude::*;

verus! {

broadcast use vstd::string::group_string_axioms;

/// Listening addresses and the connection limit.
#[derive(Debug, Clone)]
pub struct NetworkConfig {
    pub http_addrs: Vec<String>,
    pub https_addrs: Vec<String>,
    pub max_connections: usize,
}

/// Timeouts in seconds, towards clients (`c_`) and upstream servers (`s_`).
#[derive(Debug, Clone)]
pub struct TimeoutConfig {
    pub c_tls_handshake: u64,
    pub c_header_read: u64,
    pub c_keep_alive_idle: u64,
    pub c_keep_alive_timeout: u64,
    pub c_body_timeout: u64,
    pub s_connect: u64,
    pub s_response: u64,
    pub s_websocket_idle: u64,
}

/// Resource limits.
#[derive(Debug, Clone)]
pub struct LimitConfig {
    pub max_uri_size: usize,
    pub max_header_size: usize,
    pub max_header_count: usize,
    pub max_body_size: usize,
    pub c_h2_max_streams: u32,
    pub max_rps: u32,
    pub max_bandwidth: u64,
}

/// Ban durations in seconds per kind of violation; zero bans nobody.
#[derive(Debug, Clone)]
pub struct BanConfig {
    pub ban_timeout: u64,
    pub ban_protocol: u64,
    pub ban_waf: u64,
    pub ban_rate_limit: u64,
}

/// Runtime configuration for a specific virtual host. The routes stand with the
/// longest path first; each has its own counter for its upstream rotation.
#[derive(Debug, Clone)]
pub struct VHostConfig {
    pub cert_path: String,
    pub key_path: String,
    pub routers: Vec<(String, Vec<String>)>,
    pub routers_state: Vec<usize>,
}

/// A virtual host as a configuration file states it.
#[derive(Debug, Clone)]
pub struct RawVHost {
    pub domain: String,
    pub cert_path: String,
    pub key_path: String,
    pub routers: Vec<(String, Vec<String>)>,
}

/// The content of a configuration file.
#[derive(Debug, Clone)]
pub struct RawConfig {
    pub network: NetworkConfig,
    pub timeout: TimeoutConfig,
    pub limit: LimitConfig,
    pub ban: BanConfig,
    pub vhosts: Vec<RawVHost>,
}

/// High-level configuration structure for the proxy.
#[derive(Debug, Clone)]
pub struct Config {
    pub network: NetworkConfig,
    pub timeout: TimeoutConfig,
    pub limit: LimitConfig,
    pub ban: BanConfig,
    pub vhosts: Vec<(String, VHostConfig)>,
}

/// The length of a route's path in bytes.
pub open spec fn route_len(route: (String, Vec<String>)) -> nat {
    vstd::utf8::encode_utf8(route.0@).len()
}

/// Whether longer paths stand before shorter ones.
pub open spec fn longest_first(routes: Seq<(String, Vec<String>)>) -> bool {
    forall|i: int, j: int|
        0 <= i < j < routes.len() ==> route_len(#[trigger] routes[i]) >= route_len(
            #[trigger] routes[j],
        )
}

/// The routes whose path has `n` bytes, in their order.
pub open spec fn routes_of_len(routes: Seq<(String, Vec<String>)>, n: nat) -> Seq<
    (String, Vec<String>),
> {
    routes.filter(|r: (String, Vec<String>)| route_len(r) == n)
}

/// Whether `sorted` is `routes` ordered by descending path length, routes of
/// equal length in their order.
pub open spec fn sorted_routes(
    routes: Seq<(String, Vec<String>)>,
    sorted: Seq<(String, Vec<String>)>,
) -> bool {
    &&& longest_first(sorted)
    &&& sorted.to_multiset() == routes.to_multiset()
    &&& forall|n: nat| #[trigger] routes_of_len(sorted, n) == routes_of_len(routes, n)
}

proof fn filter_none<A>(s: Seq<A>, p: spec_fn(A) -> bool)
    requires
        forall|i: int| 0 <= i < s.len() ==> !p(#[trigger] s[i]),
    ensures
        s.filter(p) == Seq::<A>::empty(),
    decreases s.len(),
{
    reveal(Seq::filter);
    if s.len() > 0 {
        filter_none(s.drop_last(), p);
    }
}

/// Inserting a route behind all that are at least as long keeps, for every
/// length, the order of the routes of that length.
proof fn insert_keeps_lengths(
    s: Seq<(String, Vec<String>)>,
    k: int,
    x: (String, Vec<String>),
    n: nat,
)
    requires
        0 <= k <= s.len(),
        forall|i: int| k <= i < s.len() ==> route_len(#[trigger] s[i]) < route_len(x),
    ensures
        routes_of_len(s.insert(k, x), n) == routes_of_len(s.push(x), n),
{
    let p = |r: (String, Vec<String>)| route_len(r) == n;
    let a = s.take(k);
    let b = s.skip(k);
    assert(s == a + b);
    assert(s.insert(k, x) == a.push(x) + b);
    Seq::filter_distributes_over_add(a.push(x), b, p);
    Seq::filter_distributes_over_add(a, b, p);
    reveal(Seq::filter);
    assert(a.push(x).drop_last() == a);
    assert(s.push(x).drop_last() == s);
    if route_len(x) == n {
        filter_none(b, p);
        assert(a.filter(p) + Seq::<(String, Vec<String>)>::empty() == a.filter(p));
        assert(a.filter(p).push(x) + Seq::<(String, Vec<String>)>::empty() == a.filter(p).push(x));
    }
}

/// Sorts routes by descending path length, stably.
fn sort_routes(routes: Vec<(String, Vec<String>)>) -> (r: Vec<(String, Vec<String>)>)
    ensures
        sorted_routes(routes@, r@),
{
    let mut out: Vec<(String, Vec<String>)> = Vec::new();
    assert(routes@.take(0) == out@);
    for route in it: routes
        invariant
            it.seq() == routes@,
            sorted_routes(routes@.take(it.index()), out@),
    {
        let ghost done = routes@.take(it.index());
        let ghost before = out@;
        let bytes = route.0.as_str().as_bytes();
        let len: usize = bytes.len();
        let mut k: usize = 0;
        while k < out.len() && out[k].0.as_str().as_bytes().len() >= len
            invariant
                k <= out@.len(),
                out@ == before,
                len == route_len(route),
                forall|i: int| 0 <= i < k ==> route_len(#[trigger] out@[i]) >= len,
            ensures
                k <= out@.len(),
                out@ == before,
                forall|i: int| 0 <= i < k ==> route_len(#[trigger] out@[i]) >= len,
                k < out@.len() ==> route_len(out@[k as int]) < len,
            decreases out@.len() - k,
        {
            k += 1;
        }
        let ghost x = route;
        out.insert(k, route);
        proof {
            assert forall|i: int| k <= i < before.len() implies route_len(#[trigger] before[i])
                < route_len(x) by {
                if i > k {
                    assert(route_len(before[k as int]) >= route_len(before[i]));
                }
            }
            assert(longest_first(out@));
            assert(routes@.take(it.index() + 1) == done.push(x));
            assert(out@.to_multiset() == done.push(x).to_multiset()) by {
                broadcast use vstd::seq_lib::group_to_multiset_ensures;

                assert(out@.remove(k as int) == before);
                assert(out@[k as int] == x);
                assert(out@.to_multiset() == before.to_multiset().insert(x));
            }
            assert forall|n: nat| #[trigger] routes_of_len(out@, n) == routes_of_len(
                done.push(x),
                n,
            ) by {
                insert_keeps_lengths(before, k as int, x, n);
                assert(routes_of_len(before, n) == routes_of_len(done, n));
                reveal(Seq::filter);
                assert(done.push(x).drop_last() == done);
                assert(before.push(x).drop_last() == before);
            }
        }
    }
    assert(routes@.take(routes@.len() as int) == routes@);
    out
}

/// The counters of `n` routes that have not served a request.
pub open spec fn no_turns(n: nat) -> Seq<usize> {
    Seq::new(n, |i: int| 0usize)
}

impl VHostConfig {
    /// The longest paths stand first and every route has a counter.
    pub open spec fn wf(self) -> bool {
        &&& longest_first(self.routers@)
        &&& self.routers_state@.len() == self.routers@.len()
    }

    /// The virtual host of a configuration entry.
    pub fn new(
        cert_path: String,
        key_path: String,
        routers: Vec<(String, Vec<String>)>,
    ) -> (r: VHostConfig)
        ensures
            r.wf(),
            r.cert_path == cert_path,
            r.key_path == key_path,
            sorted_routes(routers@, r.routers@),
            r.routers_state@ == no_turns(r.routers@.len()),
    {
        let routers = sort_routes(routers);
        let mut routers_state: Vec<usize> = Vec::new();
        let mut i: usize = 0;
        while i < routers.len()
            invariant
                i <= routers@.len(),
                routers_state@ == no_turns(i as nat),
            decreases routers@.len() - i,
        {
            routers_state.push(0);
            i += 1;
        }
        VHostConfig { cert_path, key_path, routers, routers_state }
    }

    /// The route that serves a path: the longest whose own path begins it.
    pub fn find_route(&self, path: &str) -> (r: Option<usize>)
        ensures
            r is Some == first_prefix(self.routers@, path@) is Some,
            r matches Some(i) ==> first_prefix(self.routers@, path@) == Some(i as int),
    {
        let mut i: usize = 0;
        while i < self.routers.len()
            invariant
                i <= self.routers@.len(),
                forall|j: int|
                    0 <= j < i ==> !crate::text::begins_with(path@, #[trigger] self.routers@[j].0@),
            decreases self.routers@.len() - i,
        {
            if starts_with(path, self.routers[i].0.as_str()) {
                proof {
                    first_prefix_is(self.routers@, path@, i as int);
                }
                return Some(i);
            }
            i += 1;
        }
        proof {
            first_prefix_none(self.routers@, path@);
        }
        None
    }
}

/// The first route whose path begins `path`.
pub open spec fn first_prefix(routes: Seq<(String, Vec<String>)>, path: Seq<char>) -> Option<int>
    decreases routes.len(),
{
    if routes.len() == 0 {
        None
    } else {
        match first_prefix(routes.drop_last(), path) {
            Some(i) => Some(i),
            None => if crate::text::begins_with(path, routes.last().0@) {
                Some(routes.len() - 1)
            } else {
                None
            },
        }
    }
}

proof fn first_prefix_none(routes: Seq<(String, Vec<String>)>, path: Seq<char>)
    requires
        forall|j: int|
            0 <= j < routes.len() ==> !crate::text::begins_with(path, #[trigger] routes[j].0@),
    ensures
        first_prefix(routes, path) is None,
    decreases routes.len(),
{
    if routes.len() > 0 {
        first_prefix_none(routes.drop_last(), path);
    }
}

proof fn first_prefix_is(routes: Seq<(String, Vec<String>)>, path: Seq<char>, i: int)
    requires
        0 <= i < routes.len(),
        crate::text::begins_with(path, routes[i].0@),
        forall|j: int| 0 <= j < i ==> !crate::text::begins_with(path, #[trigger] routes[j].0@),
    ensures
        first_prefix(routes, path) == Some(i),
    decreases routes.len(),
{
    if i == routes.len() - 1 {
        first_prefix_none(routes.drop_last(), path);
    } else {
        first_prefix_is(routes.drop_last(), path, i);
    }
}

/// Routing is by longest prefix: the chosen route's path begins the request path,
/// no route with a longer path does, and a request without a route has none whose
/// path begins it.
pub proof fn routing_is_longest_prefix(routes: Seq<(String, Vec<String>)>, path: Seq<char>)
    requires
        longest_first(routes),
    ensures
        match first_prefix(routes, path) {
            Some(i) => {
                &&& 0 <= i < routes.len()
                &&& crate::text::begins_with(path, routes[i].0@)
                &&& forall|j: int|
                    0 <= j < routes.len() && crate::text::begins_with(
                        path,
                        #[trigger] routes[j].0@,
                    ) ==> route_len(routes[j]) <= route_len(routes[i])
            },
            None => forall|j: int|
                0 <= j < routes.len() ==> !crate::text::begins_with(path, #[trigger] routes[j].0@),
        },
    decreases routes.len(),
{
    if routes.len() > 0 {
        let shorter = routes.drop_last();
        routing_is_longest_prefix(shorter, path);
        match first_prefix(shorter, path) {
            Some(i) => {
                assert forall|j: int|
                    0 <= j < routes.len() && crate::text::begins_with(
                        path,
                        #[trigger] routes[j].0@,
                    ) implies route_len(routes[j]) <= route_len(routes[i]) by {
                    if j < shorter.len() {
                        assert(shorter[j] == routes[j]);
                    }
                }
            },
            None => {
                assert forall|j: int| 0 <= j < shorter.len() implies !crate::text::begins_with(
                    path,
                    #[trigger] routes[j].0@,
                ) by {
                    assert(shorter[j] == routes[j]);
                }
            },
        }
    }
}

/// The order in which a file lists routes decides nothing: of two listings with the
/// same routes, each path once, both serve a path by the same route or none does.
pub proof fn routing_ignores_listing_order(
    a: Seq<(String, Vec<String>)>,
    b: Seq<(String, Vec<String>)>,
    path: Seq<char>,
)
    requires
        longest_first(a),
        longest_first(b),
        a.to_multiset() == b.to_multiset(),
        forall|x: int, y: int|
            0 <= x < y < a.len() ==> #[trigger] a[x].0@ != #[trigger] a[y].0@,
    ensures
        match (first_prefix(a, path), first_prefix(b, path)) {
            (Some(i), Some(j)) => a[i] == b[j],
            (None, None) => true,
            _ => false,
        },
{
    routing_is_longest_prefix(a, path);
    routing_is_longest_prefix(b, path);
    a.to_multiset_ensures();
    b.to_multiset_ensures();
    if let Some(j) = first_prefix(b, path) {
        assert(b.contains(b[j]) && b.to_multiset().count(b[j]) > 0);
        assert(a.to_multiset().count(b[j]) > 0 && a.contains(b[j]));
        let x = choose|x: int| 0 <= x < a.len() && a[x] == b[j];
        assert(crate::text::begins_with(path, a[x].0@));
    }
    if let Some(i) = first_prefix(a, path) {
        assert(a.contains(a[i]) && a.to_multiset().count(a[i]) > 0);
        assert(b.to_multiset().count(a[i]) > 0 && b.contains(a[i]));
        let y = choose|y: int| 0 <= y < b.len() && b[y] == a[i];
        assert(crate::text::begins_with(path, b[y].0@));
        let j = first_prefix(b, path)->0;
        let x = choose|x: int| 0 <= x < a.len() && a[x] == b[j];
        assert(route_len(a[x]) <= route_len(a[i]));
        assert(route_len(b[y]) <= route_len(b[j]));
        equal_prefixes(path, a[i].0@, b[j].0@);
        if x < i {
            assert(a[x].0@ != a[i].0@);
        } else if i < x {
            assert(a[i].0@ != a[x].0@);
        }
    }
}

/// Two prefixes of one text whose encodings are equally long are equal.
proof fn equal_prefixes(s: Seq<char>, a: Seq<char>, b: Seq<char>)
    requires
        crate::text::begins_with(s, a),
        crate::text::begins_with(s, b),
        vstd::utf8::encode_utf8(a).len() == vstd::utf8::encode_utf8(b).len(),
    ensures
        a == b,
{
    if a.len() < b.len() {
        assert(a == b.take(a.len() as int));
        prefix_encodes_shorter(a, b);
    } else if b.len() < a.len() {
        assert(b == a.take(b.len() as int));
        prefix_encodes_shorter(b, a);
    }
}

/// A proper prefix has a shorter encoding.
proof fn prefix_encodes_shorter(a: Seq<char>, b: Seq<char>)
    requires
        a.len() < b.len(),
        a == b.take(a.len() as int),
    ensures
        vstd::utf8::encode_utf8(a).len() < vstd::utf8::encode_utf8(b).len(),
    decreases b.len(),
{
    vstd::utf8::char_is_scalar(b[0]);
    if a.len() > 0 {
        assert(a[0] == b[0]);
        assert(a.drop_first() == b.drop_first().take(a.len() - 1));
        prefix_encodes_shorter(a.drop_first(), b.drop_first());
    }
}

/// The virtual host of a domain.
pub open spec fn vhost_index(vhosts: Seq<(String, VHostConfig)>, domain: Seq<char>) -> Option<int>
    decreases vhosts.len(),
{
    if vhosts.len() == 0 {
        None
    } else if vhosts.last().0@ == domain {
        Some(vhosts.len() - 1)
    } else {
        vhost_index(vhosts.drop_last(), domain)
    }
}

/// The last file entry for a domain.
pub open spec fn last_entry(entries: Seq<RawVHost>, domain: Seq<char>) -> Option<RawVHost>
    decreases entries.len(),
{
    if entries.len() == 0 {
        None
    } else if entries.last().domain@ == domain {
        Some(entries.last())
    } else {
        last_entry(entries.drop_last(), domain)
    }
}

/// Whether a virtual host is made from a file entry.
pub open spec fn vhost_from(entry: RawVHost, vhost: VHostConfig) -> bool {
    &&& vhost.wf()
    &&& vhost.cert_path == entry.cert_path
    &&& vhost.key_path == entry.key_path
    &&& sorted_routes(entry.routers@, vhost.routers@)
    &&& vhost.routers_state@ == no_turns(vhost.routers@.len())
}

/// Whether the virtual hosts are those of the file entries, the last entry of a
/// domain taking the place of the earlier ones.
pub open spec fn vhosts_from(
    entries: Seq<RawVHost>,
    vhosts: Seq<(String, VHostConfig)>,
) -> bool {
    forall|domain: Seq<char>|
        match #[trigger] vhost_index(vhosts, domain) {
            Some(i) => last_entry(entries, domain) matches Some(entry) && vhost_from(
                entry,
                vhosts[i].1,
            ),
            None => last_entry(entries, domain) is None,
        }
}

impl Config {
    /// Every domain has one virtual host, and each of these is well formed.
    pub open spec fn wf(self) -> bool {
        &&& forall|i: int| 0 <= i < self.vhosts@.len() ==> (#[trigger] self.vhosts@[i]).1.wf()
        &&& distinct_domains(self.vhosts@)
    }
}

/// Whether no domain occurs twice.
pub open spec fn distinct_domains(vhosts: Seq<(String, VHostConfig)>) -> bool {
    forall|i: int, j: int|
        0 <= i < j < vhosts.len() ==> (#[trigger] vhosts[i]).0@ != (#[trigger] vhosts[j]).0@
}

proof fn vhost_index_is(vhosts: Seq<(String, VHostConfig)>, i: int)
    requires
        0 <= i < vhosts.len(),
        distinct_domains(vhosts),
    ensures
        vhost_index(vhosts, vhosts[i].0@) == Some(i),
    decreases vhosts.len(),
{
    if i < vhosts.len() - 1 {
        assert(vhosts[i].0@ != vhosts[vhosts.len() - 1].0@);
        vhost_index_is(vhosts.drop_last(), i);
    }
}

proof fn vhost_index_none(vhosts: Seq<(String, VHostConfig)>, domain: Seq<char>)
    requires
        forall|i: int| 0 <= i < vhosts.len() ==> (#[trigger] vhosts[i]).0@ != domain,
    ensures
        vhost_index(vhosts, domain) is None,
    decreases vhosts.len(),
{
    if vhosts.len() > 0 {
        vhost_index_none(vhosts.drop_last(), domain);
    }
}

/// A virtual host that is found is in the list under its domain; one that is not
/// found is not there.
pub(crate) proof fn vhost_index_bounds(vhosts: Seq<(String, VHostConfig)>, domain: Seq<char>)
    ensures
        vhost_index(vhosts, domain) matches Some(i) ==> 0 <= i < vhosts.len()
            && vhosts[i].0@ == domain,
        vhost_index(vhosts, domain) is None ==> forall|i: int|
            0 <= i < vhosts.len() ==> (#[trigger] vhosts[i]).0@ != domain,
    decreases vhosts.len(),
{
    if vhosts.len() > 0 && vhosts.last().0@ != domain {
        vhost_index_bounds(vhosts.drop_last(), domain);
        assert forall|i: int|
            0 <= i < vhosts.len() && vhost_index(vhosts, domain) is None implies (
        #[trigger] vhosts[i]).0@ != domain by {
            if i < vhosts.len() - 1 {
                assert(vhosts.drop_last()[i] == vhosts[i]);
            }
        }
    }
}

impl Config {
    /// Puts a virtual host under its domain, in place of an earlier one.
    fn place_vhost(vhosts: &mut Vec<(String, VHostConfig)>, domain: String, vhost: VHostConfig)
        requires
            distinct_domains(old(vhosts)@),
            vhost.wf(),
            forall|i: int| 0 <= i < old(vhosts)@.len() ==> (#[trigger] old(vhosts)@[i]).1.wf(),
        ensures
            distinct_domains(final(vhosts)@),
            forall|i: int| 0 <= i < final(vhosts)@.len() ==> (#[trigger] final(vhosts)@[i]).1.wf(),
            forall|other: Seq<char>|
                match #[trigger] vhost_index(final(vhosts)@, other) {
                    Some(i) => if other == domain@ {
                        final(vhosts)@[i].1 == vhost
                    } else {
                        vhost_index(old(vhosts)@, other) matches Some(j) && final(vhosts)@[i].1
                            == old(vhosts)@[j].1
                    },
                    None => other != domain@ && vhost_index(old(vhosts)@, other) is None,
                },
    {
        let ghost before = vhosts@;
        let mut i: usize = 0;
        while i < vhosts.len()
            invariant
                i <= vhosts@.len(),
                vhosts@ == before,
                forall|j: int| 0 <= j < i ==> (#[trigger] before[j]).0@ != domain@,
            ensures
                i <= vhosts@.len(),
                vhosts@ == before,
                forall|j: int| 0 <= j < i ==> (#[trigger] before[j]).0@ != domain@,
                i < vhosts@.len() ==> before[i as int].0@ == domain@,
            decreases vhosts@.len() - i,
        {
            if text_eq(vhosts[i].0.as_str(), domain.as_str()) {
                break;
            }
            i += 1;
        }
        let ghost name = domain@;
        if i < vhosts.len() {
            vhosts.set(i, (domain, vhost));
        } else {
            vhosts.push((domain, vhost));
        }
        proof {
            let after = vhosts@;
            assert(distinct_domains(after)) by {
                assert forall|x: int, y: int| 0 <= x < y < after.len() implies (
                #[trigger] after[x]).0@ != (#[trigger] after[y]).0@ by {
                    if x < before.len() && y < before.len() {
                        assert(before[x].0@ != before[y].0@);
                    }
                }
            }
            assert forall|other: Seq<char>|
                match #[trigger] vhost_index(after, other) {
                    Some(k) => if other == name {
                        after[k].1 == vhost
                    } else {
                        vhost_index(before, other) matches Some(j) && after[k].1 == before[j].1
                    },
                    None => other != name && vhost_index(before, other) is None,
                } by {
                vhost_index_bounds(after, other);
                vhost_index_bounds(before, other);
                vhost_index_is(after, i as int);
                match vhost_index(after, other) {
                    Some(k) => {
                        if other != name {
                            assert(k != i);
                            assert(before[k].0@ == other);
                            vhost_index_is(before, k);
                        }
                    },
                    None => {
                        if vhost_index(before, other) is Some {
                            let j = vhost_index(before, other)->0;
                            assert(after[j].0@ == other);
                        }
                    },
                }
            }
        }
    }

    /// The configuration that a file states.
    pub fn from_raw(raw: RawConfig) -> (r: Config)
        ensures
            r.wf(),
            r.network == raw.network,
            r.timeout == raw.timeout,
            r.limit == raw.limit,
            r.ban == raw.ban,
            vhosts_from(raw.vhosts@, r.vhosts@),
    {
        let entries = raw.vhosts;
        let mut vhosts: Vec<(String, VHostConfig)> = Vec::new();
        assert(entries@.take(0) == Seq::<RawVHost>::empty());
        for entry in it: entries
            invariant
                it.seq() == entries@,
                distinct_domains(vhosts@),
                forall|i: int| 0 <= i < vhosts@.len() ==> (#[trigger] vhosts@[i]).1.wf(),
                vhosts_from(entries@.take(it.index()), vhosts@),
        {
            let ghost e = entry;
            let ghost done = entries@.take(it.index());
            let ghost before = vhosts@;
            let vhost = VHostConfig::new(entry.cert_path, entry.key_path, entry.routers);
            Self::place_vhost(&mut vhosts, entry.domain, vhost);
            proof {
                let now = entries@.take(it.index() + 1);
                assert(now.drop_last() == done);
                assert(now.last() == e);
                assert forall|domain: Seq<char>|
                    match #[trigger] vhost_index(vhosts@, domain) {
                        Some(i) => last_entry(now, domain) matches Some(x) && vhost_from(
                            x,
                            vhosts@[i].1,
                        ),
                        None => last_entry(now, domain) is None,
                    } by {
                    let old_index = vhost_index(before, domain);
                }
            }
        }
        assert(entries@.take(entries@.len() as int) == entries@);
        Config { network: raw.network, timeout: raw.timeout, limit: raw.limit, ban: raw.ban, vhosts }
    }

    /// Where the virtual host of a domain stands.
    pub fn vhost_position(&self, domain: &str) -> (r: Option<usize>)
        ensures
            match vhost_index(self.vhosts@, domain@) {
                Some(i) => r matches Some(k) && k == i,
                None => r is None,
            },
    {
        let mut i: usize = self.vhosts.len();
        while i > 0
            invariant
                i <= self.vhosts@.len(),
                forall|j: int|
                    i <= j < self.vhosts@.len() ==> (#[trigger] self.vhosts@[j]).0@ != domain@,
            decreases i,
        {
            i -= 1;
            if text_eq(self.vhosts[i].0.as_str(), domain) {
                proof {
                    vhost_index_last(self.vhosts@, i as int);
                }
                return Some(i);
            }
        }
        proof {
            vhost_index_none(self.vhosts@, domain@);
        }
        None
    }

    /// The virtual host of a domain.
    pub fn vhost(&self, domain: &str) -> (r: Option<&VHostConfig>)
        ensures
            match vhost_index(self.vhosts@, domain@) {
                Some(i) => r == Some(&self.vhosts@[i].1),
                None => r is None,
            },
    {
        proof {
            vhost_index_bounds(self.vhosts@, domain@);
        }
        match self.vhost_position(domain) {
            Some(i) => Some(&self.vhosts[i].1),
            None => None,
        }
    }
}

/// The counters of all routes, by virtual host.
pub open spec fn counters(config: Config) -> Seq<Seq<usize>> {
    config.vhosts@.map_values(|vhost: (String, VHostConfig)| vhost.1.routers_state@)
}

/// The counters after a turn of one route; without a route, no counter moves.
pub open spec fn advanced(turns: Seq<Seq<usize>>, place: Option<(int, int)>) -> Seq<Seq<usize>> {
    match place {
        Some((v, i)) => turns.update(v, turns[v].update(i, turns[v][i].wrapping_add(1))),
        None => turns,
    }
}

/// Whether two configurations agree in everything but their counters.
pub open spec fn same_settings(a: Config, b: Config) -> bool {
    &&& a.network == b.network
    &&& a.timeout == b.timeout
    &&& a.limit == b.limit
    &&& a.ban == b.ban
    &&& a.vhosts@.len() == b.vhosts@.len()
    &&& forall|i: int|
        0 <= i < a.vhosts@.len() ==> same_vhost(#[trigger] a.vhosts@[i], b.vhosts@[i])
}

/// Whether two virtual hosts agree in everything but their counters.
pub open spec fn same_vhost(a: (String, VHostConfig), b: (String, VHostConfig)) -> bool {
    &&& a.0 == b.0
    &&& a.1.cert_path == b.1.cert_path
    &&& a.1.key_path == b.1.key_path
    &&& a.1.routers == b.1.routers
}

/// A route that is found is in the list.
pub(crate) proof fn first_prefix_bounds(routes: Seq<(String, Vec<String>)>, path: Seq<char>)
    ensures
        first_prefix(routes, path) matches Some(i) ==> 0 <= i < routes.len(),
    decreases routes.len(),
{
    if routes.len() > 0 {
        first_prefix_bounds(routes.drop_last(), path);
    }
}

proof fn vhost_index_last(vhosts: Seq<(String, VHostConfig)>, i: int)
    requires
        0 <= i < vhosts.len(),
        forall|j: int| i < j < vhosts.len() ==> (#[trigger] vhosts[j]).0@ != vhosts[i].0@,
    ensures
        vhost_index(vhosts, vhosts[i].0@) == Some(i),
    decreases vhosts.len(),
{
    if i < vhosts.len() - 1 {
        vhost_index_last(vhosts.drop_last(), i);
    }
}

/// The first route whose path begins a path serves it: none before it does, and where no
/// route serves a path, none begins it.
pub proof fn first_matching_route_serves(routes: Seq<(String, Vec<String>)>, path: Seq<char>)
    ensures
        match first_prefix(routes, path) {
            Some(i) => {
                &&& 0 <= i < routes.len()
                &&& crate::text::begins_with(path, routes[i].0@)
                &&& forall|j: int|
                    0 <= j < i ==> !crate::text::begins_with(path, #[trigger] routes[j].0@)
            },
            None => forall|j: int|
                0 <= j < routes.len() ==> !crate::text::begins_with(path, #[trigger] routes[j].0@),
        },
    decreases routes.len(),
{
    if routes.len() > 0 {
        let shorter = routes.drop_last();
        first_matching_route_serves(shorter, path);
        assert forall|j: int| 0 <= j < shorter.len() implies shorter[j] == #[trigger] routes[j] by {}
        match first_prefix(shorter, path) {
            Some(i) => {
                assert forall|j: int| 0 <= j < i implies !crate::text::begins_with(
                    path,
                    #[trigger] routes[j].0@,
                ) by {
                    assert(shorter[j] == routes[j]);
                }
            },
            None => {
                assert forall|j: int| 0 <= j < shorter.len() implies !crate::text::begins_with(
                    path,
                    #[trigger] routes[j].0@,
                ) by {
                    assert(shorter[j] == routes[j]);
                }
            },
        }
    }
}

/// A route serves its own path and every path below it, unless a route with a longer path
/// does.
pub proof fn routes_serve_what_is_below_them(
    routes: Seq<(String, Vec<String>)>,
    i: int,
    rest: Seq<char>,
)
    requires
        longest_first(routes),
        0 <= i < routes.len(),
    ensures
        first_prefix(routes, routes[i].0@ + rest) matches Some(j) && 0 <= j < routes.len()
            && route_len(routes[j]) >= route_len(routes[i]),
{
    let path = routes[i].0@ + rest;
    crate::text::prefixes_stand_first(path, routes[i].0@);
    assert(crate::text::begins_with(path, routes[i].0@));
    routing_is_longest_prefix(routes, path);
}

/// Of the entries of a file for one domain the last counts, and entries for other domains
/// do not matter.
pub proof fn last_entries_count(
    before: Seq<RawVHost>,
    entry: RawVHost,
    after: Seq<RawVHost>,
)
    requires
        forall|i: int| 0 <= i < after.len() ==> (#[trigger] after[i]).domain@ != entry.domain@,
    ensures
        last_entry(before + seq![entry] + after, entry.domain@) == Some(entry),
    decreases after.len(),
{
    let all = before + seq![entry] + after;
    if after.len() == 0 {
        assert(all.last() == entry);
    } else {
        assert(all.last() == after[after.len() - 1]);
        assert(all.drop_last() == before + seq![entry] + after.drop_last());
        last_entries_count(before, entry, after.drop_last());
    }
}

/// A domain without an entry has no virtual host.
pub proof fn unlisted_domains_are_not_served(entries: Seq<RawVHost>, domain: Seq<char>)
    requires
        forall|i: int| 0 <= i < entries.len() ==> (#[trigger] entries[i]).domain@ != domain,
    ensures
        last_entry(entries, domain) is None,
    decreases entries.len(),
{
    if entries.len() > 0 {
        unlisted_domains_are_not_served(entries.drop_last(), domain);
        assert(entries[entries.len() - 1].domain@ != domain);
    }
}

/// A configuration serves each domain by the last entry for it, with its files, its routes
/// and counters at zero.
pub proof fn entries_become_virtual_hosts(
    before: Seq<RawVHost>,
    entry: RawVHost,
    after: Seq<RawVHost>,
    vhosts: Seq<(String, VHostConfig)>,
)
    requires
        vhosts_from(before + seq![entry] + after, vhosts),
        forall|i: int| 0 <= i < after.len() ==> (#[trigger] after[i]).domain@ != entry.domain@,
    ensures
        vhost_index(vhosts, entry.domain@) matches Some(v) && 0 <= v < vhosts.len() && {
            let vhost = vhosts[v].1;
            &&& vhosts[v].0@ == entry.domain@
            &&& vhost.cert_path == entry.cert_path
            &&& vhost.key_path == entry.key_path
            &&& vhost.routers@.to_multiset() == entry.routers@.to_multiset()
            &&& longest_first(vhost.routers@)
            &&& vhost.routers_state@.len() == vhost.routers@.len()
            &&& forall|i: int|
                0 <= i < vhost.routers_state@.len() ==> #[trigger] vhost.routers_state@[i] == 0
        },
{
    last_entries_count(before, entry, after);
    vhost_index_bounds(vhosts, entry.domain@);
    let v = vhost_index(vhosts, entry.domain@);
    assert(v is Some);
}

/// A configuration holds what its file states, and is well formed.
pub proof fn files_become_configurations(raw: RawConfig, r: Config)
    requires
        call_ensures(Config::from_raw, (raw,), r),
    ensures
        r.network == raw.network,
        r.timeout == raw.timeout,
        r.limit == raw.limit,
        r.ban == raw.ban,
        vhosts_from(raw.vhosts@, r.vhosts@),
        r.wf(),
{
}

/// A path is served by the longest route of a virtual host that begins it, and by none only
/// where no route does.
pub proof fn longest_routes_serve(vhost: VHostConfig, path: &str, r: Option<usize>)
    requires
        call_ensures(VHostConfig::find_route, (&vhost, path), r),
        vhost.wf(),
    ensures
        match r {
            Some(i) => {
                &&& i < vhost.routers@.len()
                &&& crate::text::begins_with(path@, vhost.routers@[i as int].0@)
                &&& forall|j: int|
                    0 <= j < vhost.routers@.len() && crate::text::begins_with(
                        path@,
                        (#[trigger] vhost.routers@[j]).0@,
                    ) ==> route_len(vhost.routers@[j]) <= route_len(vhost.routers@[i as int])
            },
            None => forall|j: int|
                0 <= j < vhost.routers@.len() ==> !crate::text::begins_with(
                    path@,
                    (#[trigger] vhost.routers@[j]).0@,
                ),
        },
{
    routing_is_longest_prefix(vhost.routers@, path@);
}

/// A virtual host keeps the routes that it is given, each once as often as it is given, the
/// longest first and those of equal length in their order, and counts for each from zero.
pub proof fn routes_are_sorted(
    cert_path: String,
    key_path: String,
    routers: Vec<(String, Vec<String>)>,
    r: VHostConfig,
)
    requires
        call_ensures(VHostConfig::new, (cert_path, key_path, routers), r),
    ensures
        r.cert_path == cert_path,
        r.key_path == key_path,
        r.routers@.to_multiset() == routers@.to_multiset(),
        forall|i: int, j: int|
            0 <= i < j < r.routers@.len() ==> vstd::utf8::encode_utf8(
                (#[trigger] r.routers@[i]).0@,
            ).len() >= vstd::utf8::encode_utf8((#[trigger] r.routers@[j]).0@).len(),
        forall|n: nat| #[trigger] routes_of_len(r.routers@, n) == routes_of_len(routers@, n),
        r.routers_state@.len() == r.routers@.len(),
        forall|i: int| 0 <= i < r.routers_state@.len() ==> #[trigger] r.routers_state@[i] == 0,
{
    assert forall|i: int, j: int| 0 <= i < j < r.routers@.len() implies vstd::utf8::encode_utf8(
        (#[trigger] r.routers@[i]).0@,
    ).len() >= vstd::utf8::encode_utf8((#[trigger] r.routers@[j]).0@).len() by {
        assert(route_len(r.routers@[i]) >= route_len(r.routers@[j]));
    }
}

/// The virtual host of a domain is the one under exactly that name.
pub proof fn domains_find_their_host(config: Config, domain: &str, r: Option<usize>)
    requires
        call_ensures(Config::vhost_position, (&config, domain), r),
    ensures
        r matches Some(v) ==> v < config.vhosts@.len() && config.vhosts@[v as int].0@ == domain@,
        r is None ==> forall|v: int|
            0 <= v < config.vhosts@.len() ==> (#[trigger] config.vhosts@[v]).0@ != domain@,
{
    vhost_index_bounds(config.vhosts@, domain@);
}

} // verus!
