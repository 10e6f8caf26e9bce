//! Request quotas per address.
//!
//! Time is counted in nanoseconds from a fixed instant of the process.
use crate::ban::NANOS_PER_SECOND;
use crate::config::Config;
use crate::net::IpAddr;
use dashmap::DashMap;
use vstd::prelude::*;

verus! {

/// The concurrent map of the crate `dashmap`.
#[verifier::external_type_specification]
#[verifier::external_body]
#[verifier::reject_recursive_types(K)]
#[verifier::reject_recursive_types(V)]
#[verifier::reject_recursive_types(S)]
pub struct ExDashMap<K, V, S>(dashmap::DashMap<K, V, S>);

/// What a table of request counts holds: for each address key, the count of
/// accepted requests, the moment from which it counts and the moment of the last
/// request.
pub uninterp spec fn count_entries(table: DashMap<(bool, u128), (u32, u64, u64)>) -> Map<
    (bool, u128),
    (u32, u64, u64),
>;

/// `DashMap::new` makes an empty map.
#[verifier::external_body]
fn new_counts() -> (r: DashMap<(bool, u128), (u32, u64, u64)>)
    ensures
        forall|key: (bool, u128)| !#[trigger] count_entries(r).contains_key(key),
{
    DashMap::new()
}

/// `DashMap::entry` with `Entry::or_insert` finds the value of a key; where there
/// is none, it first inserts the one given. Nothing else changes.
#[verifier::external_body]
fn count_or_insert(
    table: &mut DashMap<(bool, u128), (u32, u64, u64)>,
    key: (bool, u128),
    value: (u32, u64, u64),
) -> (r: (u32, u64, u64))
    ensures
        count_entries(*old(table)).contains_key(key) ==> r == count_entries(*old(table))[key]
            && count_entries(*final(table)) == count_entries(*old(table)),
        !count_entries(*old(table)).contains_key(key) ==> r == value && count_entries(*final(table))
            == count_entries(*old(table)).insert(key, value),
{
    *table.entry(key).or_insert(value)
}

/// `DashMap::insert` puts a value under a key, in place of an earlier one.
#[verifier::external_body]
fn put_count(
    table: &mut DashMap<(bool, u128), (u32, u64, u64)>,
    key: (bool, u128),
    value: (u32, u64, u64),
)
    ensures
        count_entries(*final(table)) == count_entries(*old(table)).insert(key, value),
{
    table.insert(key, value);
}

/// `DashMap::retain` keeps the entries for which the function says so; here those
/// whose state is recent.
#[verifier::external_body]
fn retain_recent(table: &mut DashMap<(bool, u128), (u32, u64, u64)>, now: u64)
    ensures
        count_entries(*final(table)) == recent_entries(count_entries(*old(table)), now),
{
    table.retain(|_, state| is_recent(*state, now))
}

/// Seconds between two cleanups of inactive records.
pub const CLEANUP_SECONDS: u64 = 60;

/// Seconds after the last request at which a record is dropped.
pub const INACTIVE_SECONDS: u64 = 10;

/// Whether the address of a record was seen less than ten seconds before `now`.
pub open spec fn recent(state: (u32, u64, u64), now: u64) -> bool {
    now - state.2 < INACTIVE_SECONDS * NANOS_PER_SECOND
}

/// The entries that are recent at `now`.
pub open spec fn recent_entries<K>(entries: Map<K, (u32, u64, u64)>, now: u64) -> Map<K, (u32, u64, u64)> {
    entries.restrict(Set::new(|k: K| entries.contains_key(k) && recent(entries[k], now)))
}

/// Whether the address of a record was seen less than ten seconds before `now`.
fn is_recent(state: (u32, u64, u64), now: u64) -> (r: bool)
    ensures
        r == recent(state, now),
{
    now <= state.2 || now - state.2 < INACTIVE_SECONDS * NANOS_PER_SECOND
}

/// One request at `now` from an address whose record is `state`: the record that
/// follows and whether the request is accepted. A record counts for one second.
pub open spec fn step(state: Option<(u32, u64, u64)>, max_rps: u32, now: u64) -> (
    (u32, u64, u64),
    bool,
) {
    let (count, since, _) = match state {
        Some(s) => s,
        None => (0u32, now, now),
    };
    if now - since >= NANOS_PER_SECOND {
        ((1u32, now, now), true)
    } else if count < max_rps {
        (((count + 1) as u32, since, now), true)
    } else {
        ((count, since, now), false)
    }
}

/// The record of an address.
pub open spec fn record(records: Map<IpAddr, (u32, u64, u64)>, ip: IpAddr) -> Option<(u32, u64, u64)> {
    if records.contains_key(ip) {
        Some(records[ip])
    } else {
        None
    }
}

/// The records after a request and whether it is accepted. A limit of zero accepts
/// everything and records nothing.
pub open spec fn checked(
    records: Map<IpAddr, (u32, u64, u64)>,
    ip: IpAddr,
    max_rps: u32,
    now: u64,
) -> (Map<IpAddr, (u32, u64, u64)>, bool) {
    if max_rps == 0 {
        (records, true)
    } else {
        let (state, accepted) = step(record(records, ip), max_rps, now);
        (records.insert(ip, state), accepted)
    }
}

/// IP-based rate limiter: for each address, how many requests were accepted since
/// when, and when it was last seen.
pub struct RateLimiter {
    records: DashMap<(bool, u128), (u32, u64, u64)>,
}

impl View for RateLimiter {
    type V = Map<IpAddr, (u32, u64, u64)>;

    closed spec fn view(&self) -> Map<IpAddr, (u32, u64, u64)> {
        Map::new(
            |ip: IpAddr| count_entries(self.records).contains_key(ip.spec_key()),
            |ip: IpAddr| count_entries(self.records)[ip.spec_key()],
        )
    }
}

impl RateLimiter {
    pub fn new() -> (r: Self)
        ensures
            r@ == Map::<IpAddr, (u32, u64, u64)>::empty(),
    {
        let r = RateLimiter { records: new_counts() };
        assert(r@ == Map::<IpAddr, (u32, u64, u64)>::empty());
        r
    }

    /// Task: Inactive IP Cleanup
    /// Removes records that haven't been seen for 10 seconds to save memory.
    pub fn remove_inactive(&mut self, now: u64)
        ensures
            final(self)@ == recent_entries(old(self)@, now),
    {
        let ghost before = self@;
        retain_recent(&mut self.records, now);
        assert(self@ == recent_entries(before, now));
    }

    /// Checks if the request from the IP is within the RPS (Requests Per Second)
    /// limit.
    pub fn check(&mut self, ip: IpAddr, config: &Config, now: u64) -> (r: bool)
        ensures
            (final(self)@, r) == checked(old(self)@, ip, config.limit.max_rps, now),
    {
        let max_rps = config.limit.max_rps;
        if max_rps == 0 {
            return true;
        }
        let ghost before = self@;
        let key = ip.key();
        let (count, since, _) = count_or_insert(&mut self.records, key, (0, now, now));
        let (state, accepted) = if now > since && now - since >= NANOS_PER_SECOND {
            ((1u32, now, now), true)
        } else if count < max_rps {
            ((count + 1, since, now), true)
        } else {
            ((count, since, now), false)
        };
        put_count(&mut self.records, key, state);
        proof {
            assert forall|a: IpAddr, b: IpAddr| #[trigger] a.spec_key() == #[trigger] b.spec_key()
                implies a == b by {
                crate::net::key_is_injective(a, b);
            }
            assert(self@ == before.insert(ip, state));
        }
        accepted
    }
}

/// How many of the requests at the given moments are accepted, for an address
/// whose record is `state`.
pub open spec fn accepted(state: Option<(u32, u64, u64)>, max_rps: u32, times: Seq<u64>) -> nat
    decreases times.len(),
{
    if times.len() == 0 {
        0
    } else {
        let (next, ok) = step(state, max_rps, times[0]);
        accepted(Some(next), max_rps, times.drop_first()) + if ok {
            1nat
        } else {
            0nat
        }
    }
}

/// Whether the moments stand in order and span less than one second.
pub open spec fn within_a_second(times: Seq<u64>) -> bool {
    forall|i: int, j: int|
        0 <= i <= j < times.len() ==> #[trigger] times[i] <= #[trigger] times[j] && times[j]
            - times[i] < NANOS_PER_SECOND
}

/// While a record is not reset, it accepts what its count leaves of the quota.
proof fn accepted_without_reset(state: (u32, u64, u64), max_rps: u32, times: Seq<u64>)
    requires
        state.0 <= max_rps,
        forall|i: int| 0 <= i < times.len() ==> #[trigger] times[i] - state.1 < NANOS_PER_SECOND,
    ensures
        accepted(Some(state), max_rps, times) == if times.len() <= max_rps - state.0 {
            times.len() as int
        } else {
            max_rps - state.0
        },
    decreases times.len(),
{
    if times.len() > 0 {
        let (next, ok) = step(Some(state), max_rps, times[0]);
        assert forall|i: int| 0 <= i < times.drop_first().len() implies #[trigger] times.drop_first()[i]
            - next.1 < NANOS_PER_SECOND by {
            assert(times.drop_first()[i] == times[i + 1]);
        }
        accepted_without_reset(next, max_rps, times.drop_first());
    }
}

/// An address without a record has its whole quota: of requests that fall within
/// one second, as many are accepted as the limit allows and the rest is refused.
pub proof fn new_address_has_its_quota(max_rps: u32, times: Seq<u64>)
    requires
        max_rps > 0,
        within_a_second(times),
    ensures
        accepted(None, max_rps, times) == if times.len() <= max_rps {
            times.len() as int
        } else {
            max_rps as int
        },
{
    if times.len() > 0 {
        let (next, ok) = step(None, max_rps, times[0]);
        assert(next == (1u32, times[0], times[0]) && ok);
        assert forall|i: int| 0 <= i < times.drop_first().len() implies #[trigger] times.drop_first()[i]
            - next.1 < NANOS_PER_SECOND by {
            assert(times.drop_first()[i] == times[i + 1]);
            assert(times[0] <= times[i + 1]);
        }
        accepted_without_reset(next, max_rps, times.drop_first());
    }
}

/// Whatever came before, within one second no address gets more than twice its
/// limit: the rest of one counting second and the whole of the next.
pub proof fn bursts_are_bounded(state: (u32, u64, u64), max_rps: u32, times: Seq<u64>)
    requires
        max_rps > 0,
        state.0 <= max_rps,
        within_a_second(times),
    ensures
        accepted(Some(state), max_rps, times) <= (max_rps - state.0) + max_rps,
    decreases times.len(),
{
    if times.len() > 0 {
        let rest = times.drop_first();
        let (next, ok) = step(Some(state), max_rps, times[0]);
        if times[0] - state.1 >= NANOS_PER_SECOND {
            assert forall|i: int| 0 <= i < rest.len() implies #[trigger] rest[i] - next.1
                < NANOS_PER_SECOND by {
                assert(rest[i] == times[i + 1]);
                assert(times[0] <= times[i + 1]);
            }
            accepted_without_reset(next, max_rps, rest);
        } else {
            assert forall|i: int, j: int| 0 <= i <= j < rest.len() implies #[trigger] rest[i]
                <= #[trigger] rest[j] && rest[j] - rest[i] < NANOS_PER_SECOND by {
                assert(rest[i] == times[i + 1] && rest[j] == times[j + 1]);
            }
            bursts_are_bounded(next, max_rps, rest);
        }
    }
}

/// No record ever counts beyond the limit.
pub proof fn counts_stay_within_limit(
    records: Map<IpAddr, (u32, u64, u64)>,
    ip: IpAddr,
    max_rps: u32,
    now: u64,
)
    requires
        forall|k: IpAddr| #[trigger] records.contains_key(k) ==> records[k].0 <= max_rps,
    ensures
        forall|k: IpAddr| #[trigger]
            checked(records, ip, max_rps, now).0.contains_key(k) ==> checked(
                records,
                ip,
                max_rps,
                now,
            ).0[k].0 <= max_rps,
{
}

/// The requests of one address never change what another is answered.
pub proof fn addresses_are_independent(
    records: Map<IpAddr, (u32, u64, u64)>,
    ip: IpAddr,
    now: u64,
    other: IpAddr,
    later: u64,
    max_rps: u32,
)
    requires
        ip != other,
    ensures
        checked(checked(records, ip, max_rps, now).0, other, max_rps, later).1 == checked(
            records,
            other,
            max_rps,
            later,
        ).1,
{
}

/// Whether no record counts from a moment after its address was last seen.
pub open spec fn ordered(records: Map<IpAddr, (u32, u64, u64)>) -> bool {
    forall|ip: IpAddr| #[trigger] records.contains_key(ip) ==> records[ip].1 <= records[ip].2
}

/// Requests whose moments do not go back keep the records in order.
pub proof fn requests_keep_order(
    records: Map<IpAddr, (u32, u64, u64)>,
    ip: IpAddr,
    max_rps: u32,
    now: u64,
)
    requires
        ordered(records),
        records.contains_key(ip) ==> records[ip].2 <= now,
    ensures
        ordered(checked(records, ip, max_rps, now).0),
{
}

/// A cleanup drops the record of an address if and only if it was not seen for ten
/// seconds, counted from its last request.
pub proof fn cleanup_drops_unseen_addresses(
    records: Map<IpAddr, (u32, u64, u64)>,
    ip: IpAddr,
    max_rps: u32,
    seen: u64,
    now: u64,
)
    requires
        max_rps > 0,
    ensures
        recent_entries(checked(records, ip, max_rps, seen).0, now).contains_key(ip) <==> now - seen
            < INACTIVE_SECONDS * NANOS_PER_SECOND,
{
}

/// Dropping inactive records changes no later answer, nor the record that follows
/// it.
pub proof fn cleanup_is_unobservable(
    records: Map<IpAddr, (u32, u64, u64)>,
    now: u64,
    ip: IpAddr,
    max_rps: u32,
    later: u64,
)
    requires
        ordered(records),
        now <= later,
        max_rps > 0,
    ensures
        step(record(recent_entries(records, now), ip), max_rps, later) == step(
            record(records, ip),
            max_rps,
            later,
        ),
{
}

/// The whole quota is there again after a second: whatever an address has sent before
/// and whenever it was last seen, of requests that fall within one second, at least one
/// second after its counting began, as many are accepted as the limit allows.
pub proof fn quota_returns_after_a_second(
    state: (u32, u64, u64),
    max_rps: u32,
    times: Seq<u64>,
)
    requires
        max_rps > 0,
        within_a_second(times),
        times.len() > 0 ==> times[0] - state.1 >= 1_000_000_000,
    ensures
        accepted(Some(state), max_rps, times) == if times.len() <= max_rps {
            times.len() as int
        } else {
            max_rps as int
        },
{
    if times.len() > 0 {
        let (next, ok) = step(Some(state), max_rps, times[0]);
        let rest = times.drop_first();
        assert forall|i: int| 0 <= i < rest.len() implies #[trigger] rest[i] - next.1
            < NANOS_PER_SECOND by {
            assert(rest[i] == times[i + 1]);
            assert(times[0] <= times[i + 1]);
        }
        accepted_without_reset(next, max_rps, rest);
    }
}

/// Until a second has passed since its counting began, an address has what its count
/// leaves of the limit, and no more.
pub proof fn quota_is_used_up_within_a_second(
    state: (u32, u64, u64),
    max_rps: u32,
    times: Seq<u64>,
)
    requires
        state.0 <= max_rps,
        forall|i: int| 0 <= i < times.len() ==> #[trigger] times[i] - state.1 < 1_000_000_000,
    ensures
        accepted(Some(state), max_rps, times) == if times.len() <= max_rps - state.0 {
            times.len() as int
        } else {
            max_rps - state.0
        },
{
    assert forall|i: int| 0 <= i < times.len() implies #[trigger] times[i] - state.1
        < NANOS_PER_SECOND by {}
    accepted_without_reset(state, max_rps, times);
}

/// A client that stays within its limit is never refused: if no more requests than the
/// limit come within less than a second, all are accepted.
pub proof fn moderate_clients_are_served(max_rps: u32, times: Seq<u64>)
    requires
        max_rps > 0,
        forall|i: int, j: int| 0 <= i <= j < times.len() ==> #[trigger] times[i] <= #[trigger] times[j],
        forall|i: int, j: int|
            0 <= i && j < times.len() && j - i >= max_rps ==> #[trigger] times[j]
                - #[trigger] times[i] >= 1_000_000_000,
    ensures
        accepted(None, max_rps, times) == times.len(),
{
    if times.len() > 0 {
        let (next, ok) = step(None, max_rps, times[0]);
        assert(next.0 == 1 && next.1 == times[0] && ok);
        moderate_requests_are_served(next, max_rps, times, 0, 1);
        assert(times.skip(1) == times.drop_first());
    }
}

/// The same from the `n`-th request on, where those since the `k`-th were counted.
proof fn moderate_requests_are_served(
    state: (u32, u64, u64),
    max_rps: u32,
    times: Seq<u64>,
    k: int,
    n: int,
)
    requires
        max_rps > 0,
        0 <= k < n <= times.len(),
        state.1 == times[k],
        state.0 == n - k,
        n - k <= max_rps,
        forall|i: int, j: int| 0 <= i <= j < times.len() ==> #[trigger] times[i] <= #[trigger] times[j],
        forall|i: int, j: int|
            0 <= i && j < times.len() && j - i >= max_rps ==> #[trigger] times[j]
                - #[trigger] times[i] >= 1_000_000_000,
    ensures
        accepted(Some(state), max_rps, times.skip(n)) == times.len() - n,
    decreases times.len() - n,
{
    let rest = times.skip(n);
    if n < times.len() {
        let (next, ok) = step(Some(state), max_rps, rest[0]);
        assert(rest[0] == times[n]);
        assert(rest.drop_first() == times.skip(n + 1));
        if times[n] - times[k] >= 1_000_000_000 {
            moderate_requests_are_served(next, max_rps, times, n, n + 1);
        } else {
            assert(n - k < max_rps);
            moderate_requests_are_served(next, max_rps, times, k, n + 1);
        }
    }
}

/// A request that comes when the limit of its second is used up is refused and not
/// counted; one that is accepted is counted.
pub proof fn refused_requests_are_not_counted(state: (u32, u64, u64), max_rps: u32, now: u64)
    requires
        now - state.1 < 1_000_000_000,
    ensures
        step(Some(state), max_rps, now).1 == (state.0 < max_rps),
        step(Some(state), max_rps, now).0.0 == state.0 + if state.0 < max_rps {
            1int
        } else {
            0
        },
        step(Some(state), max_rps, now).0.1 == state.1,
{
}

/// Without a limit every request is accepted and nothing is recorded; with one, only
/// the record of the address changes, and says when it was last seen.
pub proof fn requests_change_their_own_record(
    records: Map<IpAddr, (u32, u64, u64)>,
    ip: IpAddr,
    max_rps: u32,
    now: u64,
    other: IpAddr,
)
    requires
        other != ip,
    ensures
        checked(records, ip, 0, now) == (records, true),
        record(checked(records, ip, max_rps, now).0, other) == record(records, other),
        max_rps > 0 ==> checked(records, ip, max_rps, now).0.contains_key(ip) && checked(
            records,
            ip,
            max_rps,
            now,
        ).0[ip].2 == now,
        checked(records, ip, max_rps, now).1 == (max_rps == 0 || step(
            record(records, ip),
            max_rps,
            now,
        ).1),
{
}

/// A cleanup keeps the records of addresses that were seen less than ten seconds ago, as
/// they are, and no others.
pub proof fn cleanup_keeps_recent_records(
    records: Map<IpAddr, (u32, u64, u64)>,
    ip: IpAddr,
    now: u64,
)
    ensures
        recent_entries(records, now).contains_key(ip) <==> records.contains_key(ip) && now
            - records[ip].2 < 10_000_000_000,
        recent_entries(records, now).contains_key(ip) ==> recent_entries(records, now)[ip]
            == records[ip],
{
}

/// A request of an address that is new, or whose counting began at least a second before,
/// is accepted and counted as the first; any other is accepted while its address has been
/// counted less often than the limit, and counted if it is. Only the record of its address
/// changes, and without a limit nothing does.
pub proof fn checks_count_by_the_second(
    limiter: &mut RateLimiter,
    ip: IpAddr,
    config: Config,
    now: u64,
    r: bool,
    other: IpAddr,
)
    requires
        call_ensures(RateLimiter::check, (limiter, ip, &config, now), r),
        other != ip,
    ensures
        config.limit.max_rps == 0 ==> r && final(limiter)@ == old(limiter)@,
        config.limit.max_rps > 0 && (!old(limiter)@.contains_key(ip) || now - old(limiter)@[ip].1
            >= 1_000_000_000) ==> r && final(limiter)@.contains_key(ip) && final(limiter)@[ip] == (
            1u32,
            now,
            now,
        ),
        config.limit.max_rps > 0 && old(limiter)@.contains_key(ip) && now - old(limiter)@[ip].1
            < 1_000_000_000 ==> {
            &&& r == (old(limiter)@[ip].0 < config.limit.max_rps)
            &&& final(limiter)@.contains_key(ip)
            &&& final(limiter)@[ip].0 == old(limiter)@[ip].0 + if r {
                1int
            } else {
                0
            }
            &&& final(limiter)@[ip].1 == old(limiter)@[ip].1
            &&& final(limiter)@[ip].2 == now
        },
        record(final(limiter)@, other) == record(old(limiter)@, other),
{
}

/// A cleanup leaves the records of the addresses that were seen less than ten seconds ago.
pub proof fn cleanups_leave_recent_records(limiter: &mut RateLimiter, now: u64, ip: IpAddr)
    requires
        call_ensures(RateLimiter::remove_inactive, (limiter, now), ()),
    ensures
        final(limiter)@.contains_key(ip) <==> old(limiter)@.contains_key(ip) && now
            - old(limiter)@[ip].2 < 10_000_000_000,
        final(limiter)@.contains_key(ip) ==> final(limiter)@[ip] == old(limiter)@[ip],
{
}

/// Nothing is counted at first, and records are cleaned up every minute.
pub proof fn nothing_is_counted_at_first(limiter: RateLimiter, ip: IpAddr)
    requires
        call_ensures(RateLimiter::new, (), limiter),
    ensures
        record(limiter@, ip) is None,
        CLEANUP_SECONDS == 60,
{
}

} // verus!
