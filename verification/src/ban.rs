//! Temporary bans of addresses.
//!
//! Time is counted in nanoseconds from a fixed instant of the process.
use crate::config::{BanConfig, Config};
use crate::net::IpAddr;
use std::collections::HashMap;
use vstd::prelude::*;

verus! {

broadcast use vstd::std_specs::hash::group_hash_axioms;

/// Nanoseconds in a second.
pub const NANOS_PER_SECOND: u64 = 1_000_000_000;

/// Seconds between two cleanups of expired entries.
pub const CLEANUP_SECONDS: u64 = 60;

/// Types of security violations that can trigger an IP ban.
#[derive(Debug, Clone, Copy, PartialEq, Eq, Structural)]
pub enum Violation {
    Timeout,
    Protocol,
    Waf,
    RateLimit,
}

/// How many seconds a violation is punished with.
pub open spec fn ban_seconds(violation: Violation, config: BanConfig) -> u64 {
    match violation {
        Violation::Timeout => config.ban_timeout,
        Violation::Protocol => config.ban_protocol,
        Violation::Waf => config.ban_waf,
        Violation::RateLimit => config.ban_rate_limit,
    }
}

/// When a ban of `seconds` that begins at `now` ends.
pub open spec fn expiry(now: u64, seconds: u64) -> u128 {
    (now + seconds * NANOS_PER_SECOND) as u128
}

/// The bans after an address was punished for a violation.
pub open spec fn punished(
    bans: Map<IpAddr, u128>,
    ip: IpAddr,
    violation: Violation,
    config: BanConfig,
    now: u64,
) -> Map<IpAddr, u128> {
    let seconds = ban_seconds(violation, config);
    if seconds > 0 {
        bans.insert(ip, expiry(now, seconds))
    } else {
        bans
    }
}

/// Whether an address is banned at `now`.
pub open spec fn is_banned(bans: Map<IpAddr, u128>, ip: IpAddr, now: u64) -> bool {
    bans.contains_key(ip) && now <= bans[ip]
}

/// The bans after a check of `ip`, which drops its entry if that has expired.
pub open spec fn after_check(bans: Map<IpAddr, u128>, ip: IpAddr, now: u64) -> Map<IpAddr, u128> {
    if bans.contains_key(ip) && now > bans[ip] {
        bans.remove(ip)
    } else {
        bans
    }
}

/// The entries whose value is beyond `now`.
pub open spec fn unexpired<K>(entries: Map<K, u128>, now: u64) -> Map<K, u128> {
    entries.restrict(Set::new(|k: K| entries.contains_key(k) && entries[k] > now))
}

/// Global manager for temporary IP bans: for each banned address, when its ban
/// ends.
pub struct BanManager {
    v4: HashMap<u32, u128>,
    v6: HashMap<u128, u128>,
}

impl View for BanManager {
    type V = Map<IpAddr, u128>;

    closed spec fn view(&self) -> Map<IpAddr, u128> {
        Map::new(
            |ip: IpAddr|
                match ip {
                    IpAddr::V4(bits) => self.v4@.contains_key(bits),
                    IpAddr::V6(bits) => self.v6@.contains_key(bits),
                },
            |ip: IpAddr|
                match ip {
                    IpAddr::V4(bits) => self.v4@[bits],
                    IpAddr::V6(bits) => self.v6@[bits],
                },
        )
    }
}

/// Drops the entries of a table that are not beyond `now`.
fn sweep<K: Copy + Eq + std::hash::Hash>(table: &mut HashMap<K, u128>, now: u64)
    requires
        vstd::std_specs::hash::obeys_key_model::<K>(),
    ensures
        final(table)@ == unexpired(old(table)@, now),
{
    let ghost before = table@;
    let mut expired: Vec<K> = Vec::new();
    for key in it: table.keys()
        invariant
            vstd::std_specs::hash::obeys_key_model::<K>(),
            before == table@,
            it.seq().unref().to_set() == before.dom(),
            forall|j: int|
                0 <= j < expired@.len() ==> before.contains_key(#[trigger] expired@[j])
                    && before[expired@[j]] <= now,
            forall|i: int|
                0 <= i < it.index() && before[*#[trigger] it.seq()[i]] <= now
                    ==> expired@.contains(*it.seq()[i]),
    {
        let ghost listed = expired@;
        let ghost i = it.index();
        assert(it.seq().unref()[i] == *key);
        assert(it.seq().unref().to_set().contains(*key));
        if let Some(expire_at) = table.get(key) {
            if *expire_at <= now as u128 {
                expired.push(*key);
                assert(expired@.last() == *key);
                assert forall|k: K| listed.contains(k) implies expired@.contains(k) by {
                    let j = choose|j: int| 0 <= j < listed.len() && listed[j] == k;
                    assert(expired@[j] == k);
                }
            }
        }
    }
    assert forall|k: K| before.contains_key(k) && before[k] <= now implies expired@.contains(k) by {
        assert(before.dom().contains(k));
    }
    let mut i: usize = 0;
    while i < expired.len()
        invariant
            vstd::std_specs::hash::obeys_key_model::<K>(),
            i <= expired@.len(),
            table@ == before.remove_keys(expired@.take(i as int).to_set()),
        decreases expired@.len() - i,
    {
        let ghost done = expired@.take(i as int);
        table.remove(&expired[i]);
        assert(expired@.take(i + 1) == done.push(expired@[i as int]));
        assert(done.push(expired@[i as int]).to_set() == done.to_set().insert(expired@[i as int]))
            by {
            broadcast use vstd::seq_lib::group_seq_properties;

        }
        i += 1;
    }
    assert(expired@.take(i as int) == expired@);
    assert(table@ == unexpired(before, now));
}

impl BanManager {
    pub fn new() -> (r: Self)
        ensures
            r@ == Map::<IpAddr, u128>::empty(),
    {
        let r = BanManager { v4: HashMap::new(), v6: HashMap::new() };
        assert(r@ == Map::<IpAddr, u128>::empty());
        r
    }

    /// Removes expired ban entries from memory.
    pub fn remove_expired(&mut self, now: u64)
        ensures
            final(self)@ == unexpired(old(self)@, now),
    {
        let ghost before = self@;
        sweep(&mut self.v4, now);
        sweep(&mut self.v6, now);
        assert(self@ == unexpired(before, now));
    }

    /// Bans an address for a duration in nanoseconds.
    pub fn ban(&mut self, ip: IpAddr, duration: u128, now: u64)
        requires
            now + duration <= u128::MAX,
        ensures
            final(self)@ == old(self)@.insert(ip, (now + duration) as u128),
    {
        let ghost before = self@;
        let expire_at: u128 = now as u128 + duration;
        match ip {
            IpAddr::V4(bits) => {
                self.v4.insert(bits, expire_at);
            },
            IpAddr::V6(bits) => {
                self.v6.insert(bits, expire_at);
            },
        }
        assert(self@ == before.insert(ip, (now + duration) as u128));
    }

    /// Punishes an IP by banning it for the duration that the configuration gives
    /// for the type of violation.
    pub fn punish(&mut self, ip: IpAddr, violation: Violation, config: &Config, now: u64)
        ensures
            final(self)@ == punished(old(self)@, ip, violation, config.ban, now),
    {
        let seconds = match violation {
            Violation::Timeout => config.ban.ban_timeout,
            Violation::Protocol => config.ban.ban_protocol,
            Violation::Waf => config.ban.ban_waf,
            Violation::RateLimit => config.ban.ban_rate_limit,
        };
        if seconds > 0 {
            assert(seconds * NANOS_PER_SECOND <= 0xffff_ffff_ffff_ffff * 1_000_000_000);
            self.ban(ip, seconds as u128 * NANOS_PER_SECOND as u128, now);
        }
    }

    /// When the ban of an address ends.
    fn expiry_of(&self, ip: IpAddr) -> (r: Option<u128>)
        ensures
            r is Some == self@.contains_key(ip),
            r matches Some(expire_at) ==> expire_at == self@[ip],
    {
        let entry = match ip {
            IpAddr::V4(bits) => self.v4.get(&bits),
            IpAddr::V6(bits) => self.v6.get(&bits),
        };
        match entry {
            Some(expire_at) => Some(*expire_at),
            None => None,
        }
    }

    /// Checks if an IP is currently banned. Handles lazy cleanup of expired
    /// entries.
    pub fn check(&mut self, ip: IpAddr, now: u64) -> (r: bool)
        ensures
            r == is_banned(old(self)@, ip, now),
            final(self)@ == after_check(old(self)@, ip, now),
    {
        let ghost before = self@;
        match self.expiry_of(ip) {
            Some(expire_at) => if now as u128 <= expire_at {
                true
            } else {
                match ip {
                    IpAddr::V4(bits) => {
                        self.v4.remove(&bits);
                    },
                    IpAddr::V6(bits) => {
                        self.v6.remove(&bits);
                    },
                }
                assert(self@ == before.remove(ip));
                false
            },
            None => false,
        }
    }
}

/// A punished address is banned for exactly the configured time: at every moment
/// up to the end of the ban, and at no later one. No other address is affected.
pub proof fn punishment_lasts_as_configured(
    bans: Map<IpAddr, u128>,
    ip: IpAddr,
    violation: Violation,
    config: BanConfig,
    now: u64,
    later: u64,
    other: IpAddr,
)
    requires
        ban_seconds(violation, config) > 0,
        now <= later,
    ensures
        is_banned(punished(bans, ip, violation, config, now), ip, later) <==> later - now
            <= ban_seconds(violation, config) * NANOS_PER_SECOND,
        other != ip ==> is_banned(punished(bans, ip, violation, config, now), other, later)
            == is_banned(bans, other, later),
{
}

/// A violation whose configured ban is zero leaves all bans as they are.
pub proof fn zero_duration_bans_nobody(
    bans: Map<IpAddr, u128>,
    ip: IpAddr,
    violation: Violation,
    config: BanConfig,
    now: u64,
)
    requires
        ban_seconds(violation, config) == 0,
    ensures
        punished(bans, ip, violation, config, now) == bans,
{
}

/// The lazy cleanup of a check changes no answer from then on.
pub proof fn lazy_cleanup_is_unobservable(
    bans: Map<IpAddr, u128>,
    checked: IpAddr,
    now: u64,
    ip: IpAddr,
    later: u64,
)
    requires
        now <= later,
    ensures
        is_banned(after_check(bans, checked, now), ip, later) == is_banned(bans, ip, later),
{
}

/// The periodic cleanup changes no answer at any later moment.
pub proof fn periodic_cleanup_is_unobservable(
    bans: Map<IpAddr, u128>,
    now: u64,
    ip: IpAddr,
    later: u64,
)
    requires
        now < later,
    ensures
        is_banned(unexpired(bans, now), ip, later) == is_banned(bans, ip, later),
{
}

/// Each kind of violation is punished with its own time: an address is banned up to and
/// at its end and no longer, and not at all where the time is zero and it was not banned.
pub proof fn each_violation_has_its_time(
    bans: Map<IpAddr, u128>,
    ip: IpAddr,
    config: BanConfig,
    now: u64,
    later: u64,
)
    requires
        !bans.contains_key(ip),
        now <= later,
    ensures
        is_banned(punished(bans, ip, Violation::Timeout, config, now), ip, later) <==> 0
            < config.ban_timeout && later - now <= config.ban_timeout * 1_000_000_000,
        is_banned(punished(bans, ip, Violation::Protocol, config, now), ip, later) <==> 0
            < config.ban_protocol && later - now <= config.ban_protocol * 1_000_000_000,
        is_banned(punished(bans, ip, Violation::Waf, config, now), ip, later) <==> 0
            < config.ban_waf && later - now <= config.ban_waf * 1_000_000_000,
        is_banned(punished(bans, ip, Violation::RateLimit, config, now), ip, later) <==> 0
            < config.ban_rate_limit && later - now <= config.ban_rate_limit * 1_000_000_000,
{
}

/// A further violation counts from its own moment: the ban ends when its own time is
/// over, whatever end an earlier one had.
pub proof fn later_violations_count_anew(
    bans: Map<IpAddr, u128>,
    ip: IpAddr,
    violation: Violation,
    config: BanConfig,
    now: u64,
)
    requires
        ban_seconds(violation, config) > 0,
    ensures
        punished(bans, ip, violation, config, now).contains_key(ip),
        punished(bans, ip, violation, config, now)[ip] == now + ban_seconds(violation, config)
            * 1_000_000_000,
{
    assert(now + ban_seconds(violation, config) * NANOS_PER_SECOND <= u128::MAX);
}

/// A cleanup drops the bans that have ended and keeps every other as it is; a check
/// drops at most the ban of the address that it asks for, and only once it is over.
pub proof fn cleanups_drop_what_has_ended(
    bans: Map<IpAddr, u128>,
    checked: IpAddr,
    ip: IpAddr,
    now: u64,
)
    ensures
        unexpired(bans, now).contains_key(ip) <==> bans.contains_key(ip) && bans[ip] > now,
        unexpired(bans, now).contains_key(ip) ==> unexpired(bans, now)[ip] == bans[ip],
        after_check(bans, checked, now).contains_key(ip) <==> bans.contains_key(ip) && (ip
            != checked || now <= bans[ip]),
        after_check(bans, checked, now).contains_key(ip) ==> after_check(bans, checked, now)[ip]
            == bans[ip],
{
}

/// Punishing an address bans it from now on for the time of its violation, in place of an
/// earlier ban, unless that time is zero; no other address is touched.
pub proof fn punishing_bans_for_the_time_of_the_violation(
    bans: &mut BanManager,
    ip: IpAddr,
    violation: Violation,
    config: Config,
    now: u64,
    seconds: u64,
)
    requires
        call_ensures(BanManager::punish, (bans, ip, violation, &config, now), ()),
        seconds == match violation {
            Violation::Timeout => config.ban.ban_timeout,
            Violation::Protocol => config.ban.ban_protocol,
            Violation::Waf => config.ban.ban_waf,
            Violation::RateLimit => config.ban.ban_rate_limit,
        },
    ensures
        seconds == 0 ==> final(bans)@ == old(bans)@,
        seconds > 0 ==> final(bans)@ == old(bans)@.insert(
            ip,
            (now + seconds * 1_000_000_000) as u128,
        ),
{
}

/// A check says whether the ban of an address is still running, and forgets it once it is
/// over; it changes no other ban.
pub proof fn checks_tell_running_bans(
    bans: &mut BanManager,
    ip: IpAddr,
    now: u64,
    r: bool,
    other: IpAddr,
)
    requires
        call_ensures(BanManager::check, (bans, ip, now), r),
    ensures
        r == (old(bans)@.contains_key(ip) && now <= old(bans)@[ip]),
        final(bans)@.contains_key(other) <==> old(bans)@.contains_key(other) && (other != ip || r),
        final(bans)@.contains_key(other) ==> final(bans)@[other] == old(bans)@[other],
{
}

/// A cleanup forgets the bans that are over, and no other.
pub proof fn cleanups_forget_what_is_over(bans: &mut BanManager, now: u64, ip: IpAddr)
    requires
        call_ensures(BanManager::remove_expired, (bans, now), ()),
    ensures
        final(bans)@.contains_key(ip) <==> old(bans)@.contains_key(ip) && now < old(bans)@[ip],
        final(bans)@.contains_key(ip) ==> final(bans)@[ip] == old(bans)@[ip],
{
}

/// A ban lasts for its duration from now on, and touches no other address.
pub proof fn bans_last_for_their_duration(
    bans: &mut BanManager,
    ip: IpAddr,
    duration: u128,
    now: u64,
)
    requires
        now + duration <= u128::MAX,
        call_ensures(BanManager::ban, (bans, ip, duration, now), ()),
    ensures
        final(bans)@ == old(bans)@.insert(ip, (now + duration) as u128),
{
}

/// Nobody is banned at first, and what is over is forgotten every minute.
pub proof fn nobody_is_banned_at_first(bans: BanManager, ip: IpAddr, now: u64)
    requires
        call_ensures(BanManager::new, (), bans),
    ensures
        !is_banned(bans@, ip, now),
        CLEANUP_SECONDS == 60,
{
}

} // verus!
