//! The choice of an upstream server.
use crate::health::HealthManager;
use vstd::prelude::*;

verus! {

broadcast use vstd::string::group_string_axioms;

/// The place that is tried as the `i`-th, in a list of `len`, for a turn of the
/// counter. The sum wraps around as the counter itself does.
pub open spec fn slot(turn: usize, i: int, len: int) -> int {
    ((turn + i) % (usize::MAX + 1)) % len
}

/// The first healthy upstream from the `i`-th try on.
pub open spec fn picked(
    upstreams: Seq<String>,
    statuses: Map<Seq<char>, bool>,
    turn: usize,
    i: int,
) -> Option<Seq<char>>
    decreases upstreams.len() - i,
{
    if i >= upstreams.len() {
        None
    } else {
        let addr = upstreams[slot(turn, i, upstreams.len() as int)]@;
        if crate::health::healthy(statuses, addr) {
            Some(addr)
        } else {
            picked(upstreams, statuses, turn, i + 1)
        }
    }
}

/// Whether a choice is the one for a turn of the counter.
pub open spec fn picks(
    choice: Option<String>,
    upstreams: Seq<String>,
    statuses: Map<Seq<char>, bool>,
    turn: usize,
) -> bool {
    match choice {
        Some(addr) => picked(upstreams, statuses, turn, 0) == Some(addr@),
        None => picked(upstreams, statuses, turn, 0) is None,
    }
}

/// The wrapping sum is the sum modulo the number of values.
proof fn sum_wraps(turn: usize, i: usize)
    ensures
        turn.wrapping_add(i) == (turn + i) % (usize::MAX + 1),
{
    let n = usize::MAX + 1;
    if turn + i < n {
        vstd::arithmetic::div_mod::lemma_small_mod((turn + i) as nat, n as nat);
    } else {
        vstd::arithmetic::div_mod::lemma_fundamental_div_mod_converse(
            turn + i,
            n,
            1,
            turn + i - n,
        );
    }
}

/// Selects the first healthy upstream address from a turn of the counter on.
pub fn select_from(upstreams: &Vec<String>, turn: usize, health_manager: &HealthManager) -> (r:
    Option<String>)
    ensures
        picks(r, upstreams@, health_manager@, turn),
{
    let len: usize = upstreams.len();
    let mut i: usize = 0;
    while i < len
        invariant
            len == upstreams@.len(),
            i <= len,
            picked(upstreams@, health_manager@, turn, 0) == picked(
                upstreams@,
                health_manager@,
                turn,
                i as int,
            ),
        decreases len - i,
    {
        let idx: usize = turn.wrapping_add(i) % len;
        proof {
            sum_wraps(turn, i);
        }
        assert(idx == slot(turn, i as int, len as int));
        let addr = &upstreams[idx];
        // Only return if marked healthy by Active Health Check
        if health_manager.is_healthy(addr.as_str()) {
            return Some(addr.clone());
        }
        i += 1;
    }
    None
}

/// [Load Balancer]
/// Selects the next healthy upstream address using a Round-Robin counter.
pub fn select_upstream(
    upstreams: &Vec<String>,
    counter: &mut usize,
    health_manager: &HealthManager,
) -> (r: Option<String>)
    ensures
        picks(r, upstreams@, health_manager@, *old(counter)),
        *final(counter) == (*old(counter)).wrapping_add(1),
{
    let turn: usize = *counter;
    *counter = turn.wrapping_add(1);
    select_from(upstreams, turn, health_manager)
}

/// Whether no try of a turn wraps around.
pub open spec fn no_wrap(turn: usize, len: nat) -> bool {
    turn + len <= usize::MAX + 1
}

/// Only configured upstreams that are healthy are chosen.
pub proof fn choice_is_healthy(
    upstreams: Seq<String>,
    statuses: Map<Seq<char>, bool>,
    turn: usize,
    i: int,
)
    requires
        0 <= i,
    ensures
        picked(upstreams, statuses, turn, i) matches Some(addr) ==> crate::health::healthy(
            statuses,
            addr,
        ) && crate::health::addr_texts(upstreams).contains(addr),
    decreases upstreams.len() - i,
{
    if i < upstreams.len() {
        let k = slot(turn, i, upstreams.len() as int);
        assert(0 <= k < upstreams.len()) by (nonlinear_arith)
            requires
                k == ((turn + i) % (usize::MAX + 1)) % (upstreams.len() as int),
                upstreams.len() > 0,
        ;
        if crate::health::healthy(statuses, upstreams[k]@) {
            assert(crate::health::addr_texts(upstreams)[k] == upstreams[k]@);
        } else {
            choice_is_healthy(upstreams, statuses, turn, i + 1);
        }
    }
}

/// A try that finds a healthy upstream ends the search with some upstream.
proof fn try_is_found(
    upstreams: Seq<String>,
    statuses: Map<Seq<char>, bool>,
    turn: usize,
    i: int,
    k: int,
)
    requires
        0 <= i <= k < upstreams.len(),
        crate::health::healthy(statuses, upstreams[slot(turn, k, upstreams.len() as int)]@),
    ensures
        picked(upstreams, statuses, turn, i) is Some,
    decreases k - i,
{
    if i < k && !crate::health::healthy(
        statuses,
        upstreams[slot(turn, i, upstreams.len() as int)]@,
    ) {
        try_is_found(upstreams, statuses, turn, i + 1, k);
    }
}

/// Without a wrap-around, `len` tries in a row reach every place once.
proof fn every_slot_is_tried(turn: usize, len: nat, j: int) -> (k: int)
    requires
        no_wrap(turn, len),
        0 <= j < len,
    ensures
        0 <= k < len,
        slot(turn, k, len as int) == j,
{
    let t = turn as int;
    let m = len as int;
    let k = (j - t % m + m) % m;
    assert(0 <= k < m) by (nonlinear_arith)
        requires
            m > 0,
            k == (j - t % m + m) % m,
    ;
    assert((t + k) % m == j) by (nonlinear_arith)
        requires
            m > 0,
            t >= 0,
            0 <= j < m,
            k == (j - t % m + m) % m,
    {
        vstd::arithmetic::div_mod::lemma_mod_bound(t, m);
        vstd::arithmetic::div_mod::lemma_fundamental_div_mod(t, m);
        let r = t % m;
        if j >= r {
            assert(j - r + m == m * 1 + (j - r));
            vstd::arithmetic::div_mod::lemma_fundamental_div_mod_converse(j - r + m, m, 1, j - r);
            assert(t + k == m * (t / m) + j);
            vstd::arithmetic::div_mod::lemma_fundamental_div_mod_converse(t + k, m, t / m, j);
        } else {
            vstd::arithmetic::div_mod::lemma_small_mod((j - r + m) as nat, m as nat);
            assert(t + k == m * (t / m + 1) + j);
            vstd::arithmetic::div_mod::lemma_fundamental_div_mod_converse(
                t + k,
                m,
                t / m + 1,
                j,
            );
        }
    }
    vstd::arithmetic::div_mod::lemma_small_mod((t + k) as nat, (usize::MAX + 1) as nat);
    k
}

/// An upstream is found if and only if one is healthy, at every turn at which the
/// counter is not about to wrap around.
pub proof fn healthy_upstream_is_found(
    upstreams: Seq<String>,
    statuses: Map<Seq<char>, bool>,
    turn: usize,
)
    requires
        no_wrap(turn, upstreams.len()),
    ensures
        picked(upstreams, statuses, turn, 0) is Some <==> exists|j: int|
            0 <= j < upstreams.len() && crate::health::healthy(
                statuses,
                (#[trigger] upstreams[j])@,
            ),
{
    if picked(upstreams, statuses, turn, 0) is Some {
        choice_is_healthy(upstreams, statuses, turn, 0);
        let addr = picked(upstreams, statuses, turn, 0)->0;
        let texts = crate::health::addr_texts(upstreams);
        let j = choose|j: int| 0 <= j < texts.len() && texts[j] == addr;
        assert(upstreams[j]@ == addr);
    }
    if exists|j: int|
        0 <= j < upstreams.len() && crate::health::healthy(statuses, (#[trigger] upstreams[j])@) {
        let j = choose|j: int|
            0 <= j < upstreams.len() && crate::health::healthy(
                statuses,
                (#[trigger] upstreams[j])@,
            );
        let k = every_slot_is_tried(turn, upstreams.len(), j);
        try_is_found(upstreams, statuses, turn, 0, k);
    }
}

/// Whether choices are those of calls in a row that share a counter: each is picked
/// at the counter's value before its call, which moves the counter on by one.
pub open spec fn calls_in_a_row(
    upstreams: Seq<String>,
    statuses: Map<Seq<char>, bool>,
    counters: Seq<usize>,
    choices: Seq<Option<String>>,
) -> bool {
    &&& counters.len() == choices.len() + 1
    &&& forall|k: int|
        0 <= k < choices.len() ==> picks(
            #[trigger] choices[k],
            upstreams,
            statuses,
            counters[k],
        ) && counters[k + 1] == counters[k].wrapping_add(1)
}

/// Whether a place comes up within as many turns as there are places.
pub open spec fn comes_up(turn: usize, len: int, j: int) -> bool {
    exists|k: int| 0 <= k < len && #[trigger] slot(turn, k, len) == j
}

/// The counter of the `k`-th call in a row.
proof fn counter_after(
    upstreams: Seq<String>,
    statuses: Map<Seq<char>, bool>,
    counters: Seq<usize>,
    choices: Seq<Option<String>>,
    k: int,
)
    requires
        calls_in_a_row(upstreams, statuses, counters, choices),
        0 <= k <= choices.len(),
        counters[0] + k <= usize::MAX,
    ensures
        counters[k] == counters[0] + k,
    decreases k,
{
    if k > 0 {
        counter_after(upstreams, statuses, counters, choices, k - 1);
        assert(picks(choices[k - 1], upstreams, statuses, counters[k - 1]));
    }
}

/// The rotation is fair: while all upstreams are healthy, the `k`-th of calls in a
/// row chooses the upstream `k` places on from where the counter stood, and as many
/// calls as there are upstreams choose each place exactly once.
pub proof fn rotation_is_fair(
    upstreams: Seq<String>,
    statuses: Map<Seq<char>, bool>,
    counters: Seq<usize>,
    choices: Seq<Option<String>>,
)
    requires
        upstreams.len() > 0,
        choices.len() == upstreams.len(),
        calls_in_a_row(upstreams, statuses, counters, choices),
        no_wrap(counters[0], upstreams.len()),
        forall|i: int|
            0 <= i < upstreams.len() ==> crate::health::healthy(
                statuses,
                (#[trigger] upstreams[i])@,
            ),
    ensures
        forall|k: int|
            0 <= k < choices.len() ==> (#[trigger] choices[k] matches Some(addr) && addr@
                == upstreams[slot(counters[0], k, upstreams.len() as int)]@),
        forall|j: int|
            0 <= j < upstreams.len() ==> #[trigger] comes_up(
                counters[0],
                upstreams.len() as int,
                j,
            ),
        forall|k: int, l: int|
            0 <= k < l < choices.len() ==> #[trigger] slot(counters[0], k, upstreams.len() as int)
                != #[trigger] slot(counters[0], l, upstreams.len() as int),
{
    let n = upstreams.len() as int;
    let c = counters[0];
    assert forall|k: int| 0 <= k < choices.len() implies (#[trigger] choices[k] matches Some(addr)
        && addr@ == upstreams[slot(c, k, n)]@) by {
        counter_after(upstreams, statuses, counters, choices, k);
        assert(picks(choices[k], upstreams, statuses, counters[k]));
        slot_in_range(c, k, n);
        vstd::arithmetic::div_mod::lemma_small_mod((c + k) as nat, (usize::MAX + 1) as nat);
        assert(slot(counters[k], 0, n) == slot(c, k, n));
        assert(crate::health::healthy(statuses, upstreams[slot(c, k, n)]@));
    }
    assert forall|j: int| 0 <= j < n implies #[trigger] comes_up(c, n, j) by {
        let k = every_slot_is_tried(c, upstreams.len(), j);
        assert(slot(c, k, n) == j);
    }
    assert forall|k: int, l: int| 0 <= k < l < choices.len() implies #[trigger] slot(c, k, n)
        != #[trigger] slot(c, l, n) by {
        slots_differ(c, k, l, n);
    }
}

/// A slot is a place of the list.
proof fn slot_in_range(turn: usize, i: int, len: int)
    requires
        len > 0,
    ensures
        0 <= slot(turn, i, len) < len,
{
    let sum = (turn + i) % (usize::MAX + 1);
    vstd::arithmetic::div_mod::lemma_mod_bound(sum, len);
}

/// Without a wrap-around, fewer than `len` tries apart the slots differ.
proof fn slots_differ(turn: usize, k: int, l: int, len: int)
    requires
        0 <= k < l < len,
        no_wrap(turn, len as nat),
    ensures
        slot(turn, k, len) != slot(turn, l, len),
{
    let a = turn + k;
    let b = turn + l;
    vstd::arithmetic::div_mod::lemma_small_mod(a as nat, (usize::MAX + 1) as nat);
    vstd::arithmetic::div_mod::lemma_small_mod(b as nat, (usize::MAX + 1) as nat);
    vstd::arithmetic::div_mod::lemma_fundamental_div_mod(a, len);
    vstd::arithmetic::div_mod::lemma_fundamental_div_mod(b, len);
    if a % len == b % len {
        assert(len * (b / len - a / len) == b - a) by (nonlinear_arith)
            requires
                a == len * (a / len) + a % len,
                b == len * (b / len) + b % len,
                a % len == b % len,
        ;
        assert(b / len - a / len != 0);
        assert(len * (b / len - a / len) >= len || len * (b / len - a / len) <= -len)
            by (nonlinear_arith)
            requires
                len > 0,
                b / len - a / len != 0,
        ;
    }
}

/// While the counter does not wrap around, the tries of a turn begin at the place that the
/// counter points to and go on one place at a time, from the last to the first.
pub proof fn tries_go_round(turn: usize, i: int, len: int)
    requires
        0 <= i < len,
        turn + len <= usize::MAX,
    ensures
        slot(turn, i, len) == (turn + i) % len,
        slot(turn, 0, len) == turn as int % len,
        i + 1 < len ==> slot(turn, i + 1, len) == if slot(turn, i, len) + 1 == len {
            0
        } else {
            slot(turn, i, len) + 1
        },
{
    vstd::arithmetic::div_mod::lemma_small_mod((turn + i) as nat, (usize::MAX + 1) as nat);
    vstd::arithmetic::div_mod::lemma_small_mod(turn as nat, (usize::MAX + 1) as nat);
    if i + 1 < len {
        let s = turn + i;
        vstd::arithmetic::div_mod::lemma_small_mod((s + 1) as nat, (usize::MAX + 1) as nat);
        vstd::arithmetic::div_mod::lemma_fundamental_div_mod(s, len);
        let q = s / len;
        let r = s % len;
        if r + 1 == len {
            assert((q + 1) * len == len * q + len) by (nonlinear_arith);
            vstd::arithmetic::div_mod::lemma_fundamental_div_mod_converse(s + 1, len, q + 1, 0);
        } else {
            assert(q * len == len * q) by (nonlinear_arith);
            vstd::arithmetic::div_mod::lemma_fundamental_div_mod_converse(s + 1, len, q, r + 1);
        }
    }
}

/// The upstream server that is chosen is the first healthy one of the turn's tries: all
/// that were tried before it are not healthy; and none is chosen only where no try finds a
/// healthy one.
pub proof fn first_healthy_try_is_chosen(
    upstreams: Seq<String>,
    statuses: Map<Seq<char>, bool>,
    turn: usize,
    k: int,
)
    requires
        0 <= k < upstreams.len(),
        crate::health::healthy(statuses, upstreams[slot(turn, k, upstreams.len() as int)]@),
        forall|i: int|
            0 <= i < k ==> !crate::health::healthy(
                statuses,
                upstreams[#[trigger] slot(turn, i, upstreams.len() as int)]@,
            ),
    ensures
        picked(upstreams, statuses, turn, 0) == Some(
            upstreams[slot(turn, k, upstreams.len() as int)]@,
        ),
{
    chosen_from(upstreams, statuses, turn, 0, k);
}

proof fn chosen_from(
    upstreams: Seq<String>,
    statuses: Map<Seq<char>, bool>,
    turn: usize,
    from: int,
    k: int,
)
    requires
        0 <= from <= k < upstreams.len(),
        crate::health::healthy(statuses, upstreams[slot(turn, k, upstreams.len() as int)]@),
        forall|i: int|
            0 <= i < k ==> !crate::health::healthy(
                statuses,
                upstreams[#[trigger] slot(turn, i, upstreams.len() as int)]@,
            ),
    ensures
        picked(upstreams, statuses, turn, from) == Some(
            upstreams[slot(turn, k, upstreams.len() as int)]@,
        ),
    decreases k - from,
{
    if from < k {
        assert(!crate::health::healthy(
            statuses,
            upstreams[slot(turn, from, upstreams.len() as int)]@,
        ));
        chosen_from(upstreams, statuses, turn, from + 1, k);
    }
}

/// A call chooses a healthy upstream server of the list whenever there is one, moves the
/// counter on by one, and chooses the one that the counter points to if that is healthy.
pub proof fn calls_choose_healthy_upstreams(
    upstreams: Vec<String>,
    counter: &mut usize,
    health: HealthManager,
    r: Option<String>,
)
    requires
        call_ensures(select_upstream, (&upstreams, counter, &health), r),
        *old(counter) + upstreams@.len() <= usize::MAX,
    ensures
        *final(counter) == *old(counter) + 1 || upstreams@.len() == 0,
        r matches Some(addr) ==> crate::health::healthy(health@, addr@)
            && crate::health::addr_texts(upstreams@).contains(addr@),
        r is Some <==> exists|j: int|
            0 <= j < upstreams@.len() && crate::health::healthy(
                health@,
                (#[trigger] upstreams@[j])@,
            ),
        upstreams@.len() > 0 && crate::health::healthy(
            health@,
            upstreams@[*old(counter) as int % upstreams@.len() as int]@,
        ) ==> (r matches Some(addr) && addr@ == upstreams@[*old(counter) as int
            % upstreams@.len() as int]@),
{
    let turn = *old(counter);
    healthy_upstream_is_found(upstreams@, health@, turn);
    choice_is_healthy(upstreams@, health@, turn, 0);
    if upstreams@.len() > 0 {
        tries_go_round(turn, 0, upstreams@.len() as int);
    }
}

/// A sum beyond the largest number goes on from zero, as the counter does.
pub proof fn tries_wrap_with_the_counter(turn: usize, i: int, len: int)
    requires
        0 <= i < len <= usize::MAX,
        turn + i > usize::MAX,
    ensures
        slot(turn, i, len) == (turn + i - usize::MAX - 1) % len,
{
    vstd::arithmetic::div_mod::lemma_fundamental_div_mod_converse(
        turn + i,
        usize::MAX + 1,
        1,
        turn + i - usize::MAX - 1,
    );
}

} // verus!
