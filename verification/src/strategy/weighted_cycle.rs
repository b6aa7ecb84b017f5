//! The long-run behaviour of weighted round robin: over one cycle every
//! endpoint is served in proportion to its weight.

use vstd::arithmetic::div_mod::{
    lemma_div_multiples_vanish, lemma_fundamental_div_mod, lemma_fundamental_div_mod_converse,
    lemma_mul_mod_noop_general, lemma_small_mod,
};
use vstd::prelude::*;

use crate::strategy::times_picked;
use crate::strategy::weighted_round_robin::{
    eligible, gcd_of, is_first_eligible, lemma_first_eligible_is_unique, lemma_gcd_divides,
    lemma_gcd_is_greatest, lemma_gcd_of_positive, lemma_max_of, lemma_places_shift,
    lemma_scan_finds_a_place, max_of, next_pick, place_at, place_of, state_after, Scan,
};

verus! {

/// The sum of the weights.
pub open spec fn sum_of(weights: Seq<nat>) -> nat
    decreases weights.len(),
{
    if weights.len() == 0 {
        0
    } else {
        sum_of(weights.drop_last()) + weights.last()
    }
}

/// The state of a strategy that has not picked yet.
pub open spec fn fresh() -> Scan {
    Scan { idx: 0, level: 0 }
}

/// What `t` picks in a row return on a snapshot whose weights stay as they are,
/// the first of them in state `start`.
pub open spec fn weighted_picks(weights: Seq<nat>, start: Scan, t: nat) -> Seq<Option<int>>
    decreases t,
{
    if t == 0 {
        Seq::empty()
    } else {
        let (picked, next) = next_pick(weights, start);
        seq![picked] + weighted_picks(weights, next, (t - 1) as nat)
    }
}

/// The state in which `t` picks in a row leave the strategy, the first of them
/// made in state `start`.
pub open spec fn state_after_picks(weights: Seq<nat>, start: Scan, t: nat) -> Scan
    decreases t,
{
    if t == 0 {
        start
    } else {
        state_after_picks(weights, next_pick(weights, start).1, (t - 1) as nat)
    }
}

/// The number of picks of one cycle: as many as the common divisor of the
/// weights goes into their sum.
pub open spec fn cycle_length(weights: Seq<nat>) -> nat {
    sum_of(weights) / gcd_of(weights)
}

/// Every weight is positive.
pub open spec fn all_positive(weights: Seq<nat>) -> bool {
    forall|j: int| 0 <= j < weights.len() ==> #[trigger] weights[j] >= 1
}

// ---------------------------------------------------------------------------
// Divisibility of the weights by their common divisor
// ---------------------------------------------------------------------------
proof fn lemma_multiple_of_multiple(x: nat, a: nat, d: nat)
    requires
        d > 0,
        a > 0,
        x % a == 0,
        a % d == 0,
    ensures
        x % d == 0,
{
    lemma_fundamental_div_mod(x as int, a as int);
    lemma_mul_mod_noop_general(a as int, (x / a) as int, d as int);
    assert(((a as int % d as int) * (x / a) as int) == 0) by (nonlinear_arith)
        requires
            a as int % d as int == 0,
    ;
}

/// The common divisor of the weights divides each of them.
pub proof fn lemma_gcd_of_divides(weights: Seq<nat>, j: int)
    requires
        0 <= j < weights.len(),
        gcd_of(weights) > 0,
    ensures
        weights[j] % gcd_of(weights) == 0,
    decreases weights.len(),
{
    let init = weights.drop_last();
    let g = gcd_of(weights);
    lemma_gcd_divides(gcd_of(init), weights.last());
    if j < init.len() {
        if gcd_of(init) > 0 {
            lemma_gcd_of_divides(init, j);
            lemma_multiple_of_multiple(init[j], gcd_of(init), g);
        } else {
            lemma_gcd_of_zero(init, j);
            assert(0nat % g == 0);
        }
    }
}

/// Every number that divides all the weights divides their common divisor: it
/// is the greatest of the common divisors.
pub proof fn lemma_gcd_of_is_greatest(weights: Seq<nat>, d: nat)
    requires
        d > 0,
        forall|j: int| 0 <= j < weights.len() ==> #[trigger] weights[j] % d == 0,
    ensures
        gcd_of(weights) % d == 0,
    decreases weights.len(),
{
    if weights.len() > 0 {
        let init = weights.drop_last();
        assert forall|j: int| 0 <= j < init.len() implies #[trigger] init[j] % d == 0 by {
            assert(init[j] == weights[j]);
        }
        lemma_gcd_of_is_greatest(init, d);
        assert(weights.last() == weights[weights.len() - 1]);
        lemma_gcd_is_greatest(gcd_of(init), weights.last(), d);
    } else {
        assert(0nat % d == 0);
    }
}

proof fn lemma_gcd_of_zero(weights: Seq<nat>, j: int)
    requires
        0 <= j < weights.len(),
        gcd_of(weights) == 0,
    ensures
        weights[j] == 0,
    decreases weights.len(),
{
    let init = weights.drop_last();
    lemma_gcd_divides(gcd_of(init), weights.last());
    if j < init.len() {
        lemma_gcd_of_zero(init, j);
    }
}

// ---------------------------------------------------------------------------
// Runs of picks and the places they come from
// ---------------------------------------------------------------------------
/// The endpoints picked at the places numbered `from` up to `to - 1` of the scan
/// from `start`, in the order of the places.
spec fn picked_between(weights: Seq<nat>, start: Scan, from: nat, to: nat) -> Seq<Option<int>>
    decreases to - from,
{
    if from >= to {
        Seq::empty()
    } else {
        let place = place_at(weights, start, from);
        let head: Seq<Option<int>> = if eligible(weights, place) {
            seq![Some(place.idx as int)]
        } else {
            Seq::empty()
        };
        head + picked_between(weights, start, from + 1, to)
    }
}

proof fn lemma_picked_between_shift(weights: Seq<nat>, start: Scan, k: nat, a: nat, b: nat)
    ensures
        picked_between(weights, start, k + 1 + a, k + 1 + b) == picked_between(
            weights,
            state_after(weights, place_at(weights, start, k)),
            a,
            b,
        ),
    decreases b - a,
{
    if a < b {
        lemma_places_shift(weights, start, k, a);
        lemma_picked_between_shift(weights, start, k, a + 1, b);
    }
}

proof fn lemma_picked_between_skip(weights: Seq<nat>, start: Scan, from: nat, k: nat, to: nat)
    requires
        from <= k <= to,
        forall|j: nat| from <= j < k ==> !eligible(weights, #[trigger] place_at(weights, start, j)),
    ensures
        picked_between(weights, start, from, to) == picked_between(weights, start, k, to),
    decreases k - from,
{
    if from < k {
        assert(!eligible(weights, place_at(weights, start, from)));
        lemma_picked_between_skip(weights, start, from + 1, k, to);
        assert(Seq::<Option<int>>::empty() + picked_between(weights, start, from + 1, to)
            == picked_between(weights, start, from + 1, to));
    }
}

proof fn lemma_picked_between_split(weights: Seq<nat>, start: Scan, a: nat, b: nat, c: nat)
    requires
        a <= b <= c,
    ensures
        picked_between(weights, start, a, c) == picked_between(weights, start, a, b)
            + picked_between(weights, start, b, c),
    decreases b - a,
{
    if a < b {
        lemma_picked_between_split(weights, start, a + 1, b, c);
        let place = place_at(weights, start, a);
        let head: Seq<Option<int>> = if eligible(weights, place) {
            seq![Some(place.idx as int)]
        } else {
            Seq::empty()
        };
        assert(head + (picked_between(weights, start, a + 1, b) + picked_between(
            weights,
            start,
            b,
            c,
        )) == (head + picked_between(weights, start, a + 1, b)) + picked_between(
            weights,
            start,
            b,
            c,
        ));
    } else {
        assert(Seq::<Option<int>>::empty() + picked_between(weights, start, b, c)
            == picked_between(weights, start, b, c));
    }
}

/// Where something is picked between two places, the scan has a first place at
/// which it picks, and that place lies before the end of the range.
proof fn lemma_first_pick_exists(weights: Seq<nat>, start: Scan, from: nat, to: nat) -> (k: nat)
    requires
        picked_between(weights, start, from, to).len() > 0,
        forall|j: nat| j < from ==> !eligible(weights, #[trigger] place_at(weights, start, j)),
    ensures
        k < to,
        is_first_eligible(weights, start, k),
    decreases to - from,
{
    if eligible(weights, place_at(weights, start, from)) {
        from
    } else {
        assert(Seq::<Option<int>>::empty() + picked_between(weights, start, from + 1, to)
            == picked_between(weights, start, from + 1, to));
        lemma_first_pick_exists(weights, start, from + 1, to)
    }
}

proof fn lemma_picked_where_eligible(weights: Seq<nat>, start: Scan, places: nat)
    requires
        places > 0,
        eligible(weights, place_at(weights, start, (places - 1) as nat)),
    ensures
        picked_between(weights, start, 0, places).len() > 0,
{
    let last = (places - 1) as nat;
    lemma_picked_between_split(weights, start, 0, last, places);
    assert(picked_between(weights, start, places, places).len() == 0);
}

/// A run of picks returns the endpoints picked at the first places of the scan:
/// as many places as hold that number of picks. Where the last of these
/// places is one at which an endpoint is picked, the run leaves the strategy
/// in the state in which the scan leaves that place.
proof fn lemma_picks_follow_places(weights: Seq<nat>, start: Scan, t: nat, places: nat)
    requires
        max_of(weights) > 0,
        picked_between(weights, start, 0, places).len() == t,
    ensures
        weighted_picks(weights, start, t) == picked_between(weights, start, 0, places),
        places > 0 && eligible(weights, place_at(weights, start, (places - 1) as nat))
            ==> state_after_picks(weights, start, t) == state_after(
            weights,
            place_at(weights, start, (places - 1) as nat),
        ),
    decreases t,
{
    if t == 0 {
        assert(picked_between(weights, start, 0, places) == Seq::<Option<int>>::empty());
        if places > 0 && eligible(weights, place_at(weights, start, (places - 1) as nat)) {
            lemma_picked_where_eligible(weights, start, places);
        }
    } else {
        let k = lemma_first_pick_exists(weights, start, 0, places);
        let chosen = choose|c: nat| is_first_eligible(weights, start, c);
        lemma_first_eligible_is_unique(weights, start, k, chosen);
        let place = place_at(weights, start, k);
        let next = state_after(weights, place);
        let left = (places - k - 1) as nat;
        lemma_picked_between_skip(weights, start, 0, k, places);
        lemma_picked_between_shift(weights, start, k, 0, left);
        let rest = picked_between(weights, next, 0, left);
        assert(picked_between(weights, start, k, places) == seq![Some(place.idx as int)] + rest);
        lemma_picks_follow_places(weights, next, (t - 1) as nat, left);
        assert(next_pick(weights, start).1 == next);
        assert(state_after_picks(weights, start, t) == state_after_picks(
            weights,
            next,
            (t - 1) as nat,
        ));
        if left > 0 {
            lemma_places_shift(weights, start, k, (left - 1) as nat);
            assert(k + 1 + (left - 1) as nat == (places - 1) as nat);
        } else {
            assert(rest.len() == 0);
            assert(state_after_picks(weights, next, 0) == next);
        }
    }
}

/// The places of a scan depend on its start only by the first place.
proof fn lemma_same_first_place(weights: Seq<nat>, s1: Scan, s2: Scan, k: nat)
    requires
        place_of(weights, s1) == place_of(weights, s2),
    ensures
        place_at(weights, s1, k) == place_at(weights, s2, k),
    decreases k,
{
    if k > 0 {
        lemma_same_first_place(weights, s1, s2, (k - 1) as nat);
    }
}

/// Two states in which the scan looks at the same place first lead to the same
/// pick and to the same state after it.
proof fn lemma_same_first_place_same_pick(weights: Seq<nat>, s1: Scan, s2: Scan)
    requires
        max_of(weights) > 0,
        place_of(weights, s1) == place_of(weights, s2),
    ensures
        next_pick(weights, s1) == next_pick(weights, s2),
{
    lemma_scan_finds_a_place(weights, s1);
    lemma_scan_finds_a_place(weights, s2);
    let k1 = choose|k: nat| is_first_eligible(weights, s1, k);
    let k2 = choose|k: nat| is_first_eligible(weights, s2, k);
    lemma_same_first_place(weights, s1, s2, k2);
    assert forall|j: nat| j < k2 implies !eligible(weights, #[trigger] place_at(weights, s1, j)) by {
        lemma_same_first_place(weights, s1, s2, j);
    }
    lemma_first_eligible_is_unique(weights, s1, k1, k2);
}

proof fn lemma_state_after_picks_splits(weights: Seq<nat>, start: Scan, a: nat, b: nat)
    ensures
        state_after_picks(weights, start, a + b) == state_after_picks(
            weights,
            state_after_picks(weights, start, a),
            b,
        ),
    decreases a,
{
    if a > 0 {
        lemma_state_after_picks_splits(weights, next_pick(weights, start).1, (a - 1) as nat, b);
    }
}

// ---------------------------------------------------------------------------
// Counting picks
// ---------------------------------------------------------------------------
proof fn lemma_times_picked_concat(a: Seq<Option<int>>, b: Seq<Option<int>>, i: int)
    ensures
        times_picked(a + b, i) == times_picked(a, i) + times_picked(b, i),
    decreases a.len(),
{
    if a.len() == 0 {
        assert(a + b == b);
    } else {
        assert((a + b).drop_first() == a.drop_first() + b);
        lemma_times_picked_concat(a.drop_first(), b, i);
    }
}

/// All picks of a run lie at positions below `n`.
spec fn picks_below(picks: Seq<Option<int>>, n: nat) -> bool {
    forall|j: int|
        0 <= j < picks.len() ==> (#[trigger] picks[j]) is Some && 0 <= picks[j]->0 < n
}

/// The number of picks that fall on the positions below `m`.
spec fn tally(picks: Seq<Option<int>>, m: nat) -> nat
    decreases m,
{
    if m == 0 {
        0
    } else {
        tally(picks, (m - 1) as nat) + times_picked(picks, m - 1)
    }
}

proof fn lemma_tally_step(picks: Seq<Option<int>>, m: nat)
    requires
        picks.len() > 0,
        picks[0] is Some,
    ensures
        tally(picks, m) == tally(picks.drop_first(), m) + if 0 <= picks[0]->0 < m {
            1nat
        } else {
            0nat
        },
    decreases m,
{
    if m > 0 {
        lemma_tally_step(picks, (m - 1) as nat);
    }
}

proof fn lemma_tally_empty(picks: Seq<Option<int>>, m: nat)
    requires
        picks.len() == 0,
    ensures
        tally(picks, m) == 0,
    decreases m,
{
    if m > 0 {
        lemma_tally_empty(picks, (m - 1) as nat);
    }
}

/// A run whose picks all lie below `n` is as long as the picks that its
/// positions collect together.
proof fn lemma_len_is_tally(picks: Seq<Option<int>>, n: nat)
    requires
        picks_below(picks, n),
    ensures
        picks.len() == tally(picks, n),
    decreases picks.len(),
{
    if picks.len() == 0 {
        lemma_tally_empty(picks, n);
    } else {
        let rest = picks.drop_first();
        assert forall|j: int| 0 <= j < rest.len() implies (#[trigger] rest[j]) is Some && 0
            <= rest[j]->0 < n by {
            assert(rest[j] == picks[j + 1]);
        }
        lemma_len_is_tally(rest, n);
        lemma_tally_step(picks, n);
    }
}

proof fn lemma_picked_between_below(weights: Seq<nat>, start: Scan, from: nat, to: nat)
    ensures
        picks_below(picked_between(weights, start, from, to), weights.len()),
    decreases to - from,
{
    if from < to {
        lemma_picked_between_below(weights, start, from + 1, to);
    }
}

// ---------------------------------------------------------------------------
// The cycle of a fresh strategy on positive weights
// ---------------------------------------------------------------------------
/// The number of levels that one cycle runs through.
spec fn levels(weights: Seq<nat>) -> nat {
    max_of(weights) / gcd_of(weights)
}

/// The place that a fresh strategy looks at after `k` places: it goes through
/// the positions row by row, one level per row, from the largest weight down.
spec fn cycle_place(weights: Seq<nat>, k: nat) -> Scan {
    let n = weights.len();
    Scan {
        idx: k % n,
        level: (max_of(weights) - gcd_of(weights) * ((k / n) % levels(weights))) as nat,
    }
}

proof fn lemma_levels(weights: Seq<nat>)
    requires
        weights.len() > 0,
        all_positive(weights),
    ensures
        max_of(weights) >= 1,
        gcd_of(weights) >= 1,
        levels(weights) >= 1,
        max_of(weights) == gcd_of(weights) * levels(weights),
{
    lemma_max_of(weights);
    let h = choose|i: int| 0 <= i < weights.len() && weights[i] == max_of(weights);
    assert(weights[h] >= 1);
    lemma_gcd_of_positive(weights);
    lemma_gcd_of_divides(weights, h);
    lemma_fundamental_div_mod(max_of(weights) as int, gcd_of(weights) as int);
    let g = gcd_of(weights) as int;
    let m = max_of(weights) as int;
    assert(m / g >= 1) by (nonlinear_arith)
        requires
            m == g * (m / g),
            m >= 1,
            g >= 1,
    ;
}

proof fn lemma_successor(k: int, n: int)
    requires
        k >= 0,
        n > 0,
    ensures
        (k % n) + 1 < n ==> (k + 1) % n == (k % n) + 1 && (k + 1) / n == k / n,
        (k % n) + 1 >= n ==> (k + 1) % n == 0 && (k + 1) / n == k / n + 1,
        ((k % n) + 1) % n == (k + 1) % n,
{
    assert(((k % n) + 1 < n ==> (k + 1) % n == (k % n) + 1 && (k + 1) / n == k / n) && ((k % n) + 1
        >= n ==> (k + 1) % n == 0 && (k + 1) / n == k / n + 1) && ((k % n) + 1) % n == (k + 1) % n)
        by (nonlinear_arith)
        requires
            k >= 0,
            n > 0,
    ;
}

proof fn lemma_cycle_places(weights: Seq<nat>, k: nat)
    requires
        weights.len() > 0,
        all_positive(weights),
    ensures
        place_at(weights, fresh(), k) == cycle_place(weights, k),
    decreases k,
{
    let n = weights.len() as int;
    let g = gcd_of(weights) as int;
    let m = max_of(weights) as int;
    let rows = levels(weights) as int;
    lemma_levels(weights);
    if k == 0 {
        assert(0int % n == 0 && 0int / n == 0) by (nonlinear_arith)
            requires
                n > 0,
        ;
        assert(0int % rows == 0) by (nonlinear_arith)
            requires
                rows > 0,
        ;
        assert(g * 0 == 0) by (nonlinear_arith);
    } else {
        let j = (k - 1) as nat;
        lemma_cycle_places(weights, j);
        let before = cycle_place(weights, j);
        let r = j as int / n;
        lemma_successor(j as int, n);
        assert(r >= 0) by (nonlinear_arith)
            requires
                r == j as int / n,
                j >= 0,
                n > 0,
        ;
        lemma_successor(r, rows);
        let here = place_of(weights, state_after(weights, before));
        assert(here.idx == k % (n as nat));
        if (j as int % n) + 1 >= n {
            let c = r % rows;
            assert(0 <= c < rows) by (nonlinear_arith)
                requires
                    c == r % rows,
                    rows > 0,
            ;
            assert(j / (n as nat) == r);
            assert((j / (n as nat)) % (rows as nat) == c);
            assert(g * c <= m) by (nonlinear_arith)
                requires
                    m == g * rows,
                    0 <= c < rows,
                    g >= 1,
            ;
            assert(before.level == m - g * c);
            if c + 1 >= rows {
                assert(m - g * c <= g) by (nonlinear_arith)
                    requires
                        m == g * rows,
                        c + 1 >= rows,
                        g >= 1,
                ;
                assert(g * 0 == 0) by (nonlinear_arith);
            } else {
                assert(m - g * c > g && m - g * c - g == m - g * (c + 1)) by (nonlinear_arith)
                    requires
                        m == g * rows,
                        c + 1 < rows,
                        g >= 1,
                ;
            }
            assert(here.level == cycle_place(weights, k).level);
        } else {
            assert(here.level == cycle_place(weights, k).level);
        }
    }
}

/// The place at position `j` of row `r` within a cycle.
proof fn lemma_row_place(weights: Seq<nat>, r: nat, j: nat)
    requires
        weights.len() > 0,
        all_positive(weights),
        r < levels(weights),
        j < weights.len(),
    ensures
        place_at(weights, fresh(), r * weights.len() + j) == (Scan {
            idx: j,
            level: (max_of(weights) - gcd_of(weights) * r) as nat,
        }),
{
    let n = weights.len() as int;
    let k = r * weights.len() + j;
    lemma_cycle_places(weights, k);
    lemma_fundamental_div_mod_converse(k as int, n, r as int, j as int);
    lemma_small_mod(r, levels(weights));
}

/// Within row `r` of the cycle, position `i` is picked once if its weight
/// reaches the level of the row, and not at all if it does not.
proof fn lemma_row_counts(weights: Seq<nat>, r: nat, j: nat, i: int)
    requires
        weights.len() > 0,
        all_positive(weights),
        r < levels(weights),
        j <= weights.len(),
        0 <= i < weights.len(),
    ensures
        times_picked(
            picked_between(weights, fresh(), r * weights.len(), r * weights.len() + j),
            i,
        ) == if i < j && weights[i] >= max_of(weights) - gcd_of(weights) * r {
            1nat
        } else {
            0nat
        },
    decreases j,
{
    let from = r * weights.len();
    let g = gcd_of(weights) as int;
    let m = max_of(weights) as int;
    lemma_levels(weights);
    assert(g * r <= m) by (nonlinear_arith)
        requires
            m == g * levels(weights),
            0 <= r < levels(weights),
            g >= 1,
    ;
    if j == 0 {
        assert(picked_between(weights, fresh(), from, from).len() == 0);
    } else {
        let last = (from + j - 1) as nat;
        assert(last == from + (j - 1) as nat);
        assert(from + j == last + 1);
        lemma_row_counts(weights, r, (j - 1) as nat, i);
        lemma_picked_between_split(weights, fresh(), from, last, from + j);
        lemma_times_picked_concat(
            picked_between(weights, fresh(), from, last),
            picked_between(weights, fresh(), last, from + j),
            i,
        );
        lemma_row_place(weights, r, (j - 1) as nat);
        let place = place_at(weights, fresh(), last);
        let single = picked_between(weights, fresh(), last, last + 1);
        assert(picked_between(weights, fresh(), last + 1, last + 1) == Seq::<Option<int>>::empty());
        if eligible(weights, place) {
            assert(single == seq![Some(place.idx as int)]);
            assert(single.drop_first() == Seq::<Option<int>>::empty());
            assert(times_picked(single.drop_first(), i) == 0);
        } else {
            assert(single == Seq::<Option<int>>::empty());
        }
    }
}

/// After `r` rows of the cycle, position `i` has been picked once for every
/// level passed that its weight reaches.
proof fn lemma_rows_count(weights: Seq<nat>, r: nat, i: int)
    requires
        weights.len() > 0,
        all_positive(weights),
        r <= levels(weights),
        0 <= i < weights.len(),
    ensures
        times_picked(picked_between(weights, fresh(), 0, r * weights.len()), i) == if weights[i]
            / gcd_of(weights) + r >= levels(weights) {
            weights[i] / gcd_of(weights) + r - levels(weights)
        } else {
            0
        },
    decreases r,
{
    let n = weights.len();
    let g = gcd_of(weights) as int;
    let m = max_of(weights) as int;
    let rows = levels(weights) as int;
    lemma_levels(weights);
    if r == 0 {
        assert(0 * n == 0) by (nonlinear_arith);
        lemma_max_of(weights);
        lemma_gcd_of_divides(weights, i);
        lemma_fundamental_div_mod(weights[i] as int, g);
        let q = weights[i] as int / g;
        assert(q <= rows) by (nonlinear_arith)
            requires
                weights[i] == g * q,
                m == g * rows,
                weights[i] <= m,
                g >= 1,
        ;
    } else {
        let before = (r - 1) as nat;
        lemma_rows_count(weights, before, i);
        assert(r * n == before * n + n) by (nonlinear_arith)
            requires
                r == before + 1,
        ;
        lemma_picked_between_split(weights, fresh(), 0, before * n, r * n);
        lemma_times_picked_concat(
            picked_between(weights, fresh(), 0, before * n),
            picked_between(weights, fresh(), before * n, r * n),
            i,
        );
        lemma_row_counts(weights, before, n, i);
        lemma_gcd_of_divides(weights, i);
        lemma_fundamental_div_mod(weights[i] as int, g);
        let q = weights[i] as int / g;
        assert((weights[i] >= m - g * before) <==> (q + before >= rows)) by (nonlinear_arith)
            requires
                weights[i] == g * q,
                m == g * rows,
                g >= 1,
        ;
    }
}

/// The sum of the quotients of the first `m` weights by `d`.
spec fn quotient_sum(weights: Seq<nat>, d: nat, m: nat) -> nat
    decreases m,
{
    if m == 0 {
        0
    } else {
        quotient_sum(weights, d, (m - 1) as nat) + weights[m - 1] / d
    }
}

proof fn lemma_quotient_sum(weights: Seq<nat>, m: nat)
    requires
        m <= weights.len(),
        gcd_of(weights) > 0,
    ensures
        sum_of(weights.take(m as int)) == gcd_of(weights) * quotient_sum(
            weights,
            gcd_of(weights),
            m,
        ),
    decreases m,
{
    let g = gcd_of(weights) as int;
    if m == 0 {
        assert(g * 0 == 0) by (nonlinear_arith);
    } else {
        lemma_quotient_sum(weights, (m - 1) as nat);
        assert(weights.take(m as int).drop_last() == weights.take(m - 1));
        lemma_gcd_of_divides(weights, m - 1);
        lemma_fundamental_div_mod(weights[m - 1] as int, g);
        let a = quotient_sum(weights, gcd_of(weights), (m - 1) as nat) as int;
        let b = weights[m - 1] as int / g;
        assert(g * a + g * b == g * (a + b)) by (nonlinear_arith);
    }
}

proof fn lemma_tally_of_cycle(weights: Seq<nat>, m: nat)
    requires
        weights.len() > 0,
        all_positive(weights),
        m <= weights.len(),
    ensures
        tally(
            picked_between(weights, fresh(), 0, levels(weights) * weights.len()),
            m,
        ) == quotient_sum(weights, gcd_of(weights), m),
    decreases m,
{
    if m > 0 {
        lemma_tally_of_cycle(weights, (m - 1) as nat);
        lemma_rows_count(weights, levels(weights), m - 1);
        lemma_levels(weights);
        let w = weights[m - 1] as int;
        let g = gcd_of(weights) as int;
        assert(w / g >= 0) by (nonlinear_arith)
            requires
                w >= 0,
                g >= 1,
        ;
    }
}

/// What one cycle of a fresh strategy comes to on an unchanged snapshot of
/// positive weights.
proof fn lemma_first_cycle(weights: Seq<nat>, i: int)
    requires
        all_positive(weights),
        0 <= i < weights.len(),
    ensures
        cycle_length(weights) >= 1,
        times_picked(weighted_picks(weights, fresh(), cycle_length(weights)), i) == weights[i]
            / gcd_of(weights),
        place_of(weights, state_after_picks(weights, fresh(), cycle_length(weights))) == place_of(
            weights,
            fresh(),
        ),
{
    let n = weights.len();
    let g = gcd_of(weights);
    let rows = levels(weights);
    let places = rows * n;
    let cycle = picked_between(weights, fresh(), 0, places);
    lemma_levels(weights);
    lemma_rows_count(weights, rows, i);
    assert(weights[i] as int / g as int >= 0) by (nonlinear_arith)
        requires
            weights[i] >= 0,
            g >= 1,
    ;
    lemma_picked_between_below(weights, fresh(), 0, places);
    lemma_len_is_tally(cycle, n);
    lemma_tally_of_cycle(weights, n);
    lemma_quotient_sum(weights, n);
    assert(weights.take(n as int) == weights);
    lemma_div_multiples_vanish(quotient_sum(weights, g, n) as int, g as int);
    lemma_picks_follow_places(weights, fresh(), cycle_length(weights), places);
    // The last place of the cycle is the last position at the lowest level,
    // which every weight reaches.
    let last_row = (rows - 1) as nat;
    let last_position = (n - 1) as nat;
    lemma_row_place(weights, last_row, last_position);
    assert(places - 1 == last_row * n + last_position) by (nonlinear_arith)
        requires
            places == rows * n,
            last_row == rows - 1,
            last_position == n - 1,
    ;
    assert(max_of(weights) - g * last_row == g) by (nonlinear_arith)
        requires
            max_of(weights) == g * rows,
            last_row == rows - 1,
    ;
    lemma_gcd_of_divides(weights, last_position as int);
    lemma_fundamental_div_mod(weights[last_position as int] as int, g as int);
    let w = weights[last_position as int] as int;
    assert(w >= g) by (nonlinear_arith)
        requires
            w == g * (w / (g as int)),
            w >= 1,
            g >= 1,
    ;
    lemma_picked_where_eligible(weights, fresh(), places);
    assert((last_position + 1) % n == 0) by (nonlinear_arith)
        requires
            last_position + 1 == n,
            n > 0,
    ;
}

/// Over one full cycle, which is as many picks as the common divisor of the
/// weights goes into their sum, a fresh weighted round robin picks every
/// position of an unchanged snapshot of positive weights as many times as
/// the common divisor goes into the weight of that position.
pub proof fn lemma_weighted_round_robin_is_proportional(weights: Seq<nat>, i: int)
    requires
        all_positive(weights),
        0 <= i < weights.len(),
    ensures
        times_picked(weighted_picks(weights, fresh(), cycle_length(weights)), i) == weights[i]
            / gcd_of(weights),
{
    lemma_first_cycle(weights, i);
}

proof fn lemma_same_first_place_same_run(weights: Seq<nat>, s1: Scan, s2: Scan, t: nat)
    requires
        max_of(weights) > 0,
        place_of(weights, s1) == place_of(weights, s2),
        t >= 1,
    ensures
        weighted_picks(weights, s1, t) == weighted_picks(weights, s2, t),
        state_after_picks(weights, s1, t) == state_after_picks(weights, s2, t),
{
    lemma_same_first_place_same_pick(weights, s1, s2);
}

proof fn lemma_cycles_start_alike(weights: Seq<nat>, cycles: nat)
    requires
        all_positive(weights),
        weights.len() > 0,
    ensures
        place_of(
            weights,
            state_after_picks(weights, fresh(), cycles * cycle_length(weights)),
        ) == place_of(weights, fresh()),
    decreases cycles,
{
    let t = cycle_length(weights);
    if cycles == 0 {
        assert(0 * t == 0) by (nonlinear_arith);
    } else {
        let before = (cycles - 1) as nat;
        lemma_cycles_start_alike(weights, before);
        lemma_first_cycle(weights, 0);
        lemma_levels(weights);
        assert(cycles * t == before * t + t) by (nonlinear_arith)
            requires
                cycles == before + 1,
        ;
        let state = state_after_picks(weights, fresh(), before * t);
        lemma_state_after_picks_splits(weights, fresh(), before * t, t);
        lemma_same_first_place_same_run(weights, state, fresh(), t);
    }
}

/// The same holds of every later cycle of the run, as long as the snapshot
/// stays as it is: after any number of full cycles the next cycle picks
/// every position as many times as the common divisor goes into its weight.
pub proof fn lemma_every_cycle_is_proportional(weights: Seq<nat>, cycles: nat, i: int)
    requires
        all_positive(weights),
        0 <= i < weights.len(),
    ensures
        times_picked(
            weighted_picks(
                weights,
                state_after_picks(weights, fresh(), cycles * cycle_length(weights)),
                cycle_length(weights),
            ),
            i,
        ) == weights[i] / gcd_of(weights),
{
    lemma_cycles_start_alike(weights, cycles);
    lemma_first_cycle(weights, i);
    lemma_levels(weights);
    lemma_same_first_place_same_run(
        weights,
        state_after_picks(weights, fresh(), cycles * cycle_length(weights)),
        fresh(),
        cycle_length(weights),
    );
}

} // verus!
