use vstd::arithmetic::div_mod::{
    lemma_add_mod_noop, lemma_fundamental_div_mod, lemma_mul_mod_noop_general,
};
use vstd::prelude::*;
use vstd::string::StringExecFns;

use crate::consts;
use crate::endpoint::{weights_of, WordCountServer};
use crate::strategy::context::StrategyContext;
use crate::strategy::RouteStrategy;

verus! {

/// The greatest common divisor by Euclid's rule; `gcd(a, 0)` is `a`.
pub open spec fn gcd(a: nat, b: nat) -> nat
    decreases b,
{
    if b == 0 {
        a
    } else {
        gcd(b, a % b)
    }
}

/// The greatest common divisor of all the weights, 0 for no weights at all.
pub open spec fn gcd_of(weights: Seq<nat>) -> nat
    decreases weights.len(),
{
    if weights.len() == 0 {
        0
    } else {
        gcd(gcd_of(weights.drop_last()), weights.last())
    }
}

/// The largest of the weights, 0 for no weights at all.
pub open spec fn max_of(weights: Seq<nat>) -> nat
    decreases weights.len(),
{
    if weights.len() == 0 {
        0
    } else {
        let rest = max_of(weights.drop_last());
        if weights.last() > rest {
            weights.last()
        } else {
            rest
        }
    }
}

/// A place in the scan: a position of the snapshot and the weight level that
/// an endpoint must reach to be picked there. The same shape holds the state
/// between picks: the position to look at next and the level reached so far.
pub struct Scan {
    pub idx: nat,
    pub level: nat,
}

/// The level after the scan has wrapped round to position 0: one step of the
/// common divisor down, and back to the largest weight once that step would
/// reach 0.
pub open spec fn level_after_wrap(weights: Seq<nat>, level: nat) -> nat {
    if level <= gcd_of(weights) {
        max_of(weights)
    } else {
        (level - gcd_of(weights)) as nat
    }
}

/// The place that the scan looks at when it is in state `state`: position
/// `state.idx`, at the level of the state, or at the next level where the
/// position is 0.
pub open spec fn place_of(weights: Seq<nat>, state: Scan) -> Scan {
    Scan {
        idx: state.idx,
        level: if state.idx == 0 {
            level_after_wrap(weights, state.level)
        } else {
            state.level
        },
    }
}

/// The state in which the scan leaves `place`: the position after it, cyclically.
pub open spec fn state_after(weights: Seq<nat>, place: Scan) -> Scan {
    Scan { idx: (place.idx + 1) % weights.len(), level: place.level }
}

/// The `k`-th place that a scan from `start` looks at, counted from 0.
pub open spec fn place_at(weights: Seq<nat>, start: Scan, k: nat) -> Scan
    decreases k,
{
    if k == 0 {
        place_of(weights, start)
    } else {
        place_of(weights, state_after(weights, place_at(weights, start, (k - 1) as nat)))
    }
}

/// Whether the endpoint at `place` is picked there: the position exists and its
/// weight reaches the level.
pub open spec fn eligible(weights: Seq<nat>, place: Scan) -> bool {
    place.idx < weights.len() && weights[place.idx as int] >= place.level
}

/// `k` numbers the first place of the scan from `start` at which an endpoint is
/// picked.
pub open spec fn is_first_eligible(weights: Seq<nat>, start: Scan, k: nat) -> bool {
    &&& eligible(weights, place_at(weights, start, k))
    &&& forall|j: nat| j < k ==> !eligible(weights, #[trigger] place_at(weights, start, j))
}

/// What a pick in state `start` returns on a snapshot with these weights, and
/// the state it leaves.
///
/// Where no weight is positive nothing is picked and the state stays. Else the
/// scan goes from place to place and picks the endpoint of the first place
/// where the weight reaches the level.
pub open spec fn next_pick(weights: Seq<nat>, start: Scan) -> (Option<int>, Scan) {
    if max_of(weights) == 0 {
        (None, start)
    } else {
        let k = choose|k: nat| is_first_eligible(weights, start, k);
        let place = place_at(weights, start, k);
        (Some(place.idx as int), state_after(weights, place))
    }
}

/// At most one place is the first at which an endpoint is picked.
pub proof fn lemma_first_eligible_is_unique(weights: Seq<nat>, start: Scan, k1: nat, k2: nat)
    requires
        is_first_eligible(weights, start, k1),
        is_first_eligible(weights, start, k2),
    ensures
        k1 == k2,
{
    if k1 < k2 {
        assert(!eligible(weights, place_at(weights, start, k1)));
    }
    if k2 < k1 {
        assert(!eligible(weights, place_at(weights, start, k2)));
    }
}

/// The largest weight is the weight of some position, and no weight is above it.
pub proof fn lemma_max_of(weights: Seq<nat>)
    ensures
        forall|i: int| 0 <= i < weights.len() ==> #[trigger] weights[i] <= max_of(weights),
        weights.len() > 0 ==> exists|i: int| 0 <= i < weights.len() && weights[i] == max_of(weights),
    decreases weights.len(),
{
    if weights.len() > 0 {
        let init = weights.drop_last();
        lemma_max_of(init);
        assert forall|i: int| 0 <= i < weights.len() implies #[trigger] weights[i] <= max_of(
            weights,
        ) by {
            if i < init.len() {
                assert(weights[i] == init[i]);
            }
        }
        if weights.last() > max_of(init) || init.len() == 0 {
            assert(weights[weights.len() - 1] == max_of(weights));
        } else {
            let i = choose|i: int| 0 <= i < init.len() && init[i] == max_of(init);
            assert(weights[i] == max_of(weights));
        }
    }
}

proof fn lemma_multiple_plus_multiple(x: int, q: int, y: int, d: int)
    requires
        d > 0,
        x % d == 0,
        y % d == 0,
    ensures
        (x * q + y) % d == 0,
{
    lemma_mul_mod_noop_general(x, q, d);
    assert(((x % d) * q) == 0) by (nonlinear_arith)
        requires
            x % d == 0,
    ;
    assert(0int % d == 0);
    assert((x * q) % d == 0);
    lemma_add_mod_noop(x * q, y, d);
    assert(((x * q) % d + y % d) % d == 0);
}

/// Euclid's rule gives a common divisor: it divides both numbers, and it is
/// positive unless both are 0.
pub proof fn lemma_gcd_divides(a: nat, b: nat)
    ensures
        gcd(a, b) == 0 <==> a == 0 && b == 0,
        gcd(a, b) > 0 ==> a % gcd(a, b) == 0 && b % gcd(a, b) == 0,
        gcd(a, b) <= if a >= b { a } else { b },
    decreases b,
{
    if b == 0 {
        if a > 0 {
            assert(a % a == 0 && 0nat % a == 0) by (nonlinear_arith)
                requires
                    a > 0,
            ;
        }
    } else {
        let r = a % b;
        let g = gcd(b, r);
        lemma_gcd_divides(b, r);
        lemma_multiple_plus_multiple(b as int, (a / b) as int, r as int, g as int);
        lemma_fundamental_div_mod(a as int, b as int);
    }
}

/// Every common divisor of two numbers divides what Euclid's rule gives: it
/// is the greatest of them.
pub proof fn lemma_gcd_is_greatest(a: nat, b: nat, d: nat)
    requires
        d > 0,
        a % d == 0,
        b % d == 0,
    ensures
        gcd(a, b) % d == 0,
    decreases b,
{
    if b > 0 {
        let r = a % b;
        lemma_multiple_plus_multiple(b as int, -((a / b) as int), a as int, d as int);
        lemma_fundamental_div_mod(a as int, b as int);
        assert(r == b * (-((a / b) as int)) + a) by (nonlinear_arith)
            requires
                a == b * (a / b) + r,
        ;
        lemma_gcd_is_greatest(b, r, d);
    }
}

/// On a snapshot in which every endpoint carries a positive weight, a pick finds
/// nothing exactly if the snapshot is empty.
pub proof fn lemma_pick_is_none_iff_empty(weights: Seq<nat>, start: Scan)
    requires
        forall|j: int| 0 <= j < weights.len() ==> #[trigger] weights[j] >= 1,
    ensures
        next_pick(weights, start).0 is None <==> weights.len() == 0,
{
    lemma_max_of(weights);
    if weights.len() > 0 {
        assert(weights[0] >= 1);
    }
}

/// Where some weight is positive, the common divisor of the weights is positive too.
pub proof fn lemma_gcd_of_positive(weights: Seq<nat>)
    requires
        max_of(weights) > 0,
    ensures
        gcd_of(weights) > 0,
    decreases weights.len(),
{
    if weights.len() > 0 {
        let init = weights.drop_last();
        lemma_gcd_divides(gcd_of(init), weights.last());
        if max_of(init) > 0 {
            lemma_gcd_of_positive(init);
        }
    }
}

/// How far the level of the place that `state` looks at lies above the largest
/// weight. Nothing is picked while this is positive.
spec fn excess(weights: Seq<nat>, state: Scan) -> nat {
    let level = place_of(weights, state).level;
    if level > max_of(weights) {
        (level - max_of(weights)) as nat
    } else {
        0
    }
}

/// An upper bound on the places still to scan until the excess drops or, once it
/// is 0, until the scan reaches position `heaviest`.
spec fn distance(weights: Seq<nat>, state: Scan, heaviest: nat) -> nat {
    let n = weights.len();
    if state.idx >= n {
        2 * n
    } else if excess(weights, state) > 0 {
        (n - state.idx) as nat
    } else if state.idx <= heaviest {
        (heaviest - state.idx) as nat
    } else {
        (heaviest + n - state.idx) as nat
    }
}

/// The places of a scan that starts where another scan has left a place are the
/// places of that other scan from there on.
pub proof fn lemma_places_shift(weights: Seq<nat>, start: Scan, k: nat, j: nat)
    ensures
        place_at(weights, state_after(weights, place_at(weights, start, k)), j) == place_at(
            weights,
            start,
            k + 1 + j,
        ),
    decreases j,
{
    if j > 0 {
        lemma_places_shift(weights, start, k, (j - 1) as nat);
    }
}

proof fn lemma_scan_reaches(weights: Seq<nat>, state: Scan, heaviest: nat) -> (k: nat)
    requires
        max_of(weights) > 0,
        heaviest < weights.len(),
        weights[heaviest as int] == max_of(weights),
    ensures
        eligible(weights, place_at(weights, state, k)),
    decreases excess(weights, state), distance(weights, state, heaviest),
{
    let place = place_of(weights, state);
    if eligible(weights, place) {
        0
    } else {
        let next = state_after(weights, place);
        let n = weights.len() as int;
        let c = state.idx as int;
        lemma_gcd_of_positive(weights);
        assert(0 <= (c + 1) % n < n) by (nonlinear_arith)
            requires
                n > 0,
                c >= 0,
        ;
        if c < n {
            assert((c + 1) % n == if c + 1 == n {
                0
            } else {
                c + 1
            }) by (nonlinear_arith)
                requires
                    0 <= c < n,
            ;
        }
        let k = lemma_scan_reaches(weights, next, heaviest);
        lemma_places_shift(weights, state, 0, k);
        k + 1
    }
}

proof fn lemma_first_eligible_before(weights: Seq<nat>, start: Scan, k: nat) -> (first: nat)
    requires
        eligible(weights, place_at(weights, start, k)),
    ensures
        first <= k,
        is_first_eligible(weights, start, first),
    decreases k,
{
    if exists|j: nat| j < k && eligible(weights, place_at(weights, start, j)) {
        let j = choose|j: nat| j < k && eligible(weights, place_at(weights, start, j));
        lemma_first_eligible_before(weights, start, j)
    } else {
        k
    }
}

/// Where some weight is positive, a scan from any state comes to a place at
/// which an endpoint is picked: every pick on such a snapshot finds one.
pub proof fn lemma_scan_finds_a_place(weights: Seq<nat>, start: Scan)
    requires
        max_of(weights) > 0,
    ensures
        exists|k: nat| is_first_eligible(weights, start, k),
        is_first_eligible(weights, start, choose|k: nat| is_first_eligible(weights, start, k)),
        next_pick(weights, start).0 matches Some(i) && 0 <= i < weights.len() && weights[i]
            >= next_pick(weights, start).1.level,
{
    lemma_max_of(weights);
    let heaviest = choose|i: int| 0 <= i < weights.len() && weights[i] == max_of(weights);
    let k = lemma_scan_reaches(weights, start, heaviest as nat);
    let first = lemma_first_eligible_before(weights, start, k);
}

/// Serves the endpoints in proportion to their weights: in the course of one
/// cycle every endpoint is picked as many times as the common divisor of all
/// weights goes into its own weight, the heavier endpoints first.
pub struct WeightedRoundRobin {
    idx: usize,
    curr_weight: u8,
}

impl WeightedRoundRobin {
    #[verifier::type_invariant]
    spec fn level_is_set(self) -> bool {
        self.curr_weight == 0 ==> self.idx == 0
    }

    /// The state between picks: the position to look at next and the level
    /// reached so far. A fresh strategy is at position 0 and level 0.
    pub closed spec fn state(&self) -> Scan {
        Scan { idx: self.idx as nat, level: self.curr_weight as nat }
    }

    pub fn new() -> (strategy: Self)
        ensures
            strategy.state() == (Scan { idx: 0, level: 0 }),
    {
        WeightedRoundRobin { idx: 0, curr_weight: 0 }
    }

    /// The greatest common divisor of two weights.
    pub fn gcd(x: u8, y: u8) -> (d: u8)
        ensures
            d == gcd(x as nat, y as nat),
    {
        if y == 0 {
            return x;
        }
        let mut a = x;
        let mut b = y;
        loop
            invariant
                b > 0,
                gcd(a as nat, b as nat) == gcd(x as nat, y as nat),
            decreases b,
        {
            let t = a % b;
            if t > 0 {
                a = b;
                b = t;
            } else {
                assert(gcd(b as nat, 0) == b);
                return b;
            }
        }
    }

    /// The greatest common divisor of the weights that the endpoints carry;
    /// `None` where none of them carries a weight.
    pub fn cal_gcd(endpoints: &Vec<&WordCountServer>) -> (d: Option<u8>)
        ensures
            d is None <==> forall|i: int|
                0 <= i < endpoints.len() ==> (#[trigger] endpoints[i]).config().weight is None,
            gcd_of(weights_of(endpoints@)) == match d {
                Some(g) => g as nat,
                None => 0,
            },
    {
        let ghost weights = weights_of(endpoints@);
        let mut result: Option<u8> = None;
        let mut i: usize = 0;
        while i < endpoints.len()
            invariant
                i <= endpoints.len(),
                weights == weights_of(endpoints@),
                result is None <==> forall|j: int|
                    0 <= j < i ==> (#[trigger] endpoints[j]).config().weight is None,
                gcd_of(weights.take(i as int)) == match result {
                    Some(g) => g as nat,
                    None => 0,
                },
            decreases endpoints.len() - i,
        {
            proof {
                assert(weights.take(i + 1).drop_last() == weights.take(i as int));
                assert(weights.take(i + 1).last() == endpoints[i as int].effective_weight());
            }
            match endpoints[i].weight() {
                Some(weight) => {
                    result = Some(
                        match result {
                            Some(so_far) => Self::gcd(so_far, weight),
                            None => {
                                proof {
                                    reveal_with_fuel(gcd, 3);
                                }
                                weight
                            },
                        },
                    );
                },
                None => {},
            }
            i += 1;
        }
        assert(weights.take(i as int) == weights);
        result
    }

    /// The largest weight that the endpoints carry; `None` where none of them
    /// carries a weight.
    pub fn max(endpoints: &Vec<&WordCountServer>) -> (m: Option<u8>)
        ensures
            m is None <==> forall|i: int|
                0 <= i < endpoints.len() ==> (#[trigger] endpoints[i]).config().weight is None,
            max_of(weights_of(endpoints@)) == match m {
                Some(w) => w as nat,
                None => 0,
            },
    {
        let ghost weights = weights_of(endpoints@);
        let mut result: Option<u8> = None;
        let mut i: usize = 0;
        while i < endpoints.len()
            invariant
                i <= endpoints.len(),
                weights == weights_of(endpoints@),
                result is None <==> forall|j: int|
                    0 <= j < i ==> (#[trigger] endpoints[j]).config().weight is None,
                max_of(weights.take(i as int)) == match result {
                    Some(w) => w as nat,
                    None => 0,
                },
            decreases endpoints.len() - i,
        {
            proof {
                assert(weights.take(i + 1).drop_last() == weights.take(i as int));
                assert(weights.take(i + 1).last() == endpoints[i as int].effective_weight());
            }
            match endpoints[i].weight() {
                Some(weight) => {
                    result = Some(
                        match result {
                            Some(so_far) => if weight > so_far {
                                weight
                            } else {
                                so_far
                            },
                            None => weight,
                        },
                    );
                },
                None => {},
            }
            i += 1;
        }
        assert(weights.take(i as int) == weights);
        result
    }
}

impl RouteStrategy for WeightedRoundRobin {
    fn name(&self) -> (name: String)
        ensures
            name@ == consts::WEIGHTED_ROUND_ROBIN@,
    {
        String::from_str(consts::WEIGHTED_ROUND_ROBIN)
    }

    fn pick(&mut self, ctx: &StrategyContext, endpoints: &Vec<&WordCountServer>) -> (picked: Option<
        usize,
    >)
        ensures
            picked is None <==> max_of(weights_of(endpoints@)) == 0,
            match picked {
                Some(i) => next_pick(weights_of(endpoints@), old(self).state()).0 == Some(i as int),
                None => next_pick(weights_of(endpoints@), old(self).state()).0 is None,
            },
            final(self).state() == next_pick(weights_of(endpoints@), old(self).state()).1,
            picked matches Some(i) ==> endpoints[i as int].effective_weight() >= 1,
    {
        let ghost weights = weights_of(endpoints@);
        let ghost start = self.state();
        let n = endpoints.len();
        let step = match Self::cal_gcd(endpoints) {
            Some(g) => g,
            None => 0,
        };
        let top = match Self::max(endpoints) {
            Some(w) => w,
            None => 0,
        };
        if top == 0 {
            return None;
        }
        proof {
            use_type_invariant(&*self);
            lemma_max_of(weights);
            lemma_gcd_of_positive(weights);
        }
        let ghost heaviest: nat = (choose|i: int| 0 <= i < weights.len() && weights[i] == max_of(weights)) as nat;
        let mut idx = self.idx;
        let mut level = self.curr_weight;
        let ghost mut k: nat = 0;
        loop
            invariant
                n == endpoints.len(),
                n > 0,
                start == old(self).state(),
                weights == weights_of(endpoints@),
                weights.len() == n,
                step == gcd_of(weights),
                step >= 1,
                top == max_of(weights),
                top >= 1,
                heaviest < n,
                weights[heaviest as int] == top,
                level == 0 ==> idx == 0,
                forall|j: nat| j < k ==> !eligible(weights, #[trigger] place_at(weights, start, j)),
                place_of(weights, Scan { idx: idx as nat, level: level as nat }) == place_at(
                    weights,
                    start,
                    k,
                ),
            decreases
                    excess(weights, Scan { idx: idx as nat, level: level as nat }),
                    distance(weights, Scan { idx: idx as nat, level: level as nat }, heaviest),
        {
            let ghost state = Scan { idx: idx as nat, level: level as nat };
            let curr_idx = idx;
            let place_level = if curr_idx == 0 {
                if level <= step {
                    top
                } else {
                    level - step
                }
            } else {
                level
            };
            let ghost place = Scan { idx: curr_idx as nat, level: place_level as nat };
            assert(place == place_of(weights, state));
            if curr_idx < n {
                let weight = match endpoints[curr_idx].weight() {
                    Some(w) => w,
                    None => 0,
                };
                assert(weight == weights[curr_idx as int]);
                if weight >= place_level {
                    let next = if curr_idx + 1 == n {
                        0
                    } else {
                        curr_idx + 1
                    };
                    proof {
                        assert(eligible(weights, place));
                        assert(is_first_eligible(weights, start, k));
                        let chosen = choose|c: nat| is_first_eligible(weights, start, c);
                        lemma_first_eligible_is_unique(weights, start, k, chosen);
                        assert(next == (curr_idx + 1) % (n as int)) by (nonlinear_arith)
                            requires
                                curr_idx < n,
                                next == if curr_idx + 1 == n {
                                    0
                                } else {
                                    curr_idx + 1
                                },
                        ;
                    }
                    *self = WeightedRoundRobin { idx: next, curr_weight: place_level };
                    return Some(curr_idx);
                }
            }
            idx = (curr_idx % n + 1) % n;
            level = place_level;
            proof {
                assert(!eligible(weights, place));
                assert(idx == (curr_idx + 1) % (n as int)) by (nonlinear_arith)
                    requires
                        n > 0,
                        idx == (curr_idx % n + 1) % (n as int),
                ;
                k = k + 1;
                assert(Scan { idx: idx as nat, level: level as nat } == state_after(weights, place));
                if curr_idx < n {
                    assert(idx == if curr_idx + 1 == n {
                        0
                    } else {
                        curr_idx + 1
                    }) by (nonlinear_arith)
                        requires
                            curr_idx < n,
                            idx == (curr_idx + 1) % (n as int),
                    ;
                    assert(curr_idx != heaviest || excess(weights, state) > 0);
                }
            }
        }
    }
}

} // verus!
