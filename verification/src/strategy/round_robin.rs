use vstd::prelude::*;
use vstd::string::StringExecFns;

use crate::consts;
use crate::endpoint::WordCountServer;
use crate::strategy::context::StrategyContext;
use crate::strategy::{times_picked, RouteStrategy};

verus! {

/// Hands out the positions of the snapshot in turn, by a counter that goes up
/// by one with every pick.
pub struct RoundRobin {
    idx: usize,
}

/// The position that round robin picks at counter value `cursor` on a snapshot
/// of `len` endpoints.
pub open spec fn position_at(cursor: nat, len: nat) -> Option<int> {
    if len == 0 {
        None
    } else {
        Some((cursor % len) as int)
    }
}

/// The counter after a pick at `cursor` on a snapshot of `len` endpoints. A pick
/// on an empty snapshot leaves the counter alone; the counter wraps to 0 after
/// `usize::MAX`.
pub open spec fn cursor_after(cursor: nat, len: nat) -> nat {
    if len == 0 {
        cursor
    } else if cursor >= usize::MAX {
        0
    } else {
        cursor + 1
    }
}

/// The positions that `n` picks in a row return on a snapshot of `len`
/// endpoints, the first of them at counter value `cursor`.
pub open spec fn successive_picks(cursor: nat, len: nat, n: nat) -> Seq<Option<int>>
    decreases n,
{
    if n == 0 {
        Seq::empty()
    } else {
        seq![position_at(cursor, len)] + successive_picks(
            cursor_after(cursor, len),
            len,
            (n - 1) as nat,
        )
    }
}

impl RoundRobin {
    /// The value of the counter: the number of the next pick.
    pub closed spec fn cursor(&self) -> nat {
        self.idx as nat
    }

    pub fn new(idx: Option<usize>) -> (strategy: Self)
        ensures
            strategy.cursor() == match idx {
                Some(start) => start as nat,
                None => 0,
            },
    {
        RoundRobin {
            idx: match idx {
                Some(start) => start,
                None => 0,
            },
        }
    }

    pub fn name() -> (name: String)
        ensures
            name@ == consts::ROUND_ROBIN@,
    {
        String::from_str(consts::ROUND_ROBIN)
    }
}

impl Default for RoundRobin {
    fn default() -> (strategy: Self)
        ensures
            strategy.cursor() == 0,
    {
        RoundRobin { idx: 0 }
    }
}

impl RouteStrategy for RoundRobin {
    fn name(&self) -> (name: String)
        ensures
            name@ == consts::ROUND_ROBIN@,
    {
        String::from_str(consts::ROUND_ROBIN)
    }

    fn pick(&mut self, ctx: &StrategyContext, endpoints: &Vec<&WordCountServer>) -> (picked: Option<
        usize,
    >)
        ensures
            picked is None <==> endpoints.len() == 0,
            picked matches Some(i) ==> position_at(old(self).cursor(), endpoints.len() as nat)
                == Some(i as int),
            final(self).cursor() == cursor_after(old(self).cursor(), endpoints.len() as nat),
    {
        if endpoints.len() == 0 {
            return None;
        }
        let curr_idx = self.idx % endpoints.len();
        self.idx = self.idx.wrapping_add(1);
        Some(curr_idx)
    }
}

/// The number of counter values below `bound` that round robin maps to position
/// `i` of `len`.
spec fn hits_below(bound: int, len: int, i: int) -> int {
    (bound + len - 1 - i) / len
}

proof fn lemma_hits_step(cursor: int, len: int, i: int)
    requires
        0 <= cursor,
        0 <= i < len,
    ensures
        hits_below(cursor + 1, len, i) - hits_below(cursor, len, i) == if cursor % len == i {
            1int
        } else {
            0int
        },
{
    let y = cursor + len - 1 - i;
    assert((y + 1) / len - y / len == if (y + 1) % len == 0 {
        1int
    } else {
        0int
    }) by (nonlinear_arith)
        requires
            y >= 0,
            len > 0,
    ;
    assert(((y + 1) % len == 0) <==> (cursor % len == i)) by (nonlinear_arith)
        requires
            y + 1 == cursor + len - i,
            0 <= i < len,
            0 <= cursor,
    ;
}

proof fn lemma_times_picked_closed_form(cursor: nat, len: nat, n: nat, i: int)
    requires
        0 <= i < len,
        cursor + n <= usize::MAX + 1,
    ensures
        times_picked(successive_picks(cursor, len, n), i) == hits_below(
            (cursor + n) as int,
            len as int,
            i,
        ) - hits_below(cursor as int, len as int, i),
    decreases n,
{
    if n > 0 {
        let picks = successive_picks(cursor, len, n);
        let rest = successive_picks(cursor_after(cursor, len), len, (n - 1) as nat);
        assert(picks[0] == position_at(cursor, len));
        assert(picks.drop_first() == rest);
        lemma_hits_step(cursor as int, len as int, i);
        if n > 1 {
            lemma_times_picked_closed_form(cursor + 1, len, (n - 1) as nat, i);
        } else {
            assert(times_picked(rest, i) == 0);
        }
    } else {
        assert(successive_picks(cursor, len, n).len() == 0);
    }
}

/// Over a number of picks in a row that is a multiple of the snapshot's size,
/// round robin picks every position of an unchanged snapshot equally often,
/// as long as the counter does not wrap during the run.
pub proof fn lemma_round_robin_is_fair(cursor: nat, len: nat, n: nat, i: int)
    requires
        len > 0,
        n % len == 0,
        0 <= i < len,
        cursor + n <= usize::MAX + 1,
    ensures
        times_picked(successive_picks(cursor, len, n), i) == n / len,
{
    lemma_times_picked_closed_form(cursor, len, n, i);
    let y = cursor + len - 1 - i;
    let q = n / len;
    assert((y + n) / (len as int) == y / (len as int) + q) by (nonlinear_arith)
        requires
            y >= 0,
            len > 0,
            n % len == 0,
            q == n / len,
    ;
}

/// Between two picks on the same non-empty snapshot round robin moves on by
/// exactly one position, as long as the counter does not wrap in between.
pub proof fn lemma_round_robin_advances_by_one(cursor: nat, len: nat)
    requires
        len > 0,
        cursor < usize::MAX,
    ensures
        position_at(cursor_after(cursor, len), len) == Some(
            ((position_at(cursor, len)->0 + 1) % (len as int)),
        ),
{
    let c = cursor as int;
    let m = len as int;
    assert((c + 1) % m == ((c % m) + 1) % m) by (nonlinear_arith)
        requires
            m > 0,
            c >= 0,
    ;
}

} // verus!
