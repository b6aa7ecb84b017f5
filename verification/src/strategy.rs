//! Routing strategies: each picks one endpoint out of a snapshot of healthy ones.

use vstd::prelude::*;
use vstd::string::StringExecFns;

use crate::consts::{HASH_BY_REQUEST, WEIGHTED_ROUND_ROBIN};
use crate::endpoint::{weights_of, WordCountServer};
use crate::model::load_balancer_config::LBConfig;
use crate::strategy::context::StrategyContext;
use crate::strategy::hash_lb::{hashed_position, HashByRequest};
use crate::strategy::round_robin::{cursor_after, position_at, RoundRobin};
use crate::strategy::weighted_round_robin::{max_of, next_pick, Scan, WeightedRoundRobin};

pub mod context;
pub mod hash_lb;
pub mod round_robin;
pub mod weighted_cycle;
pub mod weighted_round_robin;

verus! {

/// A way to choose the endpoint that serves a request.
///
/// `pick` answers with a position in `endpoints`, the snapshot of the healthy
/// endpoints at the moment of the pick. A strategy may keep state between
/// picks. Each implementation states which position it picks.
pub trait RouteStrategy {
    fn name(&self) -> (name: String);

    fn pick(&mut self, ctx: &StrategyContext, endpoints: &Vec<&WordCountServer>) -> (picked: Option<
        usize,
    >)
        ensures
            endpoints.len() == 0 ==> picked is None,
            picked matches Some(i) ==> i < endpoints.len(),
    ;
}

/// How often position `i` occurs in a run of picks.
pub open spec fn times_picked(picks: Seq<Option<int>>, i: int) -> nat
    decreases picks.len(),
{
    if picks.len() == 0 {
        0
    } else {
        let rest = times_picked(picks.drop_first(), i);
        if picks[0] == Some(i) {
            rest + 1
        } else {
            rest
        }
    }
}

/// One of the strategies that the configuration can name.
pub enum Strategy {
    RoundRobin(RoundRobin),
    WeightedRoundRobin(WeightedRoundRobin),
    HashByRequest(HashByRequest),
}

/// What a strategy is to its contracts: its kind, and the state it keeps
/// between picks.
pub enum StrategyModel {
    RoundRobin { cursor: nat },
    WeightedRoundRobin { state: Scan },
    HashByRequest,
}

/// The position that a strategy in state `model` picks for the payload `req` on
/// the snapshot `endpoints`, and the state it is in afterwards.
pub open spec fn route(model: StrategyModel, req: Seq<char>, endpoints: Seq<&WordCountServer>) -> (
    Option<int>,
    StrategyModel,
) {
    match model {
        StrategyModel::RoundRobin { cursor } => (
            position_at(cursor, endpoints.len()),
            StrategyModel::RoundRobin { cursor: cursor_after(cursor, endpoints.len()) },
        ),
        StrategyModel::WeightedRoundRobin { state } => {
            let (picked, next) = next_pick(weights_of(endpoints), state);
            (picked, StrategyModel::WeightedRoundRobin { state: next })
        },
        StrategyModel::HashByRequest => (
            hashed_position(req, endpoints.len()),
            StrategyModel::HashByRequest,
        ),
    }
}

/// Every pick lands inside the snapshot, and an empty snapshot yields none.
/// Round robin and routing by hash find an endpoint in every snapshot that is
/// not empty; weighted round robin finds one as soon as some endpoint carries
/// a positive weight.
pub proof fn lemma_route_picks_from_snapshot(
    model: StrategyModel,
    req: Seq<char>,
    endpoints: Seq<&WordCountServer>,
)
    ensures
        endpoints.len() == 0 ==> route(model, req, endpoints).0 is None,
        !(model is WeightedRoundRobin) ==> (route(model, req, endpoints).0 is None
            <==> endpoints.len() == 0),
        model is WeightedRoundRobin ==> (route(model, req, endpoints).0 is None <==> max_of(
            weights_of(endpoints),
        ) == 0),
{
}

impl View for Strategy {
    type V = StrategyModel;

    open spec fn view(&self) -> StrategyModel {
        match self {
            Strategy::RoundRobin(strategy) => StrategyModel::RoundRobin {
                cursor: strategy.cursor(),
            },
            Strategy::WeightedRoundRobin(strategy) => StrategyModel::WeightedRoundRobin {
                state: strategy.state(),
            },
            Strategy::HashByRequest(_) => StrategyModel::HashByRequest,
        }
    }
}

impl RouteStrategy for Strategy {
    fn name(&self) -> (name: String)
        ensures
            name@ == match self@ {
                StrategyModel::RoundRobin { .. } => crate::consts::ROUND_ROBIN@,
                StrategyModel::WeightedRoundRobin { .. } => WEIGHTED_ROUND_ROBIN@,
                StrategyModel::HashByRequest => HASH_BY_REQUEST@,
            },
    {
        match self {
            Strategy::RoundRobin(strategy) => strategy.name(),
            Strategy::WeightedRoundRobin(strategy) => strategy.name(),
            Strategy::HashByRequest(strategy) => strategy.name(),
        }
    }

    fn pick(&mut self, ctx: &StrategyContext, endpoints: &Vec<&WordCountServer>) -> (picked: Option<
        usize,
    >)
        ensures
            match picked {
                Some(i) => route(old(self)@, ctx@, endpoints@).0 == Some(i as int),
                None => route(old(self)@, ctx@, endpoints@).0 is None,
            },
            final(self)@ == route(old(self)@, ctx@, endpoints@).1,
    {
        match self {
            Strategy::RoundRobin(strategy) => strategy.pick(ctx, endpoints),
            Strategy::WeightedRoundRobin(strategy) => strategy.pick(ctx, endpoints),
            Strategy::HashByRequest(strategy) => strategy.pick(ctx, endpoints),
        }
    }
}

/// The strategy that a configuration names. A name that is none of the known
/// ones stands for round robin.
pub fn create_strategy(config: &LBConfig) -> (strategy: Strategy)
    ensures
        strategy@ == if config.strategy_name() == WEIGHTED_ROUND_ROBIN@ {
            StrategyModel::WeightedRoundRobin { state: Scan { idx: 0, level: 0 } }
        } else if config.strategy_name() == HASH_BY_REQUEST@ {
            StrategyModel::HashByRequest
        } else {
            StrategyModel::RoundRobin { cursor: 0 }
        },
{
    let name = config.strategy();
    if name == String::from_str(WEIGHTED_ROUND_ROBIN) {
        Strategy::WeightedRoundRobin(WeightedRoundRobin::new())
    } else if name == String::from_str(HASH_BY_REQUEST) {
        Strategy::HashByRequest(HashByRequest::new())
    } else {
        Strategy::RoundRobin(RoundRobin::new(None))
    }
}

} // verus!
