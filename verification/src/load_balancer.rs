//! The balancer's core: the roster, the routing strategy, and the turns of the
//! health-maintenance loop.

use vstd::prelude::*;
use vstd::string::StringExecFns;

use crate::consts::HEALTH_CHECK_INTERVAL_MS;
use crate::endpoint::{serving_code, WordCountServer};
use crate::error::ErrorKind;
use crate::strategy::context::StrategyContext;
use crate::strategy::{route, RouteStrategy, Strategy, StrategyModel};

verus! {

/// Why a request could not be routed.
#[derive(Clone, Copy, Debug, PartialEq, Eq, Structural)]
pub enum LoadBalancerError {
    /// No endpoint of the roster could be picked.
    NoEndpoint,
}

pub const NO_ENDPOINT_MESSAGE: &'static str = "assign endpoint failed, no proper endpoint found";

impl LoadBalancerError {
    /// A request without an endpoint is a failed routing.
    pub fn kind(&self) -> (kind: ErrorKind)
        ensures
            kind == ErrorKind::Routing,
    {
        ErrorKind::Routing
    }

    pub fn message(&self) -> (text: String)
        ensures
            text@ == NO_ENDPOINT_MESSAGE@,
    {
        String::from_str(NO_ENDPOINT_MESSAGE)
    }
}

/// What one turn of the health-maintenance loop has to do.
#[derive(Clone, Copy, Debug, PartialEq, Eq, Structural)]
pub enum HealthRound {
    /// A stop was signalled: the loop ends.
    Stop,
    /// Probe each of the `endpoints` endpoints of the roster, hand every
    /// outcome to `health_check`, then pause for `pause_ms` milliseconds.
    Probe { endpoints: usize, pause_ms: u64 },
}

/// The roster positions of the healthy endpoints, in roster order.
pub open spec fn healthy_positions(endpoints: Seq<WordCountServer>) -> Seq<int>
    decreases endpoints.len(),
{
    if endpoints.len() == 0 {
        Seq::empty()
    } else {
        let before = healthy_positions(endpoints.drop_last());
        if endpoints.last().healthy() {
            before.push(endpoints.len() - 1)
        } else {
            before
        }
    }
}

/// The healthy endpoints, in roster order: what a strategy gets to pick from.
pub open spec fn healthy_snapshot<'a>(endpoints: Seq<WordCountServer>) -> Seq<&'a WordCountServer> {
    healthy_positions(endpoints).map_values(|i: int| &endpoints[i])
}

/// The healthy positions are positions of the roster, in rising order, and they
/// are exactly the positions of the healthy endpoints.
pub proof fn lemma_healthy_positions(endpoints: Seq<WordCountServer>)
    ensures
        forall|j: int|
            0 <= j < healthy_positions(endpoints).len() ==> 0 <= (#[trigger] healthy_positions(
                endpoints,
            )[j]) < endpoints.len() && endpoints[healthy_positions(endpoints)[j]].healthy(),
        forall|j: int, k: int|
            0 <= j < k < healthy_positions(endpoints).len() ==> healthy_positions(endpoints)[j]
                < healthy_positions(endpoints)[k],
        forall|i: int|
            0 <= i < endpoints.len() && (#[trigger] endpoints[i]).healthy()
                ==> healthy_positions(endpoints).contains(i),
    decreases endpoints.len(),
{
    if endpoints.len() > 0 {
        let init = endpoints.drop_last();
        let before = healthy_positions(init);
        let all = healthy_positions(endpoints);
        lemma_healthy_positions(init);
        assert forall|i: int| 0 <= i < endpoints.len() && (#[trigger] endpoints[i]).healthy()
            implies all.contains(i) by {
            if i < init.len() {
                assert(init[i].healthy());
                let j = choose|j: int| 0 <= j < before.len() && before[j] == i;
                assert(all[j] == i);
            } else {
                assert(all[all.len() - 1] == i);
            }
        }
    }
}

/// The balancer: the endpoints in configuration order, the strategy that picks
/// among the healthy ones, and the stop signal of the health-maintenance loop.
pub struct LoadBalancerImpl {
    endpoints: Vec<WordCountServer>,
    router_strategy: Strategy,
    close_signal: bool,
}

impl LoadBalancerImpl {
    /// The roster, in configuration order.
    pub closed spec fn endpoints(&self) -> Seq<WordCountServer> {
        self.endpoints@
    }

    /// The strategy in use and its state.
    pub closed spec fn strategy(&self) -> StrategyModel {
        self.router_strategy@
    }

    /// Whether a stop of the health-maintenance loop is signalled and not yet
    /// taken up.
    pub closed spec fn stop_signalled(&self) -> bool {
        self.close_signal
    }

    pub fn new(endpoints: Vec<WordCountServer>, strategy: Strategy) -> (balancer: Self)
        ensures
            balancer.endpoints() == endpoints@,
            balancer.strategy() == strategy@,
            !balancer.stop_signalled(),
    {
        LoadBalancerImpl { endpoints, router_strategy: strategy, close_signal: false }
    }

    pub fn set_strategy(&mut self, strategy: Strategy)
        ensures
            final(self).strategy() == strategy@,
            final(self).endpoints() == old(self).endpoints(),
            final(self).stop_signalled() == old(self).stop_signalled(),
    {
        self.router_strategy = strategy;
    }

    fn healthy_of(endpoints: &Vec<WordCountServer>) -> (found: (Vec<usize>, Vec<&WordCountServer>))
        ensures
            found.0@.map_values(|p: usize| p as int) == healthy_positions(endpoints@),
            found.1@ == healthy_snapshot(endpoints@),
    {
        let mut positions: Vec<usize> = Vec::new();
        let mut snapshot: Vec<&WordCountServer> = Vec::new();
        let mut i: usize = 0;
        while i < endpoints.len()
            invariant
                i <= endpoints.len(),
                positions@.map_values(|p: usize| p as int) == healthy_positions(
                    endpoints@.take(i as int),
                ),
                snapshot@ == healthy_snapshot(endpoints@.take(i as int)),
            decreases endpoints.len() - i,
        {
            let ghost before = endpoints@.take(i as int);
            let ghost upto = endpoints@.take(i + 1);
            proof {
                assert(upto.drop_last() == before);
                lemma_healthy_positions(before);
                assert(healthy_snapshot(before) == healthy_positions(before).map_values(
                    |j: int| &upto[j],
                ));
            }
            if endpoints[i].health_report() {
                positions.push(i);
                snapshot.push(&endpoints[i]);
                proof {
                    assert(positions@.map_values(|p: usize| p as int) == healthy_positions(
                        before,
                    ).push(i as int));
                    assert(snapshot@ == healthy_snapshot(upto));
                }
            }
            i += 1;
        }
        assert(endpoints@.take(i as int) == endpoints@);
        (positions, snapshot)
    }

    /// The healthy endpoints at this moment, in roster order.
    pub fn filter_healthy_endpoints(&self) -> (snapshot: Vec<&WordCountServer>)
        ensures
            snapshot@ == healthy_snapshot(self.endpoints()),
    {
        Self::healthy_of(&self.endpoints).1
    }

    /// The roster position that the strategy's pick `picked` on the healthy
    /// snapshot stands for.
    pub open spec fn roster_position(endpoints: Seq<WordCountServer>, picked: Option<int>) -> Option<
        int,
    > {
        match picked {
            Some(j) => Some(healthy_positions(endpoints)[j]),
            None => None,
        }
    }

    /// Lets the strategy pick among the healthy endpoints and answers with the
    /// roster position of the endpoint picked.
    pub fn pick_endpoint(&mut self, ctx: &StrategyContext) -> (picked: Option<usize>)
        ensures
            match picked {
                Some(i) => Self::roster_position(
                    old(self).endpoints(),
                    route(old(self).strategy(), ctx@, healthy_snapshot(old(self).endpoints())).0,
                ) == Some(i as int) && i < old(self).endpoints().len() && old(
                    self,
                ).endpoints()[i as int].healthy(),
                None => route(
                    old(self).strategy(),
                    ctx@,
                    healthy_snapshot(old(self).endpoints()),
                ).0 is None,
            },
            final(self).strategy() == route(
                old(self).strategy(),
                ctx@,
                healthy_snapshot(old(self).endpoints()),
            ).1,
            final(self).endpoints() == old(self).endpoints(),
            final(self).stop_signalled() == old(self).stop_signalled(),
    {
        let (positions, snapshot) = Self::healthy_of(&self.endpoints);
        proof {
            lemma_healthy_positions(self.endpoints@);
        }
        match self.router_strategy.pick(ctx, &snapshot) {
            Some(j) => {
                assert(positions@.map_values(|p: usize| p as int)[j as int] == positions[j as int]);
                Some(positions[j])
            },
            None => None,
        }
    }

    /// Routes one request: the roster position of the endpoint that is to
    /// serve it, or the error that no endpoint can.
    pub fn handle(&mut self, req: &str) -> (target: Result<usize, LoadBalancerError>)
        ensures
            match target {
                Ok(i) => Self::roster_position(
                    old(self).endpoints(),
                    route(old(self).strategy(), req@, healthy_snapshot(old(self).endpoints())).0,
                ) == Some(i as int) && i < old(self).endpoints().len() && old(
                    self,
                ).endpoints()[i as int].healthy(),
                Err(e) => e == LoadBalancerError::NoEndpoint && route(
                    old(self).strategy(),
                    req@,
                    healthy_snapshot(old(self).endpoints()),
                ).0 is None,
            },
            final(self).strategy() == route(
                old(self).strategy(),
                req@,
                healthy_snapshot(old(self).endpoints()),
            ).1,
            final(self).endpoints() == old(self).endpoints(),
            final(self).stop_signalled() == old(self).stop_signalled(),
    {
        let ctx = Self::build_strategy_ctx(String::from_str(req));
        match self.pick_endpoint(&ctx) {
            Some(i) => Ok(i),
            None => Err(LoadBalancerError::NoEndpoint),
        }
    }

    fn build_strategy_ctx(req: String) -> (ctx: StrategyContext)
        ensures
            ctx@ == req@,
    {
        StrategyContext::new(req)
    }

    /// One turn of the health-maintenance loop, taken between two rounds of
    /// probes: it takes up a stop that was signalled, or asks for the next round.
    pub fn health_maintain(&mut self) -> (round: HealthRound)
        ensures
            round == if old(self).stop_signalled() {
                HealthRound::Stop
            } else {
                HealthRound::Probe {
                    endpoints: old(self).endpoints().len() as usize,
                    pause_ms: HEALTH_CHECK_INTERVAL_MS,
                }
            },
            !final(self).stop_signalled(),
            final(self).endpoints() == old(self).endpoints(),
            final(self).strategy() == old(self).strategy(),
    {
        if self.close_signal {
            self.close_signal = false;
            HealthRound::Stop
        } else {
            HealthRound::Probe { endpoints: self.endpoints.len(), pause_ms: HEALTH_CHECK_INTERVAL_MS }
        }
    }

    /// Signals the health-maintenance loop to stop at its next turn.
    pub fn stop_health_maintain(&mut self)
        ensures
            final(self).stop_signalled(),
            final(self).endpoints() == old(self).endpoints(),
            final(self).strategy() == old(self).strategy(),
    {
        self.close_signal = true;
    }

    /// Takes in the outcome of the probe of the endpoint at roster position
    /// `index` (see `WordCountServer::health_check`). Returns whether the probe
    /// counts as a successful query; a position outside the roster changes
    /// nothing.
    pub fn health_check(&mut self, index: usize, probe: Option<i32>) -> (answered: bool)
        ensures
            answered == (index < old(self).endpoints().len() && probe.is_some()),
            final(self).endpoints().len() == old(self).endpoints().len(),
            forall|i: int|
                0 <= i < old(self).endpoints().len() ==> (#[trigger] final(self).endpoints()[i]).config()
                    == old(self).endpoints()[i].config() && final(self).endpoints()[i].healthy() == if i
                    == index {
                    probe == Some(serving_code())
                } else {
                    old(self).endpoints()[i].healthy()
                },
            final(self).strategy() == old(self).strategy(),
            final(self).stop_signalled() == old(self).stop_signalled(),
    {
        if index >= self.endpoints.len() {
            return false;
        }
        self.endpoints[index].health_check(probe)
    }
}

} // verus!
