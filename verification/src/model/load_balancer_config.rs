use vstd::prelude::*;
use vstd::string::StringExecFns;

use crate::consts::DEFAULT_STRATEGY;

verus! {

/// The balancer's own settings: the name of the routing strategy, if one is set.
#[derive(Debug)]
pub struct LBConfig {
    pub strategy: Option<String>,
}

impl LBConfig {
    pub fn new(strategy: Option<String>) -> (config: Self)
        ensures
            config.strategy == strategy,
    {
        LBConfig { strategy }
    }

    /// The name that the configuration stands for: the one it holds, or the
    /// default strategy's where it holds none.
    pub open spec fn strategy_name(&self) -> Seq<char> {
        match self.strategy {
            Some(name) => name@,
            None => DEFAULT_STRATEGY@,
        }
    }

    pub fn strategy(&self) -> (name: String)
        ensures
            name@ == self.strategy_name(),
    {
        match &self.strategy {
            Some(name) => name.clone(),
            None => String::from_str(DEFAULT_STRATEGY),
        }
    }
}

} // verus!
