use vstd::prelude::*;

verus! {

/// What a strategy may look at besides the endpoints: the raw request payload.
pub struct StrategyContext {
    req: String,
}

impl View for StrategyContext {
    type V = Seq<char>;

    closed spec fn view(&self) -> Seq<char> {
        self.req@
    }
}

impl StrategyContext {
    pub fn new(req: String) -> (ctx: Self)
        ensures
            ctx@ == req@,
    {
        StrategyContext { req }
    }

    pub fn req(&self) -> (req: &str)
        ensures
            req@ == self@,
    {
        self.req.as_str()
    }
}

} // verus!
