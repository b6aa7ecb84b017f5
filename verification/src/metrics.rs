//! The tally of one query: who served it, which operation it was, and whether
//! it succeeded.

use vstd::prelude::*;
use vstd::string::StringExecFns;

verus! {

/// Name of the counter family that counts the queries.
pub const COUNTER_QUERY: &'static str = "query";

/// Name of the histogram family that records the latencies.
pub const COUNTER_LATENCY: &'static str = "latency";

/// Value of the label `success` for a query that succeeded.
pub const LABEL_TRUE: &'static str = "true";

/// Value of the label `success` for a query that failed.
pub const LABEL_FALSE: &'static str = "false";

/// Watches over one query. It counts as failed until it is marked as
/// succeeded; what it ends as is recorded once, when it is taken down.
pub struct QueryCounter {
    query_success: bool,
    server_name: String,
    handler: String,
}

/// What one query adds to the metrics: the labels of the one counter that goes
/// up and of the one latency that is observed. The latency measured under the
/// other value of `success` is thrown away.
pub struct QuerySample {
    pub server_name: String,
    pub handler: String,
    pub success: bool,
}

impl QuerySample {
    /// The value of the label `success`.
    pub fn success_label(&self) -> (label: &'static str)
        ensures
            label@ == if self.success {
                LABEL_TRUE@
            } else {
                LABEL_FALSE@
            },
    {
        if self.success {
            LABEL_TRUE
        } else {
            LABEL_FALSE
        }
    }
}

impl QueryCounter {
    /// The name of the endpoint that the query went to.
    pub closed spec fn server_name(&self) -> Seq<char> {
        self.server_name@
    }

    /// The operation that was asked for.
    pub closed spec fn handler(&self) -> Seq<char> {
        self.handler@
    }

    /// Whether the query was marked as succeeded.
    pub closed spec fn succeeded(&self) -> bool {
        self.query_success
    }

    pub fn new(server_name: &str, handler: &str) -> (guard: Self)
        ensures
            guard.server_name() == server_name@,
            guard.handler() == handler@,
            !guard.succeeded(),
    {
        QueryCounter {
            query_success: false,
            server_name: String::from_str(server_name),
            handler: String::from_str(handler),
        }
    }

    pub fn mark_success(&mut self)
        ensures
            final(self).succeeded(),
            final(self).server_name() == old(self).server_name(),
            final(self).handler() == old(self).handler(),
    {
        self.query_success = true;
    }

    /// Takes the guard down and says what is to be recorded for its query.
    pub fn finish(self) -> (sample: QuerySample)
        ensures
            sample.server_name@ == self.server_name(),
            sample.handler@ == self.handler(),
            sample.success == self.succeeded(),
    {
        QuerySample {
            server_name: self.server_name,
            handler: self.handler,
            success: self.query_success,
        }
    }
}

} // verus!
