//! What the command-line client says about a query.

use vstd::prelude::*;
use vstd::string::StringExecFns;

use crate::message::{RequestModel, WordCountRequest, WordCountResponse};
use crate::text::{decimal, decimal_text, signed_decimal, signed_decimal_text};

verus! {

/// A latency of `micros` microseconds in words: the whole milliseconds, a dot,
/// the microseconds left over, and the unit.
pub open spec fn latency_text(micros: nat) -> Seq<char> {
    decimal(micros / 1000) + seq!['.'] + decimal(micros % 1000) + seq![' ', 'm', 's']
}

pub fn fmt_latency(micros: u128) -> (text: String)
    ensures
        text@ == latency_text(micros as nat),
{
    proof {
        reveal_strlit(".");
        reveal_strlit(" ms");
        assert("."@ =~= seq!['.']);
        assert(" ms"@ =~= seq![' ', 'm', 's']);
    }
    let whole = decimal_text(micros / 1000);
    let rest = decimal_text(micros % 1000);
    whole.concat(".").concat(rest.as_str()).concat(" ms")
}

pub const SUCCESS_MARK: &'static str = "\u{2705} ";

pub const FAILURE_MARK: &'static str = "\u{274c} ";

/// The line that reports a query that was answered.
pub open spec fn success_line(
    request: RequestModel,
    count: i64,
    latency: Seq<char>,
    succeed: Seq<char>,
) -> Seq<char> {
    SUCCESS_MARK@ + succeed + " in "@ + latency + ": word '"@ + request.word + "' occur "@
        + signed_decimal(count as int) + " times in "@ + request.file_name + "."@
}

/// The line that reports a query that failed with the error `error`.
pub open spec fn failure_line(request: RequestModel, error: Seq<char>, failed: Seq<char>) -> Seq<
    char,
> {
    FAILURE_MARK@ + failed + ", word: "@ + request.word + ", file: "@ + request.file_name
        + ", err="@ + error
}

/// The line that the client prints for a query. `latency` is the time the query
/// took, already in words; `succeed` and `failed` are the words for the two
/// outcomes, as the terminal is to show them.
pub fn state_message(
    req: &WordCountRequest,
    resp: &Result<WordCountResponse, String>,
    latency: &str,
    succeed: &str,
    failed: &str,
) -> (line: String)
    ensures
        line@ == match resp {
            Ok(r) => success_line(req@, r@.count, latency@, succeed@),
            Err(e) => failure_line(req@, e@, failed@),
        },
{
    match resp {
        Ok(r) => {
            let count = signed_decimal_text(r.count);
            String::from_str(SUCCESS_MARK).concat(succeed).concat(" in ").concat(latency).concat(
                ": word '",
            ).concat(req.word.as_str()).concat("' occur ").concat(count.as_str()).concat(
                " times in ",
            ).concat(req.file_name.as_str()).concat(".")
        },
        Err(e) => String::from_str(FAILURE_MARK).concat(failed).concat(", word: ").concat(
            req.word.as_str(),
        ).concat(", file: ").concat(req.file_name.as_str()).concat(", err=").concat(e.as_str()),
    }
}

/// What the client was asked to do on the command line.
pub enum Commands {
    /// Count the occurrences of one word in a file.
    Count { word: String, file_name: String, with_lb: bool },
    /// Count `batch` words taken at random, one query every `interval`
    /// milliseconds.
    Random { batch: usize, file_name: String, interval: u64, with_lb: bool },
}

impl Commands {
    /// The word to ask for, where the command names one.
    pub fn try_get_query_word(&self) -> (word: Option<String>)
        ensures
            match self {
                Commands::Count { word: w, .. } => word matches Some(s) && s@ == w@,
                Commands::Random { .. } => word is None,
            },
    {
        match self {
            Commands::Count { word, .. } => Some(word.clone()),
            Commands::Random { .. } => None,
        }
    }

    /// The number of queries of a batch, where the command asks for a batch.
    pub fn try_get_batch_num(&self) -> (batch: Option<usize>)
        ensures
            batch == match self {
                Commands::Count { .. } => None::<usize>,
                Commands::Random { batch: b, .. } => Some(*b),
            },
    {
        match self {
            Commands::Count { .. } => None,
            Commands::Random { batch, .. } => Some(*batch),
        }
    }

    /// The milliseconds between two queries of a batch, where the command asks
    /// for a batch.
    pub fn try_get_interval(&self) -> (interval: Option<u64>)
        ensures
            interval == match self {
                Commands::Count { .. } => None::<u64>,
                Commands::Random { interval: i, .. } => Some(*i),
            },
    {
        match self {
            Commands::Count { .. } => None,
            Commands::Random { interval, .. } => Some(*interval),
        }
    }

    pub fn get_file_name(&self) -> (file_name: String)
        ensures
            file_name@ == match self {
                Commands::Count { file_name: f, .. } => f@,
                Commands::Random { file_name: f, .. } => f@,
            },
    {
        match self {
            Commands::Count { file_name, .. } => file_name.clone(),
            Commands::Random { file_name, .. } => file_name.clone(),
        }
    }

    /// Whether the queries go through the balancer.
    pub fn with_lb(&self) -> (through_balancer: bool)
        ensures
            through_balancer == match self {
                Commands::Count { with_lb: l, .. } => *l,
                Commands::Random { with_lb: l, .. } => *l,
            },
    {
        match self {
            Commands::Count { with_lb, .. } => *with_lb,
            Commands::Random { with_lb, .. } => *with_lb,
        }
    }

    /// The query for `word` in the file that the command names.
    pub fn build_request(&self, word: String) -> (request: WordCountRequest)
        ensures
            request@.word == word@,
            request@.file_name == match self {
                Commands::Count { file_name: f, .. } => f@,
                Commands::Random { file_name: f, .. } => f@,
            },
    {
        WordCountRequest::new(word, self.get_file_name())
    }
}

/// The mean latency of a batch in milliseconds, rounded down: `None` for a
/// batch without queries.
pub fn average_latency_ms(total_latency_ms: u64, queries: usize) -> (average: Option<u64>)
    ensures
        average == if queries == 0 {
            None::<u64>
        } else {
            Some((total_latency_ms as nat / queries as nat) as u64)
        },
{
    if queries == 0 {
        None
    } else {
        Some(total_latency_ms / (queries as u64))
    }
}

} // verus!
