//! The counting backend: what it refuses, how it names its cache entries, what
//! it takes from the two levels of its cache and what it writes back, and the
//! course of one `Count` call from request to response.

use std::path::Path;
use vstd::prelude::*;
use vstd::string::StringExecFns;

use crate::client::{fmt_latency, latency_text};
use crate::error::ErrorKind;
use crate::message::{RequestModel, ResponseModel, WordCountRequest, WordCountResponse};
use crate::text::{decimal, decimal_text, signed_decimal, signed_decimal_text};

verus! {

/// The count that stands for "not found" and "could not be counted". It is
/// never written to a cache.
pub const FAILED: i64 = -1;

/// Seconds that the remote cache keeps the count of a word that does not occur.
pub const TTL_ABSENT_SECS: u64 = 30;

/// Seconds that the remote cache keeps the count of a word that occurs.
pub const TTL_PRESENT_SECS: u64 = 300;

/// Directory of the text files where none is configured.
pub const DEFAULT_TEXT_ROOT: &'static str = "../texts";

/// Size budget of the local cache in bytes: 32 MiB.
pub const LOCAL_CACHE_BYTES: u64 = 0x200_0000;

/// Status message of a response that carries a count.
pub const OK_MESSAGE: &'static str = "ok";

/// The stem that `Path::file_stem` of the standard library finds in a file
/// name: the last component of the path without its extension, or nothing
/// where the path has no last component. What counts as a component follows
/// the path syntax of the platform that the library is built for.
pub uninterp spec fn path_stem(file_name: Seq<char>) -> Option<Seq<char>>;

/// `Path::file_stem` of the standard library, applied to a file name given as
/// text and handed back as text: the result is the stem named `path_stem`. The
/// stem of a text is itself text, so the conversion back loses nothing.
#[verifier::external_body]
fn file_stem(file_name: &str) -> (stem: Option<String>)
    ensures
        match stem {
            Some(s) => path_stem(file_name@) == Some(s@),
            None => path_stem(file_name@) is None,
        },
{
    Path::new(file_name).file_stem().and_then(|stem| stem.to_str()).map(String::from)
}

/// Why the backend refuses a request before it looks anything up.
#[derive(Clone, Copy, Debug, PartialEq, Eq, Structural)]
pub enum ParamError {
    EmptyWord,
    EmptyFileName,
    InvalidFileName,
    FileNotExist,
}

pub const EMPTY_WORD_MESSAGE: &'static str = "invalid request: empty query word";

pub const EMPTY_FILE_NAME_MESSAGE: &'static str = "invalid request: empty file name";

pub const INVALID_FILE_NAME_MESSAGE: &'static str = "invalid request: invalid file name: ";

pub const FILE_NOT_EXIST_MESSAGE: &'static str = "invalid request: file not exist: ";

impl ParamError {
    /// A refused request is a failed validation.
    pub fn kind(&self) -> (kind: ErrorKind)
        ensures
            kind == ErrorKind::Validation,
    {
        ErrorKind::Validation
    }

    /// The refusal in words, for the request that named the file `file_name`.
    pub fn message(&self, file_name: &str) -> (text: String)
        ensures
            text@ == match self {
                ParamError::EmptyWord => EMPTY_WORD_MESSAGE@,
                ParamError::EmptyFileName => EMPTY_FILE_NAME_MESSAGE@,
                ParamError::InvalidFileName => INVALID_FILE_NAME_MESSAGE@ + file_name@,
                ParamError::FileNotExist => FILE_NOT_EXIST_MESSAGE@ + file_name@,
            },
    {
        match self {
            ParamError::EmptyWord => String::from_str(EMPTY_WORD_MESSAGE),
            ParamError::EmptyFileName => String::from_str(EMPTY_FILE_NAME_MESSAGE),
            ParamError::InvalidFileName => String::from_str(INVALID_FILE_NAME_MESSAGE).concat(
                file_name,
            ),
            ParamError::FileNotExist => String::from_str(FILE_NOT_EXIST_MESSAGE).concat(file_name),
        }
    }
}

/// The outcome of validating a request whose file does or does not exist.
pub open spec fn validated(request: RequestModel, file_exists: bool) -> Result<(), ParamError> {
    if request.word.len() == 0 {
        Err(ParamError::EmptyWord)
    } else if request.file_name.len() == 0 {
        Err(ParamError::EmptyFileName)
    } else if path_stem(request.file_name) is None {
        Err(ParamError::InvalidFileName)
    } else if !file_exists {
        Err(ParamError::FileNotExist)
    } else {
        Ok(())
    }
}

impl WordCountRequest {
    /// Where the file of the request lies below the directory `text_root`.
    pub fn get_file_path(&self, text_root: &str) -> (path: String)
        ensures
            path@ == text_root@ + seq!['/'] + self@.file_name,
    {
        proof {
            reveal_strlit("/");
            assert("/"@ =~= seq!['/']);
        }
        String::from_str(text_root).concat("/").concat(self.file_name.as_str())
    }

    /// The stem of the file name.
    pub fn get_file_name(&self) -> (stem: Option<String>)
        ensures
            match stem {
                Some(s) => path_stem(self@.file_name) == Some(s@),
                None => path_stem(self@.file_name) is None,
            },
    {
        file_stem(self.file_name.as_str())
    }

    /// Validates the request. `file_exists` says whether the file that
    /// `get_file_path` names is there.
    pub fn check_params(&self, file_exists: bool) -> (outcome: Result<(), ParamError>)
        ensures
            outcome == validated(self@, file_exists),
    {
        if self.word.as_str().is_empty() {
            return Err(ParamError::EmptyWord);
        }
        if self.file_name.as_str().is_empty() {
            return Err(ParamError::EmptyFileName);
        }
        if self.get_file_name().is_none() {
            return Err(ParamError::InvalidFileName);
        }
        if !file_exists {
            return Err(ParamError::FileNotExist);
        }
        Ok(())
    }
}

/// What the remote cache answered to a `GET`.
#[derive(Clone, Copy, Debug, PartialEq, Eq, Structural)]
pub enum RemoteReply {
    /// The key is there, with this value.
    Present(i64),
    /// The key is not there.
    Absent,
    /// The cache could not be asked.
    TransportError,
}

/// A value to put under a key on both levels of the cache, on the remote level
/// for `ttl_secs` seconds.
pub struct CacheWrite {
    pub key: String,
    pub value: i64,
    pub ttl_secs: u64,
}

pub struct CacheWriteModel {
    pub key: Seq<char>,
    pub value: i64,
    pub ttl_secs: u64,
}

impl View for CacheWrite {
    type V = CacheWriteModel;

    open spec fn view(&self) -> CacheWriteModel {
        CacheWriteModel { key: self.key@, value: self.value, ttl_secs: self.ttl_secs }
    }
}

/// Name of the command that reads a key of the remote cache.
pub const GET: &'static str = "GET";

/// Name of the command that writes a key of the remote cache.
pub const SET: &'static str = "SET";

/// The option of `SET` that gives the time to live in seconds.
pub const EX: &'static str = "EX";

/// The words of the command that reads `key` from the remote cache.
pub open spec fn get_command(key: Seq<char>) -> Seq<Seq<char>> {
    seq![GET@, key]
}

/// The words of the command that carries a write to the remote cache: the key,
/// the value in decimal digits, and the seconds it is to be kept.
pub open spec fn set_command(write: CacheWriteModel) -> Seq<Seq<char>> {
    seq![
        SET@,
        write.key,
        signed_decimal(write.value as int),
        EX@,
        decimal(write.ttl_secs as nat),
    ]
}

impl CacheWrite {
    /// The command that carries the write to the remote cache, word by word.
    pub fn remote_command(&self) -> (words: Vec<String>)
        ensures
            words@.map_values(|w: String| w@) == set_command(self@),
    {
        let mut words: Vec<String> = Vec::new();
        words.push(String::from_str(SET));
        words.push(self.key.clone());
        words.push(signed_decimal_text(self.value));
        words.push(String::from_str(EX));
        words.push(decimal_text(self.ttl_secs as u128));
        assert(words@.map_values(|w: String| w@) =~= set_command(self@));
        words
    }
}

/// The key of the cache entry for a word in the file with the stem `stem`.
pub open spec fn key_of(stem: Seq<char>, word: Seq<char>) -> Seq<char> {
    stem + seq![':'] + word
}

/// The seconds that the remote cache keeps a count; nothing for a count that
/// is no count and is not kept.
pub open spec fn ttl_of(value: i64) -> Option<u64> {
    if value < 0 {
        None
    } else if value == 0 {
        Some(TTL_ABSENT_SECS)
    } else {
        Some(TTL_PRESENT_SECS)
    }
}

/// What is written back to the cache for `value` under `key`.
pub open spec fn write_of(key: Seq<char>, value: i64) -> Option<CacheWriteModel> {
    match ttl_of(value) {
        Some(ttl_secs) => Some(CacheWriteModel { key, value, ttl_secs }),
        None => None,
    }
}

/// The response that carries `count`.
pub open spec fn response_of(count: i64) -> ResponseModel {
    ResponseModel { count, status_code: 0, status_message: OK_MESSAGE@, log_id: Seq::empty() }
}

/// The count that an answer of the remote cache stands for: the value it holds
/// if that is a count, `FAILED` else.
pub open spec fn remote_value(reply: RemoteReply) -> i64 {
    match reply {
        RemoteReply::Present(v) => if v >= 0 {
            v
        } else {
            FAILED
        },
        RemoteReply::Absent => FAILED,
        RemoteReply::TransportError => FAILED,
    }
}

/// What the local cache keeps of a value that was loaded from the remote
/// cache: the value if it is a count, nothing else.
pub open spec fn kept_locally(loaded: i64) -> Option<i64> {
    if loaded >= 0 {
        Some(loaded)
    } else {
        None
    }
}

/// What a read of the cache comes to when the local level holds `local` for the
/// key and the remote level would answer `remote`: the local entry where
/// there is one, else what is loaded from the remote level.
pub open spec fn read_path(local: Option<i64>, remote: RemoteReply) -> i64 {
    cache_answer(
        match local {
            Some(v) => Some(v),
            None => kept_locally(remote_value(remote)),
        },
    )
}

/// What the cache answers when its local level holds or has loaded `entry`: the
/// count, or `FAILED` where there is none.
pub open spec fn cache_answer(entry: Option<i64>) -> i64 {
    match entry {
        Some(v) => if v >= 0 {
            v
        } else {
            FAILED
        },
        None => FAILED,
    }
}

/// The count that a scan of the file ends in: the count it found, or `FAILED`
/// where the file could not be read.
pub open spec fn scanned_value(count: Option<i64>) -> i64 {
    match count {
        Some(c) => if c >= 0 {
            c
        } else {
            FAILED
        },
        None => FAILED,
    }
}

/// How far a `Count` call has come.
pub enum CountState {
    /// The request has not been looked at yet.
    Received,
    /// The cache is being asked for `key`.
    Lookup { request: WordCountRequest, key: String },
    /// The cache did not have the count; the file is being scanned.
    Scan { key: String },
    /// The call has been answered.
    Done,
}

/// What happened since the last action of a `Count` call.
pub enum CountEvent {
    /// The request came in; `file_exists` says whether its file is there.
    Request { request: WordCountRequest, file_exists: bool },
    /// The cache answered: a count, or `FAILED` for a miss.
    Cached { value: i64 },
    /// The scan ended: with a count, or without one where it failed.
    Scanned { count: Option<i64> },
}

/// What a `Count` call has to do next.
pub enum CountAction {
    /// Refuse the request as a failed precondition.
    Reject { error: ParamError },
    /// Ask the cache for `key`.
    Consult { key: String },
    /// Count `word` in the file `file_name`.
    ScanFile { word: String, file_name: String },
    /// Write `write` to the cache, if there is one, and answer with `response`.
    Respond { response: WordCountResponse, write: Option<CacheWrite> },
    /// Do nothing: the event does not belong to the state the call is in.
    Ignore,
}

pub enum CountStateModel {
    Received,
    Lookup { request: RequestModel, key: Seq<char> },
    Scan { key: Seq<char> },
    Done,
}

pub enum CountEventModel {
    Request { request: RequestModel, file_exists: bool },
    Cached { value: i64 },
    Scanned { count: Option<i64> },
}

pub enum CountActionModel {
    Reject { error: ParamError },
    Consult { key: Seq<char> },
    ScanFile { word: Seq<char>, file_name: Seq<char> },
    Respond { response: ResponseModel, write: Option<CacheWriteModel> },
    Ignore,
}

impl View for CountState {
    type V = CountStateModel;

    open spec fn view(&self) -> CountStateModel {
        match self {
            CountState::Received => CountStateModel::Received,
            CountState::Lookup { request, key } => CountStateModel::Lookup {
                request: request@,
                key: key@,
            },
            CountState::Scan { key } => CountStateModel::Scan { key: key@ },
            CountState::Done => CountStateModel::Done,
        }
    }
}

impl View for CountEvent {
    type V = CountEventModel;

    open spec fn view(&self) -> CountEventModel {
        match self {
            CountEvent::Request { request, file_exists } => CountEventModel::Request {
                request: request@,
                file_exists: *file_exists,
            },
            CountEvent::Cached { value } => CountEventModel::Cached { value: *value },
            CountEvent::Scanned { count } => CountEventModel::Scanned { count: *count },
        }
    }
}

impl View for CountAction {
    type V = CountActionModel;

    open spec fn view(&self) -> CountActionModel {
        match self {
            CountAction::Reject { error } => CountActionModel::Reject { error: *error },
            CountAction::Consult { key } => CountActionModel::Consult { key: key@ },
            CountAction::ScanFile { word, file_name } => CountActionModel::ScanFile {
                word: word@,
                file_name: file_name@,
            },
            CountAction::Respond { response, write } => CountActionModel::Respond {
                response: response@,
                write: match write {
                    Some(w) => Some(w@),
                    None => None,
                },
            },
            CountAction::Ignore => CountActionModel::Ignore,
        }
    }
}

/// The course of a `Count` call. A request that does not pass validation is
/// refused. Else the cache is asked for the key of the request; a count from
/// the cache is the answer; on a miss the file is scanned, what the scan
/// found is written back to the cache unless it is `FAILED`, and it is the
/// answer either way. An event that the state does not wait for changes
/// nothing.
pub open spec fn count_step(state: CountStateModel, event: CountEventModel) -> (
    CountStateModel,
    CountActionModel,
) {
    match (state, event) {
        (CountStateModel::Received, CountEventModel::Request { request, file_exists }) => {
            match validated(request, file_exists) {
                Err(error) => (CountStateModel::Done, CountActionModel::Reject { error }),
                Ok(_) => {
                    let key = key_of(path_stem(request.file_name)->0, request.word);
                    (CountStateModel::Lookup { request, key }, CountActionModel::Consult { key })
                },
            }
        },
        (CountStateModel::Lookup { request, key }, CountEventModel::Cached { value }) => {
            if value >= 0 {
                (
                    CountStateModel::Done,
                    CountActionModel::Respond { response: response_of(value), write: None },
                )
            } else {
                (
                    CountStateModel::Scan { key },
                    CountActionModel::ScanFile { word: request.word, file_name: request.file_name },
                )
            }
        },
        (CountStateModel::Scan { key }, CountEventModel::Scanned { count }) => (
            CountStateModel::Done,
            CountActionModel::Respond {
                response: response_of(scanned_value(count)),
                write: write_of(key, scanned_value(count)),
            },
        ),
        (state, _) => (state, CountActionModel::Ignore),
    }
}

/// The backend's rules.
pub struct CounterService {}

impl CounterService {
    pub fn new() -> (service: Self) {
        CounterService {  }
    }

    /// The key of the cache entry for `word` in the file `file_name`: the stem of
    /// the file name, a colon, the word.
    pub fn key(file_name: &str, word: &str) -> (key: String)
        requires
            path_stem(file_name@) is Some,
        ensures
            key@ == key_of(path_stem(file_name@)->0, word@),
    {
        proof {
            reveal_strlit(":");
            assert(":"@ =~= seq![':']);
        }
        match file_stem(file_name) {
            Some(stem) => stem.concat(":").concat(word),
            None => String::new(),
        }
    }

    /// The key for a request, for every request: `None` where the file name has
    /// no stem.
    pub fn request_key(request: &WordCountRequest) -> (key: Option<String>)
        ensures
            match key {
                Some(k) => path_stem(request@.file_name) is Some && k@ == key_of(
                    path_stem(request@.file_name)->0,
                    request@.word,
                ),
                None => path_stem(request@.file_name) is None,
            },
    {
        if request.get_file_name().is_none() {
            return None;
        }
        Some(Self::key(request.file_name.as_str(), request.word.as_str()))
    }

    /// A latency of `micros` microseconds in words.
    pub fn fmt_latency(micros: u128) -> (text: String)
        ensures
            text@ == latency_text(micros as nat),
    {
        fmt_latency(micros)
    }

    /// The command that reads `key` from the remote cache, word by word.
    pub fn get_redis_command(key: &str) -> (words: Vec<String>)
        ensures
            words@.map_values(|w: String| w@) == get_command(key@),
    {
        let mut words: Vec<String> = Vec::new();
        words.push(String::from_str(GET));
        words.push(String::from_str(key));
        assert(words@.map_values(|w: String| w@) =~= get_command(key@));
        words
    }

    /// The count that an answer of the remote cache stands for: the value it
    /// holds if that is a count, `FAILED` else.
    pub fn get_from_redis(reply: RemoteReply) -> (value: i64)
        ensures
            value == remote_value(reply),
    {
        match reply {
            RemoteReply::Present(v) => if v >= 0 {
                v
            } else {
                FAILED
            },
            RemoteReply::Absent => FAILED,
            RemoteReply::TransportError => FAILED,
        }
    }

    /// What the local cache keeps of a value that was loaded from the remote
    /// cache: the value if it is a count, nothing else.
    pub fn get_from_local_cache(loaded: i64) -> (entry: Option<i64>)
        ensures
            entry == kept_locally(loaded),
    {
        if loaded >= 0 {
            Some(loaded)
        } else {
            None
        }
    }

    /// The answer of the cache as a whole: the count that the local cache holds or
    /// has loaded, `FAILED` where it has none.
    pub fn get_from_cache(entry: Option<i64>) -> (value: i64)
        ensures
            value == cache_answer(entry),
    {
        match entry {
            Some(v) => if v >= 0 {
                v
            } else {
                FAILED
            },
            None => FAILED,
        }
    }

    /// The count that a scan ends in.
    pub fn count_from_file(count: Option<i64>) -> (value: i64)
        ensures
            value == scanned_value(count),
    {
        match count {
            Some(c) => if c >= 0 {
                c
            } else {
                FAILED
            },
            None => FAILED,
        }
    }

    /// The seconds for which the remote cache is to keep `value`: 30 for the
    /// count 0, 300 for a count above 0; nothing for what is no count.
    pub fn set_redis(value: i64) -> (ttl_secs: Option<u64>)
        ensures
            ttl_secs == ttl_of(value),
            value == 0 ==> ttl_secs == Some(30u64),
            value > 0 ==> ttl_secs == Some(300u64),
            value < 0 ==> ttl_secs is None,
    {
        if value < 0 {
            None
        } else if value == 0 {
            Some(TTL_ABSENT_SECS)
        } else {
            Some(TTL_PRESENT_SECS)
        }
    }

    /// What is to be written to the cache for `value` under `key`: nothing for
    /// `FAILED`, the value with its time to live for a count.
    pub fn set_cache(key: &str, value: i64) -> (write: Option<CacheWrite>)
        ensures
            match write {
                Some(w) => write_of(key@, value) == Some(w@),
                None => write_of(key@, value) is None,
            },
    {
        match Self::set_redis(value) {
            Some(ttl_secs) => Some(CacheWrite { key: String::from_str(key), value, ttl_secs }),
            None => None,
        }
    }

    /// The response that carries `count`.
    pub fn response(count: i64) -> (response: WordCountResponse)
        ensures
            response@ == response_of(count),
    {
        WordCountResponse {
            count,
            status_code: 0,
            status_message: String::from_str(OK_MESSAGE),
            log_id: String::new(),
        }
    }

    /// Takes a `Count` call one step on: from the state it is in and what
    /// happened to the state it is in next and what it has to do.
    pub fn count(state: CountState, event: CountEvent) -> (next: (CountState, CountAction))
        ensures
            (next.0@, next.1@) == count_step(state@, event@),
    {
        match (state, event) {
            (CountState::Received, CountEvent::Request { request, file_exists }) => {
                match request.check_params(file_exists) {
                    Err(error) => (CountState::Done, CountAction::Reject { error }),
                    Ok(_) => {
                        let key = Self::key(request.file_name.as_str(), request.word.as_str());
                        let consult = key.clone();
                        (CountState::Lookup { request, key }, CountAction::Consult { key: consult })
                    },
                }
            },
            (CountState::Lookup { request, key }, CountEvent::Cached { value }) => {
                if value >= 0 {
                    (
                        CountState::Done,
                        CountAction::Respond { response: Self::response(value), write: None },
                    )
                } else {
                    (
                        CountState::Scan { key },
                        CountAction::ScanFile { word: request.word, file_name: request.file_name },
                    )
                }
            },
            (CountState::Scan { key }, CountEvent::Scanned { count }) => {
                let value = Self::count_from_file(count);
                (
                    CountState::Done,
                    CountAction::Respond {
                        response: Self::response(value),
                        write: Self::set_cache(key.as_str(), value),
                    },
                )
            },
            (state, _) => (state, CountAction::Ignore),
        }
    }
}

/// Requests that name files with the same stem share their cache entries: for
/// the same word they have the same key.
pub proof fn lemma_key_depends_on_stem(file1: Seq<char>, file2: Seq<char>, word: Seq<char>)
    requires
        path_stem(file1) is Some,
        path_stem(file1) == path_stem(file2),
    ensures
        key_of(path_stem(file1)->0, word) == key_of(path_stem(file2)->0, word),
{
}

/// A file name whose stem is its own stem has the same key as its stem.
pub proof fn lemma_key_of_stem(file: Seq<char>, word: Seq<char>)
    requires
        path_stem(file) is Some,
        path_stem(path_stem(file)->0) == path_stem(file),
    ensures
        key_of(path_stem(file)->0, word) == key_of(path_stem(path_stem(file)->0)->0, word),
{
}

/// A `Count` call is answered once: a response or a refusal ends it, and a call
/// that has ended takes no notice of what comes after.
pub proof fn lemma_count_is_answered_once(state: CountStateModel, event: CountEventModel)
    ensures
        (count_step(state, event).1 is Respond || count_step(state, event).1 is Reject)
            ==> count_step(state, event).0 is Done,
        state is Done ==> count_step(state, event) == (
            CountStateModel::Done,
            CountActionModel::Ignore,
        ),
{
}

/// Every response of a `Count` call reports success and carries a count or
/// `FAILED`: a count from the cache as it is, a count from the file where the
/// cache had none.
pub proof fn lemma_count_response(state: CountStateModel, event: CountEventModel)
    ensures
        count_step(state, event).1 matches CountActionModel::Respond { response, .. }
            ==> response.status_code == 0 && response.status_message == OK_MESSAGE@
            && response.count >= FAILED,
{
}

/// A count that is written to the cache is read back for as long as one of the
/// two levels holds what was written: the write carries the count unchanged
/// under its key, a read answers with the count that the local level holds,
/// and where the local level has dropped it, with the count that the remote
/// level still has. How long each level holds an entry lies with the stores.
pub proof fn lemma_written_count_is_read_back(key: Seq<char>, value: i64, remote: RemoteReply)
    requires
        value >= 0,
    ensures
        write_of(key, value) is Some,
        write_of(key, value)->0.key == key,
        write_of(key, value)->0.value == value,
        read_path(Some(write_of(key, value)->0.value), remote) == value,
        read_path(None, RemoteReply::Present(write_of(key, value)->0.value)) == value,
{
}

/// A read of the cache never answers with anything but a count or `FAILED`, and
/// it answers `FAILED` exactly if neither level has a count for the key.
pub proof fn lemma_read_path(local: Option<i64>, remote: RemoteReply)
    ensures
        read_path(local, remote) >= FAILED,
        read_path(local, remote) == FAILED <==> match local {
            Some(v) => v < 0,
            None => !(remote is Present && remote->Present_0 >= 0),
        },
{
}

/// Whatever happens in a `Count` call, `FAILED` is never written to the cache,
/// and a count that is written is kept for 30 seconds if it is 0 and for 300
/// seconds if it is more.
pub proof fn lemma_count_never_caches_failure(state: CountStateModel, event: CountEventModel)
    ensures
        match count_step(state, event).1 {
            CountActionModel::Respond { write: Some(w), response } => w.value >= 0 && w.value
                == response.count && w.ttl_secs == if w.value == 0 {
                30u64
            } else {
                300u64
            },
            _ => true,
        },
{
}

} // verus!
