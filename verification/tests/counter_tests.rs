use word_counter::client::{average_latency_ms, fmt_latency, state_message, Commands};
use word_counter::counter_server::{
    CacheWrite, CountAction, CountEvent, CountState, CounterService, ParamError, RemoteReply, FAILED,
};
use word_counter::error::ErrorKind;
use word_counter::message::{WordCountRequest, WordCountResponse};
use word_counter::read_counter::ReadCounter;

fn request(word: &str, file_name: &str) -> WordCountRequest {
    WordCountRequest::new(word.to_string(), file_name.to_string())
}

#[test]
fn test_key() {
    assert_eq!("Titanic:rose", CounterService::key("Titanic.txt", "rose"));
    assert_eq!("Titanic:rose", CounterService::key("Titanic", "rose"));
}

#[test]
fn key_is_the_same_for_every_extension() {
    for file_name in ["Titanic.txt", "Titanic.md", "Titanic", "texts/Titanic.txt", "Titanic."] {
        assert_eq!(
            CounterService::request_key(&request("rose", file_name)),
            Some("Titanic:rose".to_string()),
            "{}",
            file_name
        );
    }
    assert_eq!(
        CounterService::request_key(&request("rose", "Titanic.tar.gz")),
        Some("Titanic.tar:rose".to_string())
    );
    assert_eq!(CounterService::request_key(&request("a:b", ".hidden")), Some(".hidden:a:b".to_string()));
    assert_eq!(CounterService::request_key(&request("rose", "")), None);
    assert_eq!(CounterService::request_key(&request("rose", "..")), None);
    assert_eq!(CounterService::request_key(&request("rose", "/")), None);
}

#[test]
fn requests_are_validated_in_order() {
    assert_eq!(request("", "").check_params(true), Err(ParamError::EmptyWord));
    assert_eq!(request("", "Titanic.txt").check_params(true), Err(ParamError::EmptyWord));
    assert_eq!(request("rose", "").check_params(true), Err(ParamError::EmptyFileName));
    assert_eq!(request("rose", "..").check_params(true), Err(ParamError::InvalidFileName));
    assert_eq!(request("rose", "..").check_params(false), Err(ParamError::InvalidFileName));
    assert_eq!(request("rose", "Titanic.txt").check_params(false), Err(ParamError::FileNotExist));
    assert_eq!(request("rose", "Titanic.txt").check_params(true), Ok(()));
    assert_eq!(ParamError::FileNotExist.kind(), ErrorKind::Validation);
}

#[test]
fn refusals_say_what_is_wrong() {
    assert_eq!(ParamError::EmptyWord.message("a.txt"), "invalid request: empty query word");
    assert_eq!(ParamError::EmptyFileName.message(""), "invalid request: empty file name");
    assert_eq!(ParamError::InvalidFileName.message(".."), "invalid request: invalid file name: ..");
    assert_eq!(ParamError::FileNotExist.message("a.txt"), "invalid request: file not exist: a.txt");
}

#[test]
fn file_is_looked_for_below_the_text_root() {
    let req = request("rose", "Titanic.txt");
    assert_eq!(req.get_file_path("../texts"), "../texts/Titanic.txt");
    assert_eq!(req.get_file_path("/srv/texts"), "/srv/texts/Titanic.txt");
    assert_eq!(req.get_file_name(), Some("Titanic".to_string()));
    assert_eq!(request("rose", "").get_file_name(), None);
}

#[test]
fn remote_answers_are_told_apart() {
    assert_eq!(CounterService::get_from_redis(RemoteReply::Present(7)), 7);
    assert_eq!(CounterService::get_from_redis(RemoteReply::Present(0)), 0);
    assert_eq!(CounterService::get_from_redis(RemoteReply::Present(-1)), FAILED);
    assert_eq!(CounterService::get_from_redis(RemoteReply::Present(-9)), FAILED);
    assert_eq!(CounterService::get_from_redis(RemoteReply::Absent), -1);
    assert_eq!(CounterService::get_from_redis(RemoteReply::TransportError), -1);
    assert_eq!(CounterService::get_from_local_cache(7), Some(7));
    assert_eq!(CounterService::get_from_local_cache(0), Some(0));
    assert_eq!(CounterService::get_from_local_cache(FAILED), None);
    assert_eq!(CounterService::get_from_cache(Some(7)), 7);
    assert_eq!(CounterService::get_from_cache(Some(-1)), FAILED);
    assert_eq!(CounterService::get_from_cache(None), FAILED);
}

#[test]
fn absent_words_are_kept_for_a_shorter_time() {
    assert_eq!(CounterService::set_redis(0), Some(30));
    assert_eq!(CounterService::set_redis(1), Some(300));
    assert_eq!(CounterService::set_redis(7), Some(300));
    assert_eq!(CounterService::set_redis(i64::MAX), Some(300));
    assert_eq!(CounterService::set_redis(-1), None);
    assert_eq!(CounterService::set_redis(i64::MIN), None);
    let write = CounterService::set_cache("Titanic:rose", 0).unwrap();
    assert_eq!((write.key.as_str(), write.value, write.ttl_secs), ("Titanic:rose", 0, 30));
    assert!(CounterService::set_cache("Titanic:rose", FAILED).is_none());
    assert_eq!(CounterService::count_from_file(Some(3)), 3);
    assert_eq!(CounterService::count_from_file(Some(-3)), FAILED);
    assert_eq!(CounterService::count_from_file(None), FAILED);
}

fn respond(action: CountAction) -> (WordCountResponse, Option<CacheWrite>) {
    match action {
        CountAction::Respond { response, write } => (response, write),
        _ => panic!("the call is to be answered"),
    }
}

fn miss(word: &str, file_name: &str) -> CountState {
    let (state, action) = CounterService::count(
        CountState::Received,
        CountEvent::Request { request: request(word, file_name), file_exists: true },
    );
    match action {
        CountAction::Consult { key } => assert_eq!(key, format!("Titanic:{}", word)),
        _ => panic!("the cache is to be asked"),
    }
    assert!(matches!(state, CountState::Lookup { .. }));
    let (state, action) = CounterService::count(state, CountEvent::Cached { value: FAILED });
    match action {
        CountAction::ScanFile { word: scanned, file_name: file } => {
            assert_eq!(scanned, word);
            assert_eq!(file, file_name);
        }
        _ => panic!("the file is to be scanned"),
    }
    assert!(matches!(state, CountState::Scan { .. }));
    state
}

#[test]
fn cache_miss_is_counted_from_the_file_and_written_back() {
    let state = miss("rose", "Titanic.txt");
    let (state, action) = CounterService::count(state, CountEvent::Scanned { count: Some(7) });
    assert!(matches!(state, CountState::Done));
    let (response, write) = respond(action);
    assert_eq!(response.count, 7);
    assert_eq!(response.status_code, 0);
    assert_eq!(response.status_message, "ok");
    assert_eq!(response.log_id, "");
    let write = write.unwrap();
    assert_eq!((write.key.as_str(), write.value, write.ttl_secs), ("Titanic:rose", 7, 300));
    assert_eq!(write.remote_command(), vec!["SET", "Titanic:rose", "7", "EX", "300"]);
}

#[test]
fn word_that_does_not_occur_is_written_back_for_thirty_seconds() {
    let state = miss("iceberg", "Titanic.txt");
    let (_, action) = CounterService::count(state, CountEvent::Scanned { count: Some(0) });
    let (response, write) = respond(action);
    assert_eq!(response.count, 0);
    let write = write.unwrap();
    assert_eq!((write.key.as_str(), write.value, write.ttl_secs), ("Titanic:iceberg", 0, 30));
    assert_eq!(write.remote_command(), vec!["SET", "Titanic:iceberg", "0", "EX", "30"]);
    assert_eq!(CounterService::get_redis_command("Titanic:iceberg"), vec!["GET", "Titanic:iceberg"]);
}

#[test]
fn failed_scan_is_answered_but_not_written_back() {
    let state = miss("rose", "Titanic.txt");
    let (state, action) = CounterService::count(state, CountEvent::Scanned { count: None });
    assert!(matches!(state, CountState::Done));
    let (response, write) = respond(action);
    assert_eq!(response.count, -1);
    assert_eq!(response.status_code, 0);
    assert_eq!(response.status_message, "ok");
    assert!(write.is_none());
}

#[test]
fn cache_hit_is_answered_without_a_scan() {
    for cached in [0, 7] {
        let (state, _) = CounterService::count(
            CountState::Received,
            CountEvent::Request { request: request("rose", "Titanic.txt"), file_exists: true },
        );
        let (state, action) = CounterService::count(state, CountEvent::Cached { value: cached });
        assert!(matches!(state, CountState::Done));
        let (response, write) = respond(action);
        assert_eq!(response.count, cached);
        assert_eq!(response.status_code, 0);
        assert!(write.is_none());
    }
}

#[test]
fn invalid_request_is_refused_before_the_cache_is_asked() {
    let (state, action) = CounterService::count(
        CountState::Received,
        CountEvent::Request { request: request("rose", "Titanic.txt"), file_exists: false },
    );
    assert!(matches!(state, CountState::Done));
    assert!(matches!(action, CountAction::Reject { error: ParamError::FileNotExist }));
    let (_, action) = CounterService::count(
        CountState::Received,
        CountEvent::Request { request: request("", "Titanic.txt"), file_exists: true },
    );
    assert!(matches!(action, CountAction::Reject { error: ParamError::EmptyWord }));
    let (state, action) = CounterService::count(CountState::Done, CountEvent::Cached { value: 3 });
    assert!(matches!(state, CountState::Done));
    assert!(matches!(action, CountAction::Ignore));
    let (state, action) =
        CounterService::count(CountState::Received, CountEvent::Scanned { count: Some(3) });
    assert!(matches!(state, CountState::Received));
    assert!(matches!(action, CountAction::Ignore));
}

#[test]
fn latency_is_given_in_milliseconds_and_microseconds() {
    assert_eq!(fmt_latency(0), "0.0 ms");
    assert_eq!(fmt_latency(999), "0.999 ms");
    assert_eq!(fmt_latency(1005), "1.5 ms");
    assert_eq!(fmt_latency(1234567), "1234.567 ms");
    assert_eq!(CounterService::fmt_latency(20_000), "20.0 ms");
    assert_eq!(
        fmt_latency(u128::MAX),
        "340282366920938463463374607431768211.455 ms"
    );
}

#[test]
fn client_reports_the_outcome_of_a_query() {
    let req = request("rose", "Titanic.txt");
    let answered = Ok(CounterService::response(12));
    assert_eq!(
        state_message(&req, &answered, "1.5 ms", "succeed", "failed"),
        "\u{2705} succeed in 1.5 ms: word 'rose' occur 12 times in Titanic.txt."
    );
    let uncounted = Ok(CounterService::response(-1));
    assert_eq!(
        state_message(&req, &uncounted, "0.1 ms", "succeed", "failed"),
        "\u{2705} succeed in 0.1 ms: word 'rose' occur -1 times in Titanic.txt."
    );
    let refused: Result<WordCountResponse, String> = Err("connection refused".to_string());
    assert_eq!(
        state_message(&req, &refused, "1.5 ms", "succeed", "failed"),
        "\u{274c} failed, word: rose, file: Titanic.txt, err=connection refused"
    );
}

#[test]
fn occurrences_are_counted_without_overlap() {
    assert_eq!(ReadCounter::count_line("rose", "a rose is a rose is a rose"), 3);
    assert_eq!(ReadCounter::count_line("rose", "Rose, roses, primrose"), 2);
    assert_eq!(ReadCounter::count_line("aa", "aaaaa"), 2);
    assert_eq!(ReadCounter::count_line("aba", "ababababa"), 2);
    assert_eq!(ReadCounter::count_line("abc", "ab"), 0);
    assert_eq!(ReadCounter::count_line("abc", ""), 0);
    assert_eq!(ReadCounter::count_line("\u{e9}", "caf\u{e9} \u{e9}t\u{e9}"), 3);
    assert_eq!(ReadCounter::count_line("", "abc"), 4);
    assert_eq!(ReadCounter::count_line("", ""), 1);
    for (word, line) in [("aa", "aaaaa"), ("aba", "ababababa"), ("", "x\u{1f600}y"), ("an", "banana bandana")] {
        assert_eq!(ReadCounter::count_line(word, line), line.matches(word).count() as i64);
    }
}

#[test]
fn counts_of_lines_add_up() {
    let lines = vec![
        "a rose is a rose".to_string(),
        String::new(),
        "no flowers here".to_string(),
        "primrose".to_string(),
    ];
    assert_eq!(ReadCounter::count("rose", &lines), 3);
    assert_eq!(ReadCounter::count("rose", &Vec::new()), 0);
    assert_eq!(ReadCounter::tally(3, 4), 7);
    assert_eq!(ReadCounter::tally(i64::MAX - 1, 5), i64::MAX);
    assert_eq!(ReadCounter::tally(i64::MIN + 1, -5), i64::MIN);
}

#[test]
fn commands_hand_out_what_they_hold() {
    let count = Commands::Count {
        word: "rose".to_string(),
        file_name: "Titanic.txt".to_string(),
        with_lb: true,
    };
    assert_eq!(count.try_get_query_word(), Some("rose".to_string()));
    assert_eq!(count.try_get_batch_num(), None);
    assert_eq!(count.try_get_interval(), None);
    assert_eq!(count.get_file_name(), "Titanic.txt");
    assert!(count.with_lb());
    let random = Commands::Random {
        batch: 20,
        file_name: "Hamlet.txt".to_string(),
        interval: 15,
        with_lb: false,
    };
    assert_eq!(random.try_get_query_word(), None);
    assert_eq!(random.try_get_batch_num(), Some(20));
    assert_eq!(random.try_get_interval(), Some(15));
    assert_eq!(random.get_file_name(), "Hamlet.txt");
    assert!(!random.with_lb());
    let query = random.build_request("ghost".to_string());
    assert_eq!(query.word, "ghost");
    assert_eq!(query.file_name, "Hamlet.txt");
}

#[test]
fn average_latency_is_rounded_down() {
    assert_eq!(average_latency_ms(100, 3), Some(33));
    assert_eq!(average_latency_ms(0, 5), Some(0));
    assert_eq!(average_latency_ms(u64::MAX, 1), Some(u64::MAX));
    assert_eq!(average_latency_ms(100, 0), None);
}

#[test]
fn written_count_is_read_back_while_a_level_holds_it() {
    for value in [0, 7, i64::MAX] {
        let write = CounterService::set_cache("Titanic:rose", value).unwrap();
        // The local level still holds the entry.
        assert_eq!(CounterService::get_from_cache(Some(write.value)), value);
        // The local level has dropped it, the remote level has not.
        let loaded = CounterService::get_from_redis(RemoteReply::Present(write.value));
        assert_eq!(CounterService::get_from_cache(CounterService::get_from_local_cache(loaded)), value);
    }
    // Both levels have dropped it.
    let loaded = CounterService::get_from_redis(RemoteReply::Absent);
    assert_eq!(CounterService::get_from_cache(CounterService::get_from_local_cache(loaded)), FAILED);
}
