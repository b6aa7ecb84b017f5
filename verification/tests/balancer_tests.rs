use word_counter::addr::{Ipv4Addr, SocketAddr};
use word_counter::consts::{DEFAULT_STRATEGY, HEALTH_CHECK_INTERVAL_MS};
use word_counter::endpoint::{endpoints, WordCountServer};
use word_counter::error::ErrorKind;
use word_counter::load_balancer::{HealthRound, LoadBalancerError, LoadBalancerImpl};
use word_counter::metrics::QueryCounter;
use word_counter::model::endpoints_config::{EndpointConfig, EndpointPoolConfig};
use word_counter::model::load_balancer_config::LBConfig;
use word_counter::model::server_config::ServerConfig;
use word_counter::message::WordCountResponse;
use word_counter::server::{LBServer, ServerStep};
use word_counter::strategy::round_robin::RoundRobin;
use word_counter::strategy::weighted_round_robin::WeightedRoundRobin;
use word_counter::strategy::{create_strategy, Strategy};

const SERVING: i32 = 1;
const NOT_SERVING: i32 = 2;

fn config(name: &str, last: u8, port: u16, weight: Option<u8>) -> EndpointConfig {
    EndpointConfig::new(name.to_string(), Ipv4Addr::new(192, 168, 1, last), port, weight)
}

fn roster(ports: &[u16]) -> Vec<WordCountServer> {
    ports
        .iter()
        .map(|port| {
            WordCountServer::new(EndpointConfig::new(
                format!("s{}", port),
                Ipv4Addr::new(127, 0, 0, 1),
                *port,
                None,
            ))
        })
        .collect()
}

#[test]
fn endpoints_config_test_load() {
    let entries = vec![
        config("s1", 1, 8080, Some(80)),
        config("s2", 2, 8081, Some(10)),
        config("s3", 3, 8082, Some(10)),
    ];
    let pool_config = EndpointPoolConfig::load(entries, DEFAULT_STRATEGY);
    let dataset = vec![
        config("s1", 1, 8080, Some(80)),
        config("s2", 2, 8081, Some(10)),
        config("s3", 3, 8082, Some(10)),
    ];
    let server_configs = pool_config.endpoint_configs();
    assert_eq!(dataset.len(), server_configs.len());
    for (i, config) in server_configs.iter().enumerate() {
        assert_eq!(config.ip(), dataset[i].ip());
        assert_eq!(config.name(), dataset[i].name());
        assert_eq!(config.port(), dataset[i].port());
        assert_eq!(config.weight(), dataset[i].weight());
    }
}

#[test]
fn weighted_round_robin_drops_entries_without_usable_weight() {
    let entries = || {
        vec![
            config("s1", 1, 8080, Some(80)),
            config("s2", 2, 8081, None),
            config("s3", 3, 8082, Some(101)),
            config("s4", 4, 8083, Some(100)),
            config("s5", 5, 8084, Some(0)),
            config("s6", 6, 8085, Some(255)),
        ]
    };
    let kept = EndpointPoolConfig::load(entries(), "WeightedRoundRobin").endpoint_configs();
    let names: Vec<String> = kept.iter().map(|c| c.name()).collect();
    assert_eq!(names, vec!["s1", "s4", "s5"]);
    assert_eq!(kept[1].weight(), Some(100));
    assert_eq!(kept[1].get_socket_addr(), SocketAddr::new(Ipv4Addr::new(192, 168, 1, 4), 8083));
    for strategy in ["RoundRobin", "HashByRequest", "weightedroundrobin", ""] {
        assert_eq!(EndpointPoolConfig::load(entries(), strategy).endpoint_configs().len(), 6);
    }
    let mut pool = EndpointPoolConfig { endpoints: entries() };
    pool.filter("WeightedRoundRobin");
    assert_eq!(pool.endpoints.len(), 3);
}

#[test]
fn load_balancer_config_test_load() {
    let lb_config = LBConfig::new(Some("WeightedRoundRobin".to_string()));
    assert_eq!(lb_config.strategy(), "WeightedRoundRobin");
    assert_eq!(LBConfig::new(None).strategy(), "RoundRobin");
}

#[test]
fn server_config_test_load() {
    let server_config =
        ServerConfig::new(Some(Ipv4Addr::new(192, 168, 1, 1)), Some(8080), Some(8081), Some(true));
    let expected = ServerConfig {
        ip: Some(Ipv4Addr::new(192, 168, 1, 1)),
        port: Some(8080),
        metrics_port: Some(8081),
        enable_fault_tolerance: Some(true),
    };
    assert_eq!(server_config.ip, expected.ip);
    assert_eq!(server_config.port, expected.port);
    assert_eq!(server_config.metrics_port, expected.metrics_port);
    assert_eq!(server_config.enable_fault_tolerance, expected.enable_fault_tolerance);
}

#[test]
fn server_config_falls_back_to_its_defaults() {
    let config = ServerConfig::default();
    assert_eq!(config.ip(), Ipv4Addr::new(127, 0, 0, 1));
    assert_eq!(config.ip().octets(), [127, 0, 0, 1]);
    assert_eq!(config.port(), 8080);
    assert_eq!(config.metrics_port(), 8081);
    assert!(!config.fault_tolerance());
    assert_eq!(config.get_socket_addr(), SocketAddr::new(Ipv4Addr::new(127, 0, 0, 1), 8080));
    assert_eq!(config.get_metrics_addr(), SocketAddr::new(Ipv4Addr::new(127, 0, 0, 1), 8081));
    let set = ServerConfig::new(Some(Ipv4Addr::new(10, 0, 0, 7)), Some(9000), Some(9001), Some(false));
    assert_eq!(set.get_socket_addr(), SocketAddr::new(Ipv4Addr::new(10, 0, 0, 7), 9000));
    assert_eq!(set.get_metrics_addr().port(), 9001);
    assert!(!set.fault_tolerance());
}

#[test]
fn failed_response_is_the_canned_one() {
    let response = WordCountResponse::failed_resp();
    assert_eq!(response.count, 0);
    assert_eq!(response.status_code, -1);
    assert_eq!(response.status_message, "some error occurred...");
    assert_eq!(response.log_id, "0");
}

#[test]
fn test_health_maintain() {
    let mut lb = LoadBalancerImpl::new(roster(&[8080, 8081, 8082]), Strategy::RoundRobin(RoundRobin::new(None)));
    // One round of probes: two healthy instances, one unhealthy.
    assert_eq!(
        lb.health_maintain(),
        HealthRound::Probe { endpoints: 3, pause_ms: HEALTH_CHECK_INTERVAL_MS }
    );
    assert!(lb.health_check(0, Some(SERVING)));
    assert!(lb.health_check(1, Some(SERVING)));
    assert!(lb.health_check(2, Some(NOT_SERVING)));
    let endpoints_addr: Vec<SocketAddr> =
        lb.filter_healthy_endpoints().iter().map(|endpoint| endpoint.addr()).collect();
    assert!(endpoints_addr.contains(&SocketAddr::new(Ipv4Addr::new(127, 0, 0, 1), 8080)));
    assert!(endpoints_addr.contains(&SocketAddr::new(Ipv4Addr::new(127, 0, 0, 1), 8081)));
    assert!(!endpoints_addr.contains(&SocketAddr::new(Ipv4Addr::new(127, 0, 0, 1), 8082)));
}

#[test]
fn health_loop_stops_at_the_turn_after_the_signal() {
    let mut lb = LoadBalancerImpl::new(roster(&[1, 2]), Strategy::RoundRobin(RoundRobin::new(None)));
    assert_eq!(lb.health_maintain(), HealthRound::Probe { endpoints: 2, pause_ms: 500 });
    lb.stop_health_maintain();
    assert_eq!(lb.health_maintain(), HealthRound::Stop);
    // The signal is used up: a loop that is started again runs.
    assert_eq!(lb.health_maintain(), HealthRound::Probe { endpoints: 2, pause_ms: 500 });
}

#[test]
fn only_a_serving_answer_makes_an_endpoint_healthy() {
    let mut server = roster(&[8080]).remove(0);
    assert!(!server.health_report());
    assert!(server.health_check(Some(SERVING)));
    assert!(server.health_report());
    for status in [0, NOT_SERVING, 3, 4, -1, i32::MAX] {
        assert!(server.health_check(Some(SERVING)));
        assert!(server.health_check(Some(status)));
        assert!(!server.health_report(), "status {}", status);
    }
    assert!(server.health_check(Some(SERVING)));
    assert!(!server.health_check(None));
    assert!(!server.health_report());
    server.update_health_status(SERVING);
    assert!(server.health_report());
    server.update_health_status(NOT_SERVING);
    assert!(!server.health_report());
    assert_eq!(server.name(), "s8080");
    assert_eq!(server.weight(), None);
}

#[test]
fn requests_fail_while_no_endpoint_is_healthy() {
    let mut lb = LoadBalancerImpl::new(roster(&[8080, 8081]), Strategy::RoundRobin(RoundRobin::new(None)));
    let outcome = lb.handle("{\"word\":\"world\",\"file_name\":\"text1.txt\"}");
    assert_eq!(outcome, Err(LoadBalancerError::NoEndpoint));
    assert_eq!(
        LoadBalancerError::NoEndpoint.message(),
        "assign endpoint failed, no proper endpoint found"
    );
    assert_eq!(LoadBalancerError::NoEndpoint.kind(), ErrorKind::Routing);
    assert_eq!(lb.health_check(5, Some(SERVING)), false);
    assert_eq!(lb.handle("x"), Err(LoadBalancerError::NoEndpoint));
}

#[test]
fn requests_go_to_roster_positions_of_healthy_endpoints() {
    let mut lb = LoadBalancerImpl::new(roster(&[1, 2, 3, 4]), Strategy::RoundRobin(RoundRobin::new(None)));
    lb.health_check(1, Some(SERVING));
    lb.health_check(3, Some(SERVING));
    let targets: Vec<usize> = (0..6).map(|_| lb.handle("req").unwrap()).collect();
    assert_eq!(targets, vec![1, 3, 1, 3, 1, 3]);
    // Endpoint 3 fails its next probe and endpoint 0 comes up.
    lb.health_check(3, None);
    lb.health_check(0, Some(SERVING));
    let targets: Vec<usize> = (0..4).map(|_| lb.handle("req").unwrap()).collect();
    assert_eq!(targets, vec![0, 1, 0, 1]);
    lb.set_strategy(Strategy::WeightedRoundRobin(WeightedRoundRobin::new()));
    // No endpoint of this roster carries a weight.
    assert_eq!(lb.handle("req"), Err(LoadBalancerError::NoEndpoint));
}

#[test]
fn roster_is_built_in_configuration_order() {
    let pool = EndpointPoolConfig::load(
        vec![config("s1", 1, 8080, Some(5)), config("s2", 2, 8081, Some(2)), config("s3", 3, 8082, Some(3))],
        "WeightedRoundRobin",
    );
    let mut lb = LoadBalancerImpl::new(
        endpoints(pool),
        create_strategy(&LBConfig::new(Some("WeightedRoundRobin".to_string()))),
    );
    assert_eq!(lb.filter_healthy_endpoints().len(), 0);
    for i in 0..3 {
        lb.health_check(i, Some(SERVING));
    }
    let names: Vec<String> = lb.filter_healthy_endpoints().iter().map(|e| e.name()).collect();
    assert_eq!(names, vec!["s1", "s2", "s3"]);
    let targets: Vec<usize> = (0..6).map(|_| lb.handle("req").unwrap()).collect();
    assert_eq!(targets, vec![0, 0, 0, 2, 0, 1]);
}

#[test]
fn test_guard() {
    // A guard that is taken down unmarked records a failure.
    let guard = QueryCounter::new("server1", "HealthCheck");
    let sample = guard.finish();
    assert_eq!(sample.server_name, "server1");
    assert_eq!(sample.handler, "HealthCheck");
    assert!(!sample.success);
    assert_eq!(sample.success_label(), "false");
    // A guard that was marked records a success.
    let mut guard = QueryCounter::new("server1", "HealthCheck");
    guard.mark_success();
    let sample = guard.finish();
    assert_eq!(sample.server_name, "server1");
    assert_eq!(sample.handler, "HealthCheck");
    assert!(sample.success);
    assert_eq!(sample.success_label(), "true");
}

#[test]
fn accept_loop_runs_until_it_is_told_to_stop() {
    let tolerant = LBServer::build(ServerConfig::new(None, None, None, Some(true)));
    assert!(tolerant.start());
    assert!(tolerant.close());
    assert_eq!(tolerant.next_step(true), ServerStep::Accept);
    assert_eq!(tolerant.next_step(false), ServerStep::Shutdown { stop_health: true });
    let plain = LBServer::build(ServerConfig::default());
    assert!(!plain.start());
    assert!(!plain.close());
    assert_eq!(plain.next_step(true), ServerStep::Accept);
    assert_eq!(plain.next_step(false), ServerStep::Shutdown { stop_health: false });
}
