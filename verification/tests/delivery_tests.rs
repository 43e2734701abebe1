use sha2::Digest;
use device_agent::config::{Config, ServerConfig};
use device_agent::errors::DeliveryError;
use device_agent::models::{collect_all_info, get_available_memory, get_os_type, BasicInfo, Platform};
use device_agent::sender::{
    auth_header_value, classify_registration_status, classify_response, plan_delivery,
    HttpOutcome, RegistrationStatus,
};

fn response(status: u16, body: &str) -> HttpOutcome {
    HttpOutcome::Response { status, body: body.to_string() }
}

#[test]
fn status_401_is_unauthorized() {
    let r = classify_response(response(401, "token expired"));
    assert!(matches!(r, Err(DeliveryError::Unauthorized)));
}

#[test]
fn status_500_is_a_server_error() {
    let r = classify_response(response(500, "boom"));
    assert!(matches!(r, Err(DeliveryError::ServerError(500))));
    let r = classify_response(response(503, ""));
    assert!(matches!(r, Err(DeliveryError::ServerError(503))));
    let r = classify_response(response(599, ""));
    assert!(matches!(r, Err(DeliveryError::ServerError(599))));
}

#[test]
fn connection_failure_is_a_network_error() {
    let r = classify_response(HttpOutcome::NoResponse { detail: "connection refused".to_string() });
    match r {
        Err(DeliveryError::Network(detail)) => assert_eq!(detail, "connection refused"),
        other => panic!("expected a network error, got {:?}", other),
    }
}

#[test]
fn any_2xx_status_is_success() {
    assert!(classify_response(response(200, "ok")).is_ok());
    assert!(classify_response(response(201, "created")).is_ok());
    assert!(classify_response(response(299, "")).is_ok());
}

#[test]
fn status_403_is_forbidden() {
    let r = classify_response(response(403, ""));
    assert!(matches!(r, Err(DeliveryError::Forbidden)));
}

#[test]
fn status_400_echoes_the_server_detail() {
    let r = classify_response(response(400, "missing field: hostname"));
    match r {
        Err(DeliveryError::BadRequest(detail)) => assert_eq!(detail, "missing field: hostname"),
        other => panic!("expected a bad-request error, got {:?}", other),
    }
}

#[test]
fn other_statuses_are_unexpected_with_status_and_body() {
    let r = classify_response(response(301, "moved"));
    match r {
        Err(DeliveryError::Unexpected(status, body)) => {
            assert_eq!(status, 301);
            assert_eq!(body, "moved");
        },
        other => panic!("expected an unexpected-status error, got {:?}", other),
    }
}

#[test]
fn disabled_backend_plans_no_request() {
    let server = ServerConfig {
        enabled: false,
        url: "https://collector.example/api/heartbeat/".to_string(),
        timeout_seconds: 30,
    };
    assert!(plan_delivery(&server, "agt_x").is_none());
}

#[test]
fn enabled_backend_plans_an_authorized_post() {
    let server = ServerConfig {
        enabled: true,
        url: "https://collector.example/api/heartbeat/".to_string(),
        timeout_seconds: 25,
    };
    let plan = plan_delivery(&server, "agt_abc123").unwrap();
    assert_eq!(plan.url, "https://collector.example/api/heartbeat/");
    assert_eq!(plan.auth_header, "Bearer agt_abc123");
    assert_eq!(plan.timeout_seconds, 25);
}

#[test]
fn auth_header_is_a_bearer_header() {
    assert_eq!(auth_header_value("tok"), "Bearer tok");
}

#[test]
fn default_config_matches_the_documented_defaults() {
    let config = Config::default();
    assert_eq!(config.collection.interval_seconds, 300);
    assert!(config.collection.include_services);
    assert!(config.collection.include_software);
    assert_eq!(config.output.output_directory, "./data");
    assert!(config.output.save_to_file);
    assert_eq!(config.output.timestamp_format, "%Y%m%d_%H%M%S");
    assert_eq!(config.logging.level, "info");
    assert!(config.logging.console);
    assert!(config.logging.file);
    assert_eq!(config.logging.log_directory, "./logs");
    assert_eq!(config.agent.agent_id, "agent-001");
    assert_eq!(config.agent.agent_name, "Device Agent");
    assert_eq!(config.retry.max_retries, 5);
    assert_eq!(config.retry.initial_delay_ms, 1000);
    assert_eq!(config.retry.max_delay_ms, 60000);
    assert!(!config.server.enabled);
    assert_eq!(config.server.timeout_seconds, 30);
}

#[test]
fn os_type_names_each_platform() {
    assert_eq!(get_os_type(Platform::MacOs), "macos");
    assert_eq!(get_os_type(Platform::Linux), "linux");
    assert_eq!(get_os_type(Platform::Windows), "windows");
    assert_eq!(get_os_type(Platform::Other), "unknown");
}

#[test]
fn available_memory_prefers_the_reported_figure() {
    assert_eq!(get_available_memory(512, 1024, 900, 100), 512);
    assert_eq!(get_available_memory(0, 1024, 900, 100), 124);
    assert_eq!(get_available_memory(0, 800, 900, 100), 100);
    assert_eq!(get_available_memory(0, 900, 900, 55), 55);
}

fn sample_basic() -> BasicInfo {
    BasicInfo {
        hostname: "host-1".to_string(),
        os_type: "linux".to_string(),
        os_version: "6.1".to_string(),
        cpu_info: "Example CPU".to_string(),
        memory_total: 1024,
        memory_available: 512,
        ip_addresses: vec![("192.168.1.10".to_string(), vec!["2001:db8::1".to_string()])],
    }
}

#[test]
fn snapshot_assembly_carries_every_field() {
    let info = collect_all_info(
        sample_basic(),
        Ok("f".repeat(64)),
        vec!["sshd".to_string()],
        vec!["pkg-one".to_string()],
        "agent-001".to_string(),
        "Device Agent".to_string(),
        1_700_000_000,
    );
    assert_eq!(info.collected_at, 1_700_000_000);
    assert_eq!(info.agent_id, "agent-001");
    assert_eq!(info.agent_name, "Device Agent");
    assert_eq!(info.device_fingerprint, "f".repeat(64));
    assert_eq!(info.hostname, "host-1");
    assert_eq!(info.os_type, "linux");
    assert_eq!(info.os_version, "6.1");
    assert_eq!(info.cpu_info, "Example CPU");
    assert_eq!(info.memory_total, 1024);
    assert_eq!(info.memory_available, 512);
    assert_eq!(info.ip_addresses.len(), 1);
    assert_eq!(info.services, vec!["sshd".to_string()]);
    assert_eq!(info.installed_software, vec!["pkg-one".to_string()]);
}

#[test]
fn snapshot_assembly_falls_back_to_hostname_fingerprint() {
    let info = collect_all_info(
        sample_basic(),
        Err(device_agent::errors::IdentityError::NoIdentifiers),
        Vec::new(),
        Vec::new(),
        "agent-001".to_string(),
        "Device Agent".to_string(),
        0,
    );
    let digest = sha2::Sha256::digest("fallback_host-1".as_bytes());
    let mut expected = String::new();
    for b in digest {
        expected += &format!("{:02x}", b);
    }
    assert_eq!(info.device_fingerprint, expected);
}

#[test]
fn registration_url_is_derived_from_the_heartbeat_url() {
    assert_eq!(
        device_agent::sender::registration_url("https://collector.example/api/heartbeat/"),
        "https://collector.example/api/agents/register/"
    );
    assert_eq!(
        device_agent::sender::registration_url("https://collector.example/other/"),
        "https://collector.example/other/"
    );
}

#[test]
fn status_check_url_names_the_agent() {
    assert_eq!(
        device_agent::sender::status_check_url(
            "https://collector.example/api/heartbeat/",
            "agent-001"
        ),
        "https://collector.example/api/agents/register/agent-001/status/"
    );
    assert_eq!(
        device_agent::sender::status_check_url("https://collector.example/heartbeat/", "a-2"),
        "https://collector.example/agents/register/a-2/status/"
    );
}

#[test]
fn registration_status_values_are_classified() {
    assert_eq!(classify_registration_status("approved"), RegistrationStatus::Approved);
    assert_eq!(classify_registration_status("pending"), RegistrationStatus::Pending);
    assert_eq!(classify_registration_status("rejected"), RegistrationStatus::Rejected);
    assert_eq!(classify_registration_status("not_found"), RegistrationStatus::NotFound);
    assert_eq!(classify_registration_status("something-else"), RegistrationStatus::Unknown);
}
