//! Activation-request construction, configuration resolution, health
//! polling, and the small text builders.

use ddr::command::{build_health_cmd, resolve_instance_command, resolve_instance_config_values,
    unit_tar_file};
use ddr::config::{ContainerConfig, HealthCheck, RemoteHealthCheck, ServiceConfig};
use ddr::health::{build_health_url, HealthState, ProbeOutcome};
use ddr::networks::{network_create_command, NetworkConfig};
use ddr::numtext::i32_to_string;
use ddr::volumes::{volume_create_command, VolumeConfig, VolumeOpt};

fn empty_container() -> ContainerConfig {
    ContainerConfig {
        network_mode: None,
        restart: None,
        env_file: None,
        volumes: None,
        environment: None,
        command: None,
        remotecheck: None,
        healthcheck: None,
    }
}

fn empty_service() -> ServiceConfig {
    ServiceConfig {
        image: None,
        network_mode: None,
        restart: None,
        env_file: None,
        volumes: None,
        environment: None,
        depends_on: None,
        instances: Vec::new(),
        remotecheck: None,
    }
}

#[test]
fn instance_environment_replaces_unit_default_wholesale() {
    let mut container = empty_container();
    container.environment = Some(vec!["X=1".to_string()]);
    let mut service = empty_service();
    service.environment = Some(vec!["X=0".to_string(), "Y=2".to_string()]);

    let cmd = resolve_instance_command(
        &"web-1".to_string(),
        &container,
        &service,
        &"web:latest".to_string(),
    );
    assert_eq!(cmd, "docker run -d --name web-1 -e X=1 web:latest");
}

#[test]
fn unit_default_is_inherited_when_instance_is_silent() {
    let container = empty_container();
    let mut service = empty_service();
    service.network_mode = Some("bridge".to_string());
    service.environment = Some(vec!["A=1".to_string(), "B=2".to_string()]);

    let cmd = resolve_instance_command(
        &"web-1".to_string(),
        &container,
        &service,
        &"web:latest".to_string(),
    );
    assert_eq!(
        cmd,
        "docker run -d --name web-1 --network bridge -e A=1 -e B=2 web:latest"
    );
}

#[test]
fn absent_fields_leave_no_trace_in_the_request() {
    let cmd = resolve_instance_command(
        &"w".to_string(),
        &empty_container(),
        &empty_service(),
        &"img".to_string(),
    );
    assert_eq!(cmd, "docker run -d --name w img");
}

#[test]
fn full_request_lays_flags_out_in_construction_order() {
    let mut container = empty_container();
    container.restart = Some("always".to_string());
    container.env_file = Some(vec!["a.env".to_string(), "b.env".to_string()]);
    container.volumes = Some(vec!["/data:/data".to_string()]);
    container.command = Some("serve --port 80".to_string());
    container.healthcheck = Some(HealthCheck {
        test: vec!["CMD".to_string(), "curl".to_string(), "-f localhost".to_string()],
        interval: "10s".to_string(),
        timeout: "3s".to_string(),
        retries: 5,
    });
    let mut service = empty_service();
    service.network_mode = Some("internal".to_string());

    let cmd = resolve_instance_command(
        &"svc-1".to_string(),
        &container,
        &service,
        &"svc:2".to_string(),
    );
    assert_eq!(
        cmd,
        "docker run -d --name svc-1 --network internal --restart always \
         --env-file a.env --env-file b.env -v /data:/data \
         --health-cmd='curl \"-f localhost\"' --health-interval=10s \
         --health-timeout=3s --health-retries=5 svc:2 serve --port 80"
    );
}

#[test]
fn resolution_prefers_instance_values_field_by_field() {
    let mut container = empty_container();
    container.restart = Some("no".to_string());
    container.remotecheck = Some(RemoteHealthCheck { port: Some(1), endpoint: None });
    let mut service = empty_service();
    service.restart = Some("always".to_string());
    service.network_mode = Some("bridge".to_string());
    service.remotecheck = Some(RemoteHealthCheck {
        port: Some(2),
        endpoint: Some("/x".to_string()),
    });

    let resolved = resolve_instance_config_values(&container, &service);
    assert_eq!(resolved.restart, Some("no".to_string()));
    assert_eq!(resolved.network_mode, Some("bridge".to_string()));
    let rc = resolved.remotecheck.unwrap();
    assert_eq!(rc.port, Some(1));
    assert_eq!(rc.endpoint, None);
}

#[test]
fn health_cmd_drops_cmd_marker_and_quotes_spaced_words() {
    let hc = HealthCheck {
        test: vec!["CMD".to_string(), "curl".to_string(), "-f http://x/".to_string()],
        interval: "5s".to_string(),
        timeout: "2s".to_string(),
        retries: 3,
    };
    assert_eq!(build_health_cmd(&hc), "curl \"-f http://x/\"");

    let hc = HealthCheck {
        test: vec!["CMD-SHELL".to_string(), "exit 0".to_string()],
        interval: "5s".to_string(),
        timeout: "2s".to_string(),
        retries: 3,
    };
    assert_eq!(build_health_cmd(&hc), "\"exit 0\"");

    let hc = HealthCheck {
        test: vec!["pg_isready".to_string()],
        interval: "5s".to_string(),
        timeout: "2s".to_string(),
        retries: 3,
    };
    assert_eq!(build_health_cmd(&hc), "pg_isready");
}

#[test]
fn empty_health_test_emits_no_probe_clause() {
    let mut container = empty_container();
    container.healthcheck = Some(HealthCheck {
        test: Vec::new(),
        interval: "10s".to_string(),
        timeout: "3s".to_string(),
        retries: 5,
    });
    let cmd = resolve_instance_command(
        &"w".to_string(),
        &container,
        &empty_service(),
        &"img".to_string(),
    );
    assert_eq!(cmd, "docker run -d --name w img");
}

#[test]
fn tar_file_name_replaces_separators() {
    assert_eq!(unit_tar_file(&"registry.io/team/app:1.2".to_string()), "registry.io_team_app_1.2.tar");
    assert_eq!(unit_tar_file(&"plain".to_string()), "plain.tar");
}

#[test]
fn decimal_rendering_is_exact() {
    assert_eq!(i32_to_string(0), "0");
    assert_eq!(i32_to_string(8080), "8080");
    assert_eq!(i32_to_string(-17), "-17");
    assert_eq!(i32_to_string(i32::MAX), "2147483647");
    assert_eq!(i32_to_string(i32::MIN), "-2147483648");
}

#[test]
fn probe_address_is_exact() {
    let url = build_health_url(
        &"host.example".to_string(),
        9000,
        &"/healthz".to_string(),
    );
    assert_eq!(url, "http://host.example:9000/healthz");
}

#[test]
fn polling_stops_on_first_success() {
    let mut state = HealthState::begin();
    let mut probes: u32 = 0;
    loop {
        probes += 1;
        let outcome = if probes == 4 {
            ProbeOutcome::Response { status: 204 }
        } else {
            ProbeOutcome::Unreachable
        };
        state = state.step(outcome);
        match state {
            HealthState::Polling { .. } => continue,
            _ => break,
        }
    }
    assert!(matches!(state, HealthState::Healthy));
    assert_eq!(probes, 4);
}

#[test]
fn polling_fails_after_thirty_unsuccessful_probes() {
    let mut state = HealthState::begin();
    let mut probes: u32 = 0;
    loop {
        probes += 1;
        state = state.step(ProbeOutcome::Response { status: 500 });
        match state {
            HealthState::Polling { .. } => continue,
            _ => break,
        }
    }
    assert!(matches!(state, HealthState::Failed));
    assert_eq!(probes, 30);
}

#[test]
fn redirect_status_is_not_success() {
    let state = HealthState::begin().step(ProbeOutcome::Response { status: 301 });
    assert!(matches!(state, HealthState::Polling { attempts: 1 }));
    let state = HealthState::begin().step(ProbeOutcome::Response { status: 299 });
    assert!(matches!(state, HealthState::Healthy));
}

#[test]
fn network_creation_command_is_exact() {
    let c = NetworkConfig {
        name: "backend".to_string(),
        explicit_name: None,
        driver: Some("bridge".to_string()),
        subnets: vec!["10.0.0.0/24".to_string(), "10.0.1.0/24".to_string()],
    };
    assert_eq!(
        network_create_command(&c),
        "docker network create backend --driver bridge --subnet 10.0.0.0/24 --subnet 10.0.1.0/24"
    );
    let c = NetworkConfig {
        name: "backend".to_string(),
        explicit_name: Some("corp-net".to_string()),
        driver: None,
        subnets: Vec::new(),
    };
    assert_eq!(network_create_command(&c), "docker network create corp-net");
}

#[test]
fn volume_creation_command_is_exact() {
    let c = VolumeConfig {
        name: "pgdata".to_string(),
        driver: Some("local".to_string()),
        driver_opts: vec![
            VolumeOpt { key: "type".to_string(), value: "nfs".to_string() },
            VolumeOpt { key: "device".to_string(), value: ":/export".to_string() },
        ],
    };
    assert_eq!(
        volume_create_command(&c),
        "docker volume create pgdata --driver local --opt type=nfs --opt device=:/export"
    );
}

fn defs(pairs: &[(&str, &str)]) -> Vec<ddr::variables::VarDef> {
    pairs
        .iter()
        .map(|(k, v)| ddr::variables::VarDef { name: k.to_string(), value: v.to_string() })
        .collect()
}

#[test]
fn variables_are_substituted_left_to_right() {
    let vars = defs(&[("HOST", "db.internal"), ("PORT", "5432")]);
    let out = ddr::variables::replace_variables(
        &"url: ${HOST}:${PORT}/x".to_string(),
        &vars,
    )
    .unwrap();
    assert_eq!(out, "url: db.internal:5432/x");
}

#[test]
fn undefined_variable_fails_the_load_and_is_named() {
    let vars = defs(&[("KNOWN", "v")]);
    let r = ddr::variables::replace_variables(
        &"a: ${KNOWN} b: ${MISSING}".to_string(),
        &vars,
    );
    assert_eq!(r.unwrap_err(), "MISSING");
}

#[test]
fn unterminated_and_empty_braces_stay_literal() {
    let vars = defs(&[("A", "1")]);
    let out = ddr::variables::replace_variables(&"x: ${A} y: ${}z ${tail".to_string(), &vars)
        .unwrap();
    assert_eq!(out, "x: 1 y: ${}z ${tail");
}

#[test]
fn text_without_variables_is_unchanged() {
    let out = ddr::variables::replace_variables(&"plain: text$".to_string(), &defs(&[]))
        .unwrap();
    assert_eq!(out, "plain: text$");
}
