//! Wave resolution, whole-run planning, and the orchestrator state machine.

use ddr::config::{ContainerConfig, InstanceSpec, RemoteHealthCheck, SSHConfig, ServiceConfig,
    ServiceEntry};
use ddr::errors::DeployError;
use ddr::health::ProbeOutcome;
use ddr::orchestrator::{Action, Event, Orchestrator};
use ddr::plan::deploy_plan;
use ddr::waves::resolve_this_wave;

fn bare_service(deps: &[&str]) -> ServiceConfig {
    ServiceConfig {
        image: None,
        network_mode: None,
        restart: None,
        env_file: None,
        volumes: None,
        environment: None,
        depends_on: if deps.is_empty() {
            None
        } else {
            Some(deps.iter().map(|d| d.to_string()).collect())
        },
        instances: Vec::new(),
        remotecheck: None,
    }
}

fn entry(name: &str, deps: &[&str]) -> ServiceEntry {
    ServiceEntry { name: name.to_string(), service: bare_service(deps) }
}

fn ssh() -> SSHConfig {
    SSHConfig::new(
        "deploy".to_string(),
        "target.example".to_string(),
        "SECRET-REDACTED".to_string(),
        "/srv/app".to_string(),
    )
}

#[test]
fn unit_without_dependencies_is_eligible_in_first_wave() {
    let services = vec![entry("a", &["b"]), entry("solo", &[]), entry("b", &["a"])];
    let wave = resolve_this_wave(&services, &Vec::new()).unwrap();
    assert_eq!(wave, vec!["solo".to_string()]);
}

#[test]
fn wave_lists_only_units_whose_dependencies_are_deployed() {
    let services = vec![entry("api", &["db"]), entry("worker", &["db", "api"])];
    let deployed = vec!["db".to_string()];
    let wave = resolve_this_wave(&services, &deployed).unwrap();
    assert_eq!(wave, vec!["api".to_string()]);
}

#[test]
fn empty_wave_is_a_graph_error() {
    let services = vec![entry("a", &["b"]), entry("b", &["a"])];
    let r = resolve_this_wave(&services, &Vec::new());
    assert!(matches!(r, Err(DeployError::GraphError { .. })));
}

#[test]
fn linear_graph_deploys_in_three_waves() {
    let services = vec![entry("A", &[]), entry("B", &["A"]), entry("C", &["A", "B"])];
    let waves = deploy_plan(services).unwrap();
    assert_eq!(
        waves,
        vec![vec!["A".to_string()], vec!["B".to_string()], vec!["C".to_string()]]
    );
}

#[test]
fn independent_units_share_a_wave() {
    let services = vec![
        entry("db", &[]),
        entry("cache", &[]),
        entry("api", &["db", "cache"]),
    ];
    let waves = deploy_plan(services).unwrap();
    assert_eq!(
        waves,
        vec![vec!["db".to_string(), "cache".to_string()], vec!["api".to_string()]]
    );
}

#[test]
fn two_cycle_yields_graph_error_and_deploys_nothing() {
    let services = vec![entry("A", &["B"]), entry("B", &["A"])];
    let r = deploy_plan(services);
    assert!(matches!(r, Err(DeployError::GraphError { .. })));

    let services = vec![entry("A", &["B"]), entry("B", &["A"])];
    let mut orch = Orchestrator::new(services, ssh(), false);
    let first = orch.step(Event::Start);
    assert!(matches!(
        first,
        Action::Fatal { error: DeployError::GraphError { .. } }
    ));
    assert!(orch.st.deployed.is_empty());
}

#[test]
fn undeclared_dependency_yields_graph_error() {
    let services = vec![entry("app", &["ghostly"])];
    let r = deploy_plan(services);
    assert!(matches!(r, Err(DeployError::GraphError { .. })));
}

#[test]
fn cycle_detected_only_after_satisfiable_prefix_deploys() {
    // "base" deploys; then "x" and "y" wait on each other forever.
    let services = vec![entry("base", &[]), entry("x", &["y", "base"]), entry("y", &["x"])];
    let mut orch = Orchestrator::new(services, ssh(), true);
    let a1 = orch.step(Event::Start);
    assert!(matches!(a1, Action::AnnounceUnit { ref unit, .. } if unit == "base"));
    let a2 = orch.step(Event::Done);
    assert!(matches!(
        a2,
        Action::Fatal { error: DeployError::GraphError { .. } }
    ));
    assert_eq!(orch.st.deployed, vec!["base".to_string()]);
}

#[test]
fn simulation_announces_every_unit_in_plan_order_and_asks_nothing_else() {
    let services = vec![
        entry("db", &[]),
        entry("api", &["db"]),
        entry("web", &["api"]),
    ];
    let planned = deploy_plan(vec![
        entry("db", &[]),
        entry("api", &["db"]),
        entry("web", &["api"]),
    ])
    .unwrap();

    let mut orch = Orchestrator::new(services, ssh(), true);
    let mut announced: Vec<String> = Vec::new();
    let mut action = orch.step(Event::Start);
    loop {
        match action {
            Action::AnnounceUnit { unit, .. } => {
                announced.push(unit);
                action = orch.step(Event::Done);
            }
            Action::Finished => break,
            other => panic!("simulation asked for outside work: {:?}", action_kind(&other)),
        }
    }
    let flat: Vec<String> = planned.into_iter().flatten().collect();
    assert_eq!(announced, flat);
    assert_eq!(orch.st.deployed, announced);
}

fn action_kind(a: &Action) -> &'static str {
    match a {
        Action::AnnounceUnit { .. } => "announce",
        Action::SaveImage { .. } => "save",
        Action::Transfer { .. } => "transfer",
        Action::Activate { .. } => "activate",
        Action::Probe { .. } => "probe",
        Action::RemoveArtifact { .. } => "remove",
        Action::Finished => "finished",
        Action::Fatal { .. } => "fatal",
    }
}

#[test]
fn real_run_matches_simulation_growth_and_wave_sequence() {
    let graph = || {
        vec![
            entry("db", &[]),
            entry("cache", &[]),
            entry("api", &["db", "cache"]),
        ]
    };

    // simulation
    let mut dry = Orchestrator::new(graph(), ssh(), true);
    let mut action = dry.step(Event::Start);
    while !matches!(action, Action::Finished) {
        action = dry.step(Event::Done);
    }

    // real run, every action succeeding
    let mut real = Orchestrator::new(graph(), ssh(), false);
    let mut action = real.step(Event::Start);
    let mut outside_calls: usize = 0;
    while !matches!(action, Action::Finished) {
        outside_calls += 1;
        action = real.step(Event::Done);
    }

    assert_eq!(dry.st.deployed, real.st.deployed);
    assert_eq!(dry.st.deployed, vec![
        "db".to_string(),
        "cache".to_string(),
        "api".to_string()
    ]);
    // the real run did package, transfer and clean up each of the three units
    assert_eq!(outside_calls, 9);
}

fn checked_service() -> ServiceEntry {
    let instance = InstanceSpec {
        name: "api-1".to_string(),
        config: ContainerConfig {
            network_mode: None,
            restart: None,
            env_file: None,
            volumes: None,
            environment: None,
            command: None,
            remotecheck: Some(RemoteHealthCheck {
                port: Some(8080),
                endpoint: Some("/health".to_string()),
            }),
            healthcheck: None,
        },
    };
    ServiceEntry {
        name: "api".to_string(),
        service: ServiceConfig {
            image: Some("registry/api:1.0".to_string()),
            network_mode: None,
            restart: None,
            env_file: None,
            volumes: None,
            environment: None,
            depends_on: None,
            instances: vec![instance],
            remotecheck: None,
        },
    }
}

#[test]
fn real_run_pipeline_for_one_checked_instance() {
    let mut orch = Orchestrator::new(vec![checked_service()], ssh(), false);

    let a = orch.step(Event::Start);
    match a {
        Action::SaveImage { image, tar_file } => {
            assert_eq!(image, "registry/api:1.0");
            assert_eq!(tar_file, "registry_api_1.0.tar");
        }
        _ => panic!("expected packaging first"),
    }
    let a = orch.step(Event::Done);
    match a {
        Action::Transfer { local_file, remote_path } => {
            assert_eq!(local_file, "registry_api_1.0.tar");
            assert_eq!(remote_path, "/tmp/registry_api_1.0.tar");
        }
        _ => panic!("expected transfer after packaging"),
    }
    let a = orch.step(Event::Done);
    match a {
        Action::Activate { instance, load_command, remove_command, run_command } => {
            assert_eq!(instance, "api-1");
            assert_eq!(load_command, "docker load -i /tmp/registry_api_1.0.tar");
            assert_eq!(remove_command, "docker rm -f api-1 || true");
            assert_eq!(
                run_command,
                "cd /srv/app && docker run -d --name api-1 registry/api:1.0"
            );
        }
        _ => panic!("expected activation after transfer"),
    }
    let a = orch.step(Event::Done);
    match a {
        Action::Probe { instance, url } => {
            assert_eq!(instance, "api-1");
            assert_eq!(url, "http://target.example:8080/health");
        }
        _ => panic!("expected a health probe after activation"),
    }
    // first probe unreachable, second healthy
    let a = orch.step(Event::Probed { outcome: ProbeOutcome::Unreachable });
    assert!(matches!(a, Action::Probe { .. }));
    let a = orch.step(Event::Probed { outcome: ProbeOutcome::Response { status: 200 } });
    match a {
        Action::RemoveArtifact { remote_command, local_file } => {
            assert_eq!(remote_command, "rm -f /tmp/registry_api_1.0.tar");
            assert_eq!(local_file, "registry_api_1.0.tar");
        }
        _ => panic!("expected artifact cleanup after a healthy probe"),
    }
    let a = orch.step(Event::Done);
    assert!(matches!(a, Action::Finished));
    assert_eq!(orch.st.deployed, vec!["api".to_string()]);
}

#[test]
fn verification_gives_up_after_thirty_probes_and_cleans_up() {
    let mut orch = Orchestrator::new(vec![checked_service()], ssh(), false);
    let _ = orch.step(Event::Start); // package
    let _ = orch.step(Event::Done); // transfer
    let _ = orch.step(Event::Done); // activate
    let mut a = orch.step(Event::Done); // first probe
    let mut probes: usize = 1;
    loop {
        assert!(matches!(a, Action::Probe { .. }));
        a = orch.step(Event::Probed { outcome: ProbeOutcome::Response { status: 503 } });
        match a {
            Action::Probe { .. } => probes += 1,
            _ => break,
        }
    }
    assert_eq!(probes, 30);
    assert!(matches!(a, Action::RemoveArtifact { .. }));
    let a = orch.step(Event::Done);
    match a {
        Action::Fatal { error: DeployError::VerificationError { unit, instance, url } } => {
            assert_eq!(unit, "api");
            assert_eq!(instance, "api-1");
            assert_eq!(url, "http://target.example:8080/health");
        }
        _ => panic!("expected a verification error"),
    }
    assert!(orch.st.deployed.is_empty());
}

#[test]
fn packaging_failure_is_a_pipeline_error() {
    let mut orch = Orchestrator::new(vec![entry("api", &[])], ssh(), false);
    let a = orch.step(Event::Start);
    assert!(matches!(a, Action::SaveImage { .. }));
    let a = orch.step(Event::Failed { detail: "runtime unavailable".to_string() });
    match a {
        Action::Fatal { error: DeployError::PipelineError { unit, detail } } => {
            assert_eq!(unit, "api");
            assert_eq!(detail, "runtime unavailable");
        }
        _ => panic!("expected a pipeline error"),
    }
}

#[test]
fn activation_failure_names_unit_and_instance() {
    let mut entry_api = checked_service();
    entry_api.service.instances[0].config.remotecheck = None;
    let mut orch = Orchestrator::new(vec![entry_api], ssh(), false);
    let _ = orch.step(Event::Start); // package
    let _ = orch.step(Event::Done); // transfer
    let a = orch.step(Event::Done); // activate
    assert!(matches!(a, Action::Activate { .. }));
    let a = orch.step(Event::Failed { detail: "exit status 125".to_string() });
    match a {
        Action::Fatal { error: DeployError::ActivationError { unit, instance, detail } } => {
            assert_eq!(unit, "api");
            assert_eq!(instance, "api-1");
            assert_eq!(detail, "exit status 125");
        }
        _ => panic!("expected an activation error"),
    }
}

#[test]
fn unit_without_instances_skips_activation() {
    let mut orch = Orchestrator::new(vec![entry("plain", &[])], ssh(), false);
    let a = orch.step(Event::Start);
    assert!(matches!(a, Action::SaveImage { .. }));
    let a = orch.step(Event::Done);
    assert!(matches!(a, Action::Transfer { .. }));
    let a = orch.step(Event::Done);
    assert!(matches!(a, Action::RemoveArtifact { .. }));
    let a = orch.step(Event::Done);
    assert!(matches!(a, Action::Finished));
}

#[test]
fn error_messages_name_the_parties() {
    let e = DeployError::VerificationError {
        unit: "api".to_string(),
        instance: "api-1".to_string(),
        url: "http://h:1/x".to_string(),
    };
    assert_eq!(
        e.message(),
        "instance api-1 of unit api never became healthy at http://h:1/x"
    );
    let e = DeployError::PipelineError {
        unit: "db".to_string(),
        detail: "no space left".to_string(),
    };
    assert_eq!(e.message(), "pipeline failure for unit db: no space left");
    let e = DeployError::ActivationError {
        unit: "db".to_string(),
        instance: "db-1".to_string(),
        detail: "exit 1".to_string(),
    };
    assert_eq!(
        e.message(),
        "activation failure for unit db, instance db-1: exit 1"
    );
    let e = DeployError::GraphError { detail: "stuck".to_string() };
    assert_eq!(e.message(), "unsatisfiable dependency graph: stuck");
}

#[test]
fn wave_resolution_is_repeatable_for_a_fixed_graph() {
    let graph = || {
        vec![
            entry("a", &[]),
            entry("b", &["a"]),
            entry("c", &[]),
            entry("d", &["b", "c"]),
        ]
    };
    let first = deploy_plan(graph()).unwrap();
    let second = deploy_plan(graph()).unwrap();
    assert_eq!(first, second);
    assert_eq!(
        first,
        vec![
            vec!["a".to_string(), "c".to_string()],
            vec!["b".to_string()],
            vec!["d".to_string()],
        ]
    );
}

#[test]
fn transfer_failure_is_fatal_with_the_reported_detail() {
    let mut orch = Orchestrator::new(vec![entry("api", &[])], ssh(), false);
    let _ = orch.step(Event::Start); // package
    let a = orch.step(Event::Done); // transfer
    assert!(matches!(a, Action::Transfer { .. }));
    let a = orch.step(Event::Failed { detail: "connection reset".to_string() });
    match a {
        Action::Fatal { error: DeployError::PipelineError { unit, detail } } => {
            assert_eq!(unit, "api");
            assert_eq!(detail, "connection reset");
        }
        _ => panic!("expected a pipeline error"),
    }
    assert!(orch.st.deployed.is_empty());
}

#[test]
fn cleanup_failure_is_fatal_and_the_unit_is_not_deployed() {
    let mut orch = Orchestrator::new(vec![entry("api", &[])], ssh(), false);
    let _ = orch.step(Event::Start); // package
    let _ = orch.step(Event::Done); // transfer
    let a = orch.step(Event::Done); // cleanup (no instances)
    assert!(matches!(a, Action::RemoveArtifact { .. }));
    let a = orch.step(Event::Failed { detail: "remote rm failed".to_string() });
    match a {
        Action::Fatal { error: DeployError::PipelineError { unit, detail } } => {
            assert_eq!(unit, "api");
            assert_eq!(detail, "remote rm failed");
        }
        _ => panic!("expected a pipeline error"),
    }
    assert!(orch.st.deployed.is_empty());
}
