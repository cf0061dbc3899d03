//! Configuration model: the unit graph and everything a deployment run reads.
//!
//! Units ("services") are named deployable groups; each carries group-level
//! runtime defaults and a list of named instances. An instance may override
//! any group-level default; the override replaces the default wholesale, it
//! is never merged with it.

use vstd::prelude::*;

verus! {

/// A remote HTTP health check: after activation the instance is polled at
/// `http://<host>:<port><endpoint>` until it answers with a success status.
#[derive(Clone)]
pub struct RemoteHealthCheck {
    pub port: Option<i32>,
    pub endpoint: Option<String>,
}

/// A local container health probe: a test command plus its schedule, passed
/// through to the runtime at activation time. Never polled by this system.
#[derive(Clone)]
pub struct HealthCheck {
    pub test: Vec<String>,
    pub interval: String,
    pub timeout: String,
    pub retries: i32,
}

/// Configuration of one runtime instance. Every optional field, when set,
/// overrides the group-level default of the owning unit.
#[derive(Clone)]
pub struct ContainerConfig {
    pub network_mode: Option<String>,
    pub restart: Option<String>,
    pub env_file: Option<Vec<String>>,
    pub volumes: Option<Vec<String>>,
    pub environment: Option<Vec<String>>,
    pub command: Option<String>,
    pub remotecheck: Option<RemoteHealthCheck>,
    pub healthcheck: Option<HealthCheck>,
}

/// One named instance of a unit.
#[derive(Clone)]
pub struct InstanceSpec {
    pub name: String,
    pub config: ContainerConfig,
}

/// Group-level configuration of one unit: its packaging identifier override,
/// its dependencies, its defaults, and its instances.
#[derive(Clone)]
pub struct ServiceConfig {
    pub image: Option<String>,
    pub network_mode: Option<String>,
    pub restart: Option<String>,
    pub env_file: Option<Vec<String>>,
    pub volumes: Option<Vec<String>>,
    pub environment: Option<Vec<String>>,
    pub depends_on: Option<Vec<String>>,
    pub instances: Vec<InstanceSpec>,
    pub remotecheck: Option<RemoteHealthCheck>,
}

/// One entry of the unit graph: a unit name and its configuration. The name
/// is the dependency-graph key; `depends_on` lists names of other entries.
#[derive(Clone)]
pub struct ServiceEntry {
    pub name: String,
    pub service: ServiceConfig,
}

/// Connection settings for the target host of a run.
pub struct SSHConfig {
    pub user: String,
    pub host: String,
    pub password: String,
    pub from_dir: String,
}

impl SSHConfig {
    pub fn new(user: String, host: String, password: String, from_dir: String) -> (r: SSHConfig)
        ensures
            r.user == user,
            r.host == host,
            r.password == password,
            r.from_dir == from_dir,
    {
        SSHConfig { user, host, password, from_dir }
    }
}

/// The mathematical value of an optional string: its characters, when set.
pub open spec fn opt_text(o: Option<String>) -> Option<Seq<char>> {
    match o {
        Some(s) => Some(s@),
        None => None,
    }
}

/// The mathematical value of an optional string list.
pub open spec fn opt_texts(o: Option<Vec<String>>) -> Option<Seq<Seq<char>>> {
    match o {
        Some(v) => Some(v.deep_view()),
        None => None,
    }
}

/// The mathematical value of a remote HTTP health check.
#[verifier::ext_equal]
pub ghost struct RemoteHealthCheckView {
    pub port: Option<int>,
    pub endpoint: Option<Seq<char>>,
}

impl View for RemoteHealthCheck {
    type V = RemoteHealthCheckView;

    open spec fn view(&self) -> RemoteHealthCheckView {
        RemoteHealthCheckView {
            port: match self.port {
                Some(p) => Some(p as int),
                None => None,
            },
            endpoint: opt_text(self.endpoint),
        }
    }
}

/// The mathematical value of a local container health probe.
#[verifier::ext_equal]
pub ghost struct HealthCheckView {
    pub test: Seq<Seq<char>>,
    pub interval: Seq<char>,
    pub timeout: Seq<char>,
    pub retries: int,
}

impl View for HealthCheck {
    type V = HealthCheckView;

    open spec fn view(&self) -> HealthCheckView {
        HealthCheckView {
            test: self.test.deep_view(),
            interval: self.interval@,
            timeout: self.timeout@,
            retries: self.retries as int,
        }
    }
}

/// The mathematical value of an instance configuration.
#[verifier::ext_equal]
pub ghost struct ContainerConfigView {
    pub network_mode: Option<Seq<char>>,
    pub restart: Option<Seq<char>>,
    pub env_file: Option<Seq<Seq<char>>>,
    pub volumes: Option<Seq<Seq<char>>>,
    pub environment: Option<Seq<Seq<char>>>,
    pub command: Option<Seq<char>>,
    pub remotecheck: Option<RemoteHealthCheckView>,
    pub healthcheck: Option<HealthCheckView>,
}

impl View for ContainerConfig {
    type V = ContainerConfigView;

    open spec fn view(&self) -> ContainerConfigView {
        ContainerConfigView {
            network_mode: opt_text(self.network_mode),
            restart: opt_text(self.restart),
            env_file: opt_texts(self.env_file),
            volumes: opt_texts(self.volumes),
            environment: opt_texts(self.environment),
            command: opt_text(self.command),
            remotecheck: match self.remotecheck {
                Some(rc) => Some(rc@),
                None => None,
            },
            healthcheck: match self.healthcheck {
                Some(hc) => Some(hc@),
                None => None,
            },
        }
    }
}

/// The mathematical value of one named instance.
#[verifier::ext_equal]
pub ghost struct InstanceSpecView {
    pub name: Seq<char>,
    pub config: ContainerConfigView,
}

impl View for InstanceSpec {
    type V = InstanceSpecView;

    open spec fn view(&self) -> InstanceSpecView {
        InstanceSpecView { name: self.name@, config: self.config@ }
    }
}

/// The mathematical value of a unit's group-level configuration.
#[verifier::ext_equal]
pub ghost struct ServiceConfigView {
    pub image: Option<Seq<char>>,
    pub network_mode: Option<Seq<char>>,
    pub restart: Option<Seq<char>>,
    pub env_file: Option<Seq<Seq<char>>>,
    pub volumes: Option<Seq<Seq<char>>>,
    pub environment: Option<Seq<Seq<char>>>,
    pub depends_on: Option<Seq<Seq<char>>>,
    pub instances: Seq<InstanceSpecView>,
    pub remotecheck: Option<RemoteHealthCheckView>,
}

impl View for ServiceConfig {
    type V = ServiceConfigView;

    open spec fn view(&self) -> ServiceConfigView {
        ServiceConfigView {
            image: opt_text(self.image),
            network_mode: opt_text(self.network_mode),
            restart: opt_text(self.restart),
            env_file: opt_texts(self.env_file),
            volumes: opt_texts(self.volumes),
            environment: opt_texts(self.environment),
            depends_on: opt_texts(self.depends_on),
            instances: Seq::new(
                self.instances@.len(),
                |i: int| self.instances@[i]@,
            ),
            remotecheck: match self.remotecheck {
                Some(rc) => Some(rc@),
                None => None,
            },
        }
    }
}

/// Parsed command line of the deployment tool.
pub struct Cli {
    pub command: Commands,
    pub dry_run: bool,
    pub config: String,
    pub envs: Option<Vec<String>>,
    pub env_config: String,
}

/// The subcommands of the deployment tool.
pub enum Commands {
    Deploy { group_name: String },
}

} // verus!
