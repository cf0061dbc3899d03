//! The deployment orchestrator: a state machine that drives a whole run.
//!
//! The orchestrator owns the deployed set and the remaining units. It hands
//! the caller one outside action at a time — package, transfer, activate,
//! probe, clean up — and consumes the outcome of each before deciding the
//! next. All decisions are made here; the caller only performs the actions
//! and reports what happened. In simulation mode the orchestrator walks the
//! very same schedule but asks for nothing beyond announcements: packaging,
//! transport and remote execution are never requested.
//!
//! Any failure is fatal to the run: the machine reports the first failure,
//! naming the unit and, where one is involved, the instance, and stops. A
//! failed health verification first asks for best-effort cleanup of the
//! transferred artifact.

use vstd::prelude::*;

use crate::command::{
    activation_command, activation_text, clone_service_config, docker_run_command, load_command,
    load_command_text, remote_artifact_path, remote_path_text, remove_artifact_command,
    remove_artifact_text, remove_container_command, remove_container_text, resolved_config,
    resolve_instance_command, tar_file_text, unit_tar_file,
};
use crate::config::{InstanceSpec, SSHConfig, ServiceEntry};
use crate::errors::DeployError;
use crate::graph::{has_ready_entry, lemma_eligible_names_unique, lemma_filter_all,
    lemma_wave_entries};
use crate::health::{build_health_url, health_url, HealthState, ProbeOutcome, MAX_HEALTH_ATTEMPTS};
use crate::plan::{planned_waves, remove_named, DeployState};
use crate::waves::{acyclic, all_deps_deployed, deps_of, eligible_names, graph_closed, names_of,
    unique_names};

verus! {

/// One outside action the caller must perform before the run can go on.
pub enum Action {
    /// Simulation only: announce the unit; nothing is performed, the unit
    /// still joins the deployed set for graph resolution.
    AnnounceUnit { unit: String, tar_file: String },
    /// Package the unit's artifact into a local archive file.
    SaveImage { image: String, tar_file: String },
    /// Copy the local archive to the remote path on the target host.
    Transfer { local_file: String, remote_path: String },
    /// Run the three remote activation commands for one instance, in order,
    /// stopping at the first that reports non-zero completion status.
    Activate {
        instance: String,
        load_command: String,
        remove_command: String,
        run_command: String,
    },
    /// Issue one HTTP GET against the instance's health endpoint, one second
    /// after the previous probe.
    Probe { instance: String, url: String },
    /// Remove the transferred artifact, remotely and locally; best effort.
    RemoveArtifact { remote_command: String, local_file: String },
    /// The graph is fully deployed; the run is over.
    Finished,
    /// The run ended with its first fatal error.
    Fatal { error: DeployError },
}

/// What the last requested action produced.
pub enum Event {
    /// Begin the run; the first input to a fresh orchestrator.
    Start,
    /// The action completed successfully.
    Done,
    /// The action failed, with the tool's message.
    Failed { detail: String },
    /// The probe produced this outcome.
    Probed { outcome: ProbeOutcome },
}

/// Everything needed to deploy the unit currently being worked on.
pub struct UnitWork {
    pub name: String,
    pub image: String,
    pub tar_file: String,
    pub service: crate::config::ServiceConfig,
}

/// Where the machine stands inside the current unit's pipeline.
#[derive(Clone, Copy)]
pub enum Phase {
    /// Fresh machine; nothing begun.
    Idle,
    /// Simulation: the unit was announced and will be marked deployed.
    Announced,
    /// The unit's artifact is being packaged.
    Saving,
    /// The packaged artifact is being transferred.
    Transferring,
    /// The numbered instance is being activated.
    Activating { instance_index: usize },
    /// The numbered instance is being health-verified.
    Probing { instance_index: usize, health: HealthState },
    /// The artifact is being removed after a completed unit.
    CleaningUp,
    /// Best-effort cleanup after a failed verification of the numbered
    /// instance; the run fails afterwards regardless of the outcome.
    FailedCleanup { instance_index: usize },
    /// The run completed: every unit is deployed.
    Done,
    /// The run ended with a fatal error.
    Failed,
}

/// The packaging identifier of a unit: its explicit artifact identifier
/// when declared, else the unit name itself.
pub open spec fn artifact_text(e: ServiceEntry) -> Seq<char> {
    match e.service.image {
        Some(img) => img@,
        None => e.name@,
    }
}

/// The orchestrator of one deployment run.
pub struct Orchestrator {
    pub st: DeployState,
    pub wave: Vec<String>,
    pub wi: usize,
    pub unit: Option<UnitWork>,
    pub phase: Phase,
    pub dry_run: bool,
    pub ssh: SSHConfig,
    pub full: Ghost<Seq<Seq<Seq<char>>>>,
    pub waves_done: Ghost<int>,
    pub wave_rem0: Ghost<Seq<ServiceEntry>>,
    pub wave_dep0: Ghost<Seq<Seq<char>>>,
}

impl Orchestrator {
    /// The unit graph the run started from.
    pub open spec fn graph(self) -> Seq<ServiceEntry> {
        self.st.graph()
    }

    /// The names of the current wave.
    pub open spec fn wave_names(self) -> Seq<Seq<char>> {
        self.wave.deep_view()
    }

    /// The instances of the unit being worked on.
    pub open spec fn instances_of(self) -> Seq<InstanceSpec> {
        self.unit->0.service.instances@
    }

    /// A unit is active and the stored work matches its graph entry.
    pub open spec fn unit_ok(self) -> bool {
        &&& (self.wi as int) < self.wave_names().len()
        &&& self.unit is Some
        &&& {
            let u = self.unit->0;
            &&& u.name@ == self.wave_names()[self.wi as int]
            &&& exists|i: int|
                0 <= i < self.st.rem().len() && (#[trigger] self.st.rem()[i]).name@ == u.name@
                    && u.service@ == self.st.rem()[i].service@ && u.image@ == artifact_text(
                    self.st.rem()[i],
                )
            &&& u.tar_file@ == tar_file_text(u.image@)
        }
    }

    /// The numbered instance declares, after resolution, a remote check with
    /// both an endpoint and a port.
    pub open spec fn probe_target_ok(self, ii: int) -> bool {
        &&& 0 <= ii < self.instances_of().len()
        &&& {
            let rcfg = resolved_config(self.instances_of()[ii].config@, self.unit->0.service@);
            &&& rcfg.remotecheck is Some
            &&& rcfg.remotecheck->0.port is Some
            &&& rcfg.remotecheck->0.endpoint is Some
        }
    }

    /// What must hold of the machine in each phase.
    pub open spec fn phase_ok(self) -> bool {
        match self.phase {
            Phase::Idle => self.wave_names().len() == 0 && self.wi == 0 && self.unit is None
                && self.st.dep().len() == 0,
            Phase::Announced => self.unit_ok() && self.dry_run,
            Phase::Saving => self.unit_ok() && !self.dry_run,
            Phase::Transferring => self.unit_ok() && !self.dry_run,
            Phase::Activating { instance_index } => self.unit_ok() && !self.dry_run && (
            instance_index as int) < self.instances_of().len(),
            Phase::Probing { instance_index, health } => self.unit_ok() && !self.dry_run
                && self.probe_target_ok(instance_index as int) && health is Polling
                && health.attempts_of() < MAX_HEALTH_ATTEMPTS,
            Phase::CleaningUp => self.unit_ok() && !self.dry_run,
            Phase::FailedCleanup { instance_index } => self.unit_ok() && !self.dry_run
                && self.probe_target_ok(instance_index as int),
            Phase::Done => self.st.rem().len() == 0,
            Phase::Failed => true,
        }
    }

    /// The run follows the planned schedule: the deployed names are the
    /// flattened completed waves plus the completed prefix of the current
    /// wave, the remainder is the graph minus the deployed names, and the
    /// waves still to come are the plan's remaining waves.
    pub open spec fn schedule_ok(self) -> bool {
        let g = self.graph();
        let full = self.full@;
        let w = self.wave_names();
        &&& full == planned_waves(g, Seq::empty())
        &&& 0 <= self.waves_done@ <= full.len()
        &&& 0 <= self.wi as int <= w.len()
        &&& planned_waves(self.wave_rem0@, self.wave_dep0@) == full.skip(self.waves_done@)
        &&& self.wave_dep0@ == full.take(self.waves_done@).flatten()
        &&& self.st.dep() == self.wave_dep0@ + w.take(self.wi as int)
        &&& self.st.rem() == remove_named(self.wave_rem0@, w.take(self.wi as int))
        &&& (w.len() > 0 ==> w == eligible_names(self.wave_rem0@, self.wave_dep0@)
            && self.wave_rem0@.len() > 0)
        &&& w.no_duplicates()
        &&& forall|t: int|
            self.wi as int <= t < w.len() ==> has_ready_entry(
                self.st.rem(),
                self.wave_dep0@,
                #[trigger] w[t],
            )
    }

    /// The machine's full well-formedness.
    pub open spec fn inv(self) -> bool {
        &&& self.st.inv()
        &&& self.schedule_ok()
        &&& self.phase_ok()
    }

    /// The run is over, successfully or not.
    pub open spec fn terminal(self) -> bool {
        self.phase is Done || self.phase is Failed
    }

    /// Everything a step must leave untouched.
    pub open spec fn constants_match(self, o: Orchestrator) -> bool {
        &&& self.graph() == o.graph()
        &&& self.dry_run == o.dry_run
        &&& self.ssh.host@ == o.ssh.host@
        &&& self.ssh.from_dir@ == o.ssh.from_dir@
        &&& self.full == o.full
    }

    /// Which events answer which phase.
    pub open spec fn event_fits(self, e: Event) -> bool {
        match self.phase {
            Phase::Idle => e is Start,
            Phase::Announced => e is Done,
            Phase::Saving => e is Done || e is Failed,
            Phase::Transferring => e is Done || e is Failed,
            Phase::Activating { .. } => e is Done || e is Failed,
            Phase::Probing { .. } => e is Probed,
            Phase::CleaningUp => e is Done || e is Failed,
            Phase::FailedCleanup { .. } => e is Done || e is Failed,
            Phase::Done => false,
            Phase::Failed => false,
        }
    }

    /// The action a step returns matches the phase it leaves the machine in,
    /// text for text.
    pub open spec fn action_fits(self, r: Action) -> bool {
        match self.phase {
            Phase::Idle => false,
            Phase::Announced => r matches Action::AnnounceUnit { unit, tar_file } && unit@
                == self.unit->0.name@ && tar_file@ == self.unit->0.tar_file@,
            Phase::Saving => r matches Action::SaveImage { image, tar_file } && image@
                == self.unit->0.image@ && tar_file@ == self.unit->0.tar_file@,
            Phase::Transferring => r matches Action::Transfer { local_file, remote_path }
                && local_file@ == self.unit->0.tar_file@ && remote_path@ == remote_path_text(
                self.unit->0.tar_file@,
            ),
            Phase::Activating { instance_index } => r matches Action::Activate {
                instance,
                load_command,
                remove_command,
                run_command,
            } && {
                let u = self.unit->0;
                let inst = self.instances_of()[instance_index as int];
                &&& instance@ == inst.name@
                &&& load_command@ == load_command_text(u.tar_file@)
                &&& remove_command@ == remove_container_text(inst.name@)
                &&& run_command@ == activation_text(
                    self.ssh.from_dir@,
                    docker_run_command(
                        inst.name@,
                        resolved_config(inst.config@, u.service@),
                        u.image@,
                    ),
                )
            },
            Phase::Probing { instance_index, .. } => r matches Action::Probe { instance, url } && {
                let inst = self.instances_of()[instance_index as int];
                let rcfg = resolved_config(inst.config@, self.unit->0.service@);
                &&& instance@ == inst.name@
                &&& url@ == health_url(
                    self.ssh.host@,
                    rcfg.remotecheck->0.port->0,
                    rcfg.remotecheck->0.endpoint->0,
                )
            },
            Phase::CleaningUp => r matches Action::RemoveArtifact { remote_command, local_file }
                && remote_command@ == remove_artifact_text(self.unit->0.tar_file@) && local_file@
                == self.unit->0.tar_file@,
            Phase::FailedCleanup { .. } => r matches Action::RemoveArtifact {
                remote_command,
                local_file,
            } && remote_command@ == remove_artifact_text(self.unit->0.tar_file@) && local_file@
                == self.unit->0.tar_file@,
            Phase::Done => r is Finished,
            Phase::Failed => r is Fatal,
        }
    }

    /// A fatal error names what failed: the graph, or the active unit and,
    /// where one was involved, the instance.
    pub open spec fn fatal_fits(self, err: DeployError) -> bool {
        match err {
            DeployError::GraphError { .. } => !(graph_closed(self.graph()) && acyclic(
                self.graph(),
            )),
            DeployError::PipelineError { unit, .. } => (self.phase is Saving
                || self.phase is Transferring || self.phase is CleaningUp) && self.unit is Some
                && unit@ == self.unit->0.name@,
            DeployError::ActivationError { unit, instance, .. } => self.unit is Some && unit@
                == self.unit->0.name@ && (self.phase matches Phase::Activating { instance_index }
                && instance@ == self.instances_of()[instance_index as int].name@),
            DeployError::VerificationError { unit, instance, url } => self.unit is Some && unit@
                == self.unit->0.name@ && (self.phase matches Phase::FailedCleanup { instance_index }
                && instance@ == self.instances_of()[instance_index as int].name@ && url@
                == health_url(
                self.ssh.host@,
                resolved_config(
                    self.instances_of()[instance_index as int].config@,
                    self.unit->0.service@,
                ).remotecheck->0.port->0,
                resolved_config(
                    self.instances_of()[instance_index as int].config@,
                    self.unit->0.service@,
                ).remotecheck->0.endpoint->0,
            )),
        }
    }

    /// A step that stays inside the current unit's pipeline leaves the two
    /// sets, the active unit and the wave position untouched.
    pub open spec fn mid_unit_same(self, post: Orchestrator) -> bool {
        &&& post.st == self.st
        &&& post.unit == self.unit
        &&& post.wave == self.wave
        &&& post.wi == self.wi
    }

    /// The machine stands at the head of a unit's pipeline — about to
    /// announce or package the next unit — or the run is over.
    pub open spec fn at_pipeline_head(self) -> bool {
        ||| (self.phase is Announced && self.dry_run)
        ||| (self.phase is Saving && !self.dry_run)
        ||| self.phase is Done
        ||| self.phase is Failed
    }

    /// After instance `ii` of the active unit is done, the machine turns to
    /// instance `ii + 1`, or to artifact cleanup when `ii` was the last.
    pub open spec fn next_instance_or_cleanup(self, post: Orchestrator, ii: int) -> bool {
        &&& self.mid_unit_same(post)
        &&& if ii + 1 < self.instances_of().len() {
            post.phase == (Phase::Activating { instance_index: (ii + 1) as usize })
        } else {
            post.phase is CleaningUp
        }
    }

    /// The active unit was recorded as deployed — its name joined the
    /// deployed set — and the machine stands at the next pipeline head; a
    /// failure here can only be the unsatisfiable-graph one.
    pub open spec fn unit_completed(self, post: Orchestrator, r: Action) -> bool {
        &&& post.st.dep() == self.st.dep().push(self.unit->0.name@)
        &&& post.at_pipeline_head()
        &&& (post.phase is Failed ==> (r matches Action::Fatal { error }
            && error is GraphError))
    }

    /// The transition relation of one step: how the event moves the machine
    /// from its old phase to the new one. Together with `action_fits` and
    /// `fatal_fits` this forces the pipeline order of §4.2 — package, then
    /// transfer, then per-instance activation and verification, then
    /// cleanup, then the deployed set — and the error policy of §7: every
    /// reported failure ends the run at once, carrying the failure's own
    /// message.
    pub open spec fn step_rel(self, event: Event, post: Orchestrator, r: Action) -> bool {
        match self.phase {
            Phase::Idle => {
                &&& post.st == self.st
                &&& post.at_pipeline_head()
                &&& (post.phase is Failed ==> (r matches Action::Fatal { error }
                    && error is GraphError))
            },
            Phase::Saving => match event {
                Event::Done => self.mid_unit_same(post) && post.phase is Transferring,
                Event::Failed { detail } => post.phase is Failed && (r matches Action::Fatal {
                    error,
                } && error is PipelineError && error->PipelineError_detail == detail),
                _ => false,
            },
            Phase::Transferring => match event {
                Event::Done => {
                    &&& self.mid_unit_same(post)
                    &&& if self.instances_of().len() > 0 {
                        post.phase == (Phase::Activating { instance_index: 0 })
                    } else {
                        post.phase is CleaningUp
                    }
                },
                Event::Failed { detail } => post.phase is Failed && (r matches Action::Fatal {
                    error,
                } && error is PipelineError && error->PipelineError_detail == detail),
                _ => false,
            },
            Phase::Activating { instance_index } => match event {
                Event::Done => {
                    if self.probe_target_ok(instance_index as int) {
                        &&& self.mid_unit_same(post)
                        &&& post.phase == (Phase::Probing {
                            instance_index,
                            health: HealthState::Polling { attempts: 0u32 },
                        })
                    } else {
                        self.next_instance_or_cleanup(post, instance_index as int)
                    }
                },
                Event::Failed { detail } => post.phase is Failed && (r matches Action::Fatal {
                    error,
                } && error is ActivationError && error->ActivationError_detail == detail),
                _ => false,
            },
            Phase::Probing { instance_index, health } => match event {
                Event::Probed { outcome } => {
                    let stepped = health.step_spec(outcome);
                    match stepped {
                        HealthState::Healthy => self.next_instance_or_cleanup(
                            post,
                            instance_index as int,
                        ),
                        HealthState::Failed => self.mid_unit_same(post) && post.phase == (
                        Phase::FailedCleanup { instance_index }),
                        _ => self.mid_unit_same(post) && post.phase == (Phase::Probing {
                            instance_index,
                            health: stepped,
                        }),
                    }
                },
                _ => false,
            },
            Phase::Announced => match event {
                Event::Done => self.unit_completed(post, r),
                _ => false,
            },
            Phase::CleaningUp => match event {
                Event::Done => self.unit_completed(post, r),
                Event::Failed { detail } => post.phase is Failed && (r matches Action::Fatal {
                    error,
                } && error is PipelineError && error->PipelineError_detail == detail),
                _ => false,
            },
            Phase::FailedCleanup { .. } => {
                &&& post.st == self.st
                &&& post.phase is Failed
                &&& (r matches Action::Fatal { error } && error is VerificationError)
            },
            Phase::Done => false,
            Phase::Failed => false,
        }
    }

    /// Begin a run over the graph, against the given target host; in
    /// simulation mode nothing will be packaged, transferred or executed.
    pub fn new(services: Vec<ServiceEntry>, ssh_config: SSHConfig, dry_run: bool) -> (r:
        Orchestrator)
        requires
            unique_names(services@),
        ensures
            r.inv(),
            !r.terminal(),
            r.graph() == services@,
            r.dry_run == dry_run,
            r.ssh.host@ == ssh_config.host@,
            r.ssh.from_dir@ == ssh_config.from_dir@,
            r.st.dep() =~= Seq::<Seq<char>>::empty(),
            r.phase is Idle,
    {
        let ghost g = services@;
        let st = DeployState::new(services);
        let r = Orchestrator {
            st,
            wave: Vec::new(),
            wi: 0,
            unit: None,
            phase: Phase::Idle,
            dry_run,
            ssh: ssh_config,
            full: Ghost(planned_waves(g, Seq::empty())),
            waves_done: Ghost(0int),
            wave_rem0: Ghost(g),
            wave_dep0: Ghost(Seq::empty()),
        };
        proof {
            let w = r.wave_names();
            assert(w =~= Seq::<Seq<char>>::empty());
            assert(w.take(0) =~= Seq::<Seq<char>>::empty());
            lemma_filter_all(g, |e: ServiceEntry| !w.take(0).contains(e.name@));
            assert(r.st.rem() =~= remove_named(r.wave_rem0@, w.take(0)));
            assert(r.full@.take(0) =~= Seq::<Seq<Seq<char>>>::empty());
            assert(r.full@.take(0).flatten() =~= Seq::<Seq<char>>::empty());
            assert(r.full@.skip(0) =~= r.full@);
            assert(r.st.dep() =~= r.wave_dep0@ + w.take(0));
        }
        r
    }

    /// Consume the outcome of the last action and return the next one. The
    /// transition is pinned by `step_rel`: the pipeline runs package →
    /// transfer → activation and verification per instance → cleanup →
    /// deployed set, a reported failure ends the run at once with the
    /// failure's own message, and every probe outcome drives the health
    /// machine one step. The run is over when `Finished` or `Fatal` comes
    /// back; in simulation mode no packaging, transport, remote execution
    /// or probing is ever asked for.
    pub fn step(&mut self, event: Event) -> (r: Action)
        requires
            old(self).inv(),
            !old(self).terminal(),
            old(self).event_fits(event),
        ensures
            final(self).inv(),
            final(self).constants_match(*old(self)),
            old(self).st.dep().is_prefix_of(final(self).st.dep()),
            final(self).action_fits(r),
            old(self).dry_run ==> (r is AnnounceUnit || r is Finished || r is Fatal),
            (r is Finished) == (final(self).phase is Done),
            (r is Fatal) == (final(self).phase is Failed),
            r matches Action::Fatal { error } ==> old(self).fatal_fits(error),
            r is Finished ==> final(self).st.rem().len() == 0 && names_of(
                final(self).graph(),
            ).to_set() =~= final(self).st.dep().to_set(),
            old(self).step_rel(event, *final(self), r),
    {
        let phase = self.phase;
        match event {
            Event::Start => self.advance_boundary(),
            Event::Done => {
                match phase {
                    Phase::Saving => {
                        self.phase = Phase::Transferring;
                        let u = self.unit.as_ref().unwrap();
                        Action::Transfer {
                            local_file: u.tar_file.clone(),
                            remote_path: remote_artifact_path(&u.tar_file),
                        }
                    },
                    Phase::Transferring => self.begin_instance(0),
                    Phase::Activating { instance_index } => {
                        let probe = {
                            let u = self.unit.as_ref().unwrap();
                            let inst = &u.service.instances[instance_index];
                            let resolved = crate::command::resolve_instance_config_values(
                                &inst.config,
                                &u.service,
                            );
                            match resolved.remotecheck {
                                Some(rc) => match (rc.port, rc.endpoint) {
                                    (Some(port), Some(endpoint)) => Some((port, endpoint)),
                                    _ => None,
                                },
                                None => None,
                            }
                        };
                        match probe {
                            Some((port, endpoint)) => {
                                let url = build_health_url(&self.ssh.host, port, &endpoint);
                                let u = self.unit.as_ref().unwrap();
                                let instance = u.service.instances[instance_index].name.clone();
                                self.phase = Phase::Probing {
                                    instance_index,
                                    health: HealthState::begin(),
                                };
                                Action::Probe { instance, url }
                            },
                            None => {
                                let next_index = {
                                    let u = self.unit.as_ref().unwrap();
                                    if instance_index < u.service.instances.len() {
                                        instance_index + 1
                                    } else {
                                        instance_index
                                    }
                                };
                                self.begin_instance(next_index)
                            },
                        }
                    },
                    Phase::Announced => self.finish_unit(),
                    Phase::CleaningUp => self.finish_unit(),
                    Phase::FailedCleanup { instance_index } => self.fail_verification(
                        instance_index,
                    ),
                    _ => {
                        proof {
                            assert(false);
                        }
                        Action::Finished
                    },
                }
            },
            Event::Failed { detail } => {
                match phase {
                    Phase::Saving | Phase::Transferring | Phase::CleaningUp => {
                        let unit = self.unit.as_ref().unwrap().name.clone();
                        self.phase = Phase::Failed;
                        Action::Fatal { error: DeployError::PipelineError { unit, detail } }
                    },
                    Phase::Activating { instance_index } => {
                        let u = self.unit.as_ref().unwrap();
                        let unit = u.name.clone();
                        let instance = u.service.instances[instance_index].name.clone();
                        self.phase = Phase::Failed;
                        Action::Fatal {
                            error: DeployError::ActivationError { unit, instance, detail },
                        }
                    },
                    Phase::FailedCleanup { instance_index } => self.fail_verification(
                        instance_index,
                    ),
                    _ => {
                        proof {
                            assert(false);
                        }
                        Action::Finished
                    },
                }
            },
            Event::Probed { outcome } => {
                match phase {
                    Phase::Probing { instance_index, health } => {
                        let next = health.step(outcome);
                        match next {
                            HealthState::Healthy => {
                                let next_index = {
                                    let u = self.unit.as_ref().unwrap();
                                    if instance_index < u.service.instances.len() {
                                        instance_index + 1
                                    } else {
                                        instance_index
                                    }
                                };
                                self.begin_instance(next_index)
                            },
                            HealthState::Failed => {
                                self.phase = Phase::FailedCleanup { instance_index };
                                let u = self.unit.as_ref().unwrap();
                                Action::RemoveArtifact {
                                    remote_command: remove_artifact_command(&u.tar_file),
                                    local_file: u.tar_file.clone(),
                                }
                            },
                            _ => {
                                self.phase = Phase::Probing { instance_index, health: next };
                                let u = self.unit.as_ref().unwrap();
                                let inst = &u.service.instances[instance_index];
                                let resolved = crate::command::resolve_instance_config_values(
                                    &inst.config,
                                    &u.service,
                                );
                                let (port, endpoint) = match resolved.remotecheck {
                                    Some(rc) => match (rc.port, rc.endpoint) {
                                        (Some(port), Some(endpoint)) => (port, endpoint),
                                        _ => {
                                            proof {
                                                assert(false);
                                            }
                                            (0, String::new())
                                        },
                                    },
                                    None => {
                                        proof {
                                            assert(false);
                                        }
                                        (0, String::new())
                                    },
                                };
                                let url = build_health_url(&self.ssh.host, port, &endpoint);
                                Action::Probe { instance: inst.name.clone(), url }
                            },
                        }
                    },
                    _ => {
                        proof {
                            assert(false);
                        }
                        Action::Finished
                    },
                }
            },
        }
    }

    /// Report the fatal verification failure of the numbered instance.
    fn fail_verification(&mut self, instance_index: usize) -> (r: Action)
        requires
            old(self).st.inv(),
            old(self).schedule_ok(),
            old(self).unit_ok(),
            !old(self).dry_run,
            old(self).probe_target_ok(instance_index as int),
            old(self).phase matches Phase::FailedCleanup { instance_index: fi } && fi
                == instance_index,
        ensures
            final(self).inv(),
            final(self).constants_match(*old(self)),
            final(self).st == old(self).st,
            final(self).phase is Failed,
            r matches Action::Fatal { error } && error is VerificationError && old(
                self,
            ).fatal_fits(error),
            r is Fatal,
    {
        let u = self.unit.as_ref().unwrap();
        let unit = u.name.clone();
        let inst = &u.service.instances[instance_index];
        let instance = inst.name.clone();
        let resolved = crate::command::resolve_instance_config_values(&inst.config, &u.service);
        let (port, endpoint) = match resolved.remotecheck {
            Some(rc) => match (rc.port, rc.endpoint) {
                (Some(port), Some(endpoint)) => (port, endpoint),
                _ => {
                    proof {
                        assert(false);
                    }
                    (0, String::new())
                },
            },
            None => {
                proof {
                    assert(false);
                }
                (0, String::new())
            },
        };
        let url = build_health_url(&self.ssh.host, port, &endpoint);
        self.phase = Phase::Failed;
        Action::Fatal { error: DeployError::VerificationError { unit, instance, url } }
    }

    /// Move to the numbered instance's activation, or to artifact cleanup
    /// when every instance of the unit is done.
    fn begin_instance(&mut self, instance_index: usize) -> (r: Action)
        requires
            old(self).st.inv(),
            old(self).schedule_ok(),
            old(self).unit_ok(),
            !old(self).dry_run,
        ensures
            final(self).inv(),
            final(self).constants_match(*old(self)),
            final(self).st == old(self).st,
            final(self).unit == old(self).unit,
            final(self).wave == old(self).wave,
            final(self).wi == old(self).wi,
            final(self).action_fits(r),
            !(r is Finished) && !(r is Fatal),
            !(final(self).phase is Done) && !(final(self).phase is Failed),
            if (instance_index as int) < old(self).instances_of().len() {
                final(self).phase == (Phase::Activating { instance_index })
            } else {
                final(self).phase is CleaningUp
            },
    {
        let len = {
            let u = self.unit.as_ref().unwrap();
            u.service.instances.len()
        };
        if instance_index < len {
            let u = self.unit.as_ref().unwrap();
            let inst = &u.service.instances[instance_index];
            let run_cmd = resolve_instance_command(&inst.name, &inst.config, &u.service, &u.image);
            let action = Action::Activate {
                instance: inst.name.clone(),
                load_command: load_command(&u.tar_file),
                remove_command: remove_container_command(&inst.name),
                run_command: activation_command(&self.ssh.from_dir, &run_cmd),
            };
            self.phase = Phase::Activating { instance_index };
            action
        } else {
            let u = self.unit.as_ref().unwrap();
            let action = Action::RemoveArtifact {
                remote_command: remove_artifact_command(&u.tar_file),
                local_file: u.tar_file.clone(),
            };
            self.phase = Phase::CleaningUp;
            action
        }
    }

    /// Record the active unit as deployed and go on: the next unit of the
    /// wave, the next wave, or the end of the run.
    fn finish_unit(&mut self) -> (r: Action)
        requires
            old(self).inv(),
            old(self).unit_ok(),
        ensures
            final(self).inv(),
            final(self).constants_match(*old(self)),
            old(self).st.dep().is_prefix_of(final(self).st.dep()),
            final(self).action_fits(r),
            old(self).dry_run ==> (r is AnnounceUnit || r is Finished || r is Fatal),
            (r is Finished) == (final(self).phase is Done),
            (r is Fatal) == (final(self).phase is Failed),
            r matches Action::Fatal { error } ==> error is GraphError && !(graph_closed(
                old(self).graph(),
            ) && acyclic(old(self).graph())),
            r is Finished ==> final(self).st.rem().len() == 0 && names_of(
                final(self).graph(),
            ).to_set() =~= final(self).st.dep().to_set(),
            final(self).st.dep() == old(self).st.dep().push(old(self).unit->0.name@),
            final(self).at_pipeline_head(),
    {
        let ghost g = self.graph();
        let ghost rem_before = self.st.rem();
        let ghost dep_before = self.st.dep();
        let ghost w = self.wave_names();
        let ghost rem0 = self.wave_rem0@;
        let ghost dep0 = self.wave_dep0@;
        let name = {
            let u = self.unit.as_ref().unwrap();
            u.name.clone()
        };
        proof {
            assert(has_ready_entry(rem_before, dep0, w[self.wi as int]));
            let i = choose|i: int|
                0 <= i < rem_before.len() && (#[trigger] rem_before[i]).name@ == w[self.wi as int]
                    && all_deps_deployed(rem_before[i], dep0);
            crate::plan::lemma_ready_in_extended(rem_before[i], dep0, w.take(self.wi as int));
            assert(all_deps_deployed(rem_before[i], dep_before));
        }
        let ghost wi0 = self.wi as int;
        proof {
            assert(self.wave.len() == self.wave@.len());
            assert((self.wi as int) < self.wave@.len());
        }
        self.st.complete_unit(name);
        self.unit = None;
        self.wi = self.wi + 1;
        proof {
            let i = choose|i: int|
                0 <= i < rem_before.len() && (#[trigger] rem_before[i]).name@ == w[wi0]
                    && self.st.rem() == rem_before.remove(i);
            crate::plan::lemma_remove_named_extend(rem0, w, wi0, rem_before, i);
            assert(self.st.rem() =~= remove_named(rem0, w.take(wi0 + 1)));
            assert(self.st.dep() =~= dep_before.push(w[wi0]));
            assert(self.st.dep() =~= dep0 + w.take(wi0 + 1)) by {
                assert(w.take(wi0 + 1) =~= w.take(wi0).push(w[wi0]));
            }
            crate::plan::lemma_ready_entries_preserved(rem_before, dep0, w, wi0, i);
            assert(old(self).st.dep().is_prefix_of(self.st.dep())) by {
                assert(dep_before =~= self.st.dep().subrange(0, dep_before.len() as int));
            }
        }
        if self.wi < self.wave.len() {
            let r = self.begin_unit();
            r
        } else {
            self.advance_boundary()
        }
    }

    /// Pick up the unit at the current wave position: look it up, derive its
    /// artifact identifier and archive name, and ask for its first action —
    /// packaging, or a bare announcement in simulation mode.
    fn begin_unit(&mut self) -> (r: Action)
        requires
            old(self).st.inv(),
            old(self).schedule_ok(),
            old(self).unit is None,
            (old(self).wi as int) < old(self).wave_names().len(),
        ensures
            final(self).inv(),
            final(self).constants_match(*old(self)),
            final(self).st == old(self).st,
            final(self).action_fits(r),
            !(r is Finished) && !(r is Fatal),
            !(final(self).phase is Done) && !(final(self).phase is Failed),
            old(self).dry_run ==> r is AnnounceUnit,
            final(self).at_pipeline_head(),
    {
        let ghost w = self.wave_names();
        proof {
            assert(has_ready_entry(self.st.rem(), self.wave_dep0@, w[self.wi as int]));
            let i = choose|i: int|
                0 <= i < self.st.rem().len() && (#[trigger] self.st.rem()[i]).name@ == w[
                self.wi as int] && all_deps_deployed(self.st.rem()[i], self.wave_dep0@);
            assert(names_of(self.st.rem())[i] == w[self.wi as int]);
            assert(names_of(self.st.rem()).contains(w[self.wi as int]));
        }
        let name_ref = &self.wave[self.wi];
        let idx = crate::plan::find_entry_index(&self.st.remaining, name_ref);
        let entry = &self.st.remaining[idx];
        let name = entry.name.clone();
        let image = match &entry.service.image {
            Some(img) => img.clone(),
            None => entry.name.clone(),
        };
        let tar_file = unit_tar_file(&image);
        let service = clone_service_config(&entry.service);
        let unit = UnitWork { name, image, tar_file, service };
        proof {
            assert(self.st.rem()[idx as int].name@ == w[self.wi as int]);
            assert(unit.service@ == self.st.rem()[idx as int].service@);
            assert(unit.image@ == artifact_text(self.st.rem()[idx as int]));
        }
        if self.dry_run {
            let action = Action::AnnounceUnit {
                unit: unit.name.clone(),
                tar_file: unit.tar_file.clone(),
            };
            self.unit = Some(unit);
            self.phase = Phase::Announced;
            action
        } else {
            let action = Action::SaveImage {
                image: unit.image.clone(),
                tar_file: unit.tar_file.clone(),
            };
            self.unit = Some(unit);
            self.phase = Phase::Saving;
            action
        }
    }

    /// At a wave boundary: finish the run when nothing remains, otherwise
    /// resolve the next wave — failing the run when the remainder is
    /// unsatisfiable — and begin its first unit.
    fn advance_boundary(&mut self) -> (r: Action)
        requires
            old(self).st.inv(),
            old(self).schedule_ok(),
            old(self).unit is None,
            old(self).wi as int == old(self).wave_names().len(),
        ensures
            final(self).inv(),
            final(self).constants_match(*old(self)),
            final(self).st == old(self).st,
            final(self).action_fits(r),
            old(self).dry_run ==> (r is AnnounceUnit || r is Finished || r is Fatal),
            (r is Finished) == (final(self).phase is Done),
            (r is Fatal) == (final(self).phase is Failed),
            r matches Action::Fatal { error } ==> error is GraphError && !(graph_closed(
                old(self).graph(),
            ) && acyclic(old(self).graph())),
            r is Finished ==> final(self).st.rem().len() == 0 && names_of(
                final(self).graph(),
            ).to_set() =~= final(self).st.dep().to_set(),
            final(self).at_pipeline_head(),
    {
        let ghost g = self.graph();
        let ghost full = self.full@;
        let ghost w = self.wave_names();
        let ghost rem0 = self.wave_rem0@;
        let ghost dep0 = self.wave_dep0@;
        let ghost wd = self.waves_done@;
        // normalize the schedule ghosts to the current boundary
        proof {
            if w.len() > 0 {
                assert(w.take(w.len() as int) =~= w);
                assert(self.st.dep() =~= dep0 + w);
                assert(self.st.rem() =~= remove_named(rem0, w));
                assert(planned_waves(rem0, dep0) == seq![w] + planned_waves(
                    remove_named(rem0, w),
                    dep0 + w,
                ));
                assert(full.skip(wd)[0] == w);
                assert(full[wd] == w);
                assert(full.skip(wd + 1) =~= (seq![w] + planned_waves(
                    remove_named(rem0, w),
                    dep0 + w,
                )).drop_first());
                assert(planned_waves(self.st.rem(), self.st.dep()) == full.skip(wd + 1));
                assert(full.take(wd + 1) =~= full.take(wd).push(w));
                full.take(wd).lemma_flatten_push(w);
                assert(full.take(wd + 1).flatten() =~= dep0 + w);
                self.waves_done = Ghost(wd + 1);
                self.wave_rem0 = Ghost(self.st.rem());
                self.wave_dep0 = Ghost(self.st.dep());
            } else {
                assert(w.take(0) =~= Seq::<Seq<char>>::empty());
                assert(self.st.dep() =~= dep0 + w.take(0));
                assert(self.st.dep() =~= dep0);
                lemma_filter_all(rem0, |e: ServiceEntry| !w.take(0).contains(e.name@));
                assert(self.st.rem() =~= remove_named(rem0, w.take(0)));
                assert(self.st.rem() =~= rem0);
                self.wave_rem0 = Ghost(self.st.rem());
                self.wave_dep0 = Ghost(self.st.dep());
                assert(planned_waves(self.wave_rem0@, self.wave_dep0@) == planned_waves(
                    rem0,
                    dep0,
                ));
            }
        }
        if self.st.remaining.len() == 0 {
            self.wave = Vec::new();
            self.wi = 0;
            proof {
                let w2 = self.wave_names();
                assert(w2 =~= Seq::<Seq<char>>::empty());
                assert(w2.take(0) =~= Seq::<Seq<char>>::empty());
                lemma_filter_all(
                    self.wave_rem0@,
                    |e: ServiceEntry| !w2.take(0).contains(e.name@),
                );
                assert(self.st.rem() =~= remove_named(self.wave_rem0@, w2.take(0)));
                assert(self.st.dep() =~= self.wave_dep0@ + w2.take(0));
                assert(names_of(g).to_set() =~= self.st.dep().to_set()) by {
                    assert forall|n: Seq<char>| self.st.dep().to_set().contains(n) implies names_of(
                        g,
                    ).to_set().contains(n) by {
                        let t = choose|t: int|
                            0 <= t < self.st.dep().len() && self.st.dep()[t] == n;
                        assert(names_of(g).contains(self.st.dep()[t]));
                    }
                    assert forall|n: Seq<char>|
                        names_of(g).to_set().contains(n) implies self.st.dep().to_set().contains(
                        n,
                    ) by {
                        assert(!names_of(self.st.rem()).contains(n));
                    }
                }
            }
            self.phase = Phase::Done;
            Action::Finished
        } else {
            let next = self.st.next_wave();
            match next {
                Err(error) => {
                    proof {
                        assert(planned_waves(self.st.rem(), self.st.dep()) == full.skip(
                            self.waves_done@,
                        ));
                    }
                    self.wave = Vec::new();
                    self.wi = 0;
                    proof {
                        let w2 = self.wave_names();
                        assert(w2 =~= Seq::<Seq<char>>::empty());
                        assert(w2.take(0) =~= Seq::<Seq<char>>::empty());
                        lemma_filter_all(
                            self.wave_rem0@,
                            |e: ServiceEntry| !w2.take(0).contains(e.name@),
                        );
                        assert(self.st.rem() =~= remove_named(self.wave_rem0@, w2.take(0)));
                        assert(self.st.dep() =~= self.wave_dep0@ + w2.take(0));
                    }
                    self.phase = Phase::Failed;
                    Action::Fatal { error }
                },
                Ok(wave) => {
                    proof {
                        let w2 = wave.deep_view();
                        assert(w2 == eligible_names(self.st.rem(), self.st.dep()));
                        lemma_eligible_names_unique(self.st.rem(), self.st.dep());
                        lemma_wave_entries(self.st.rem(), self.st.dep());
                        assert(planned_waves(self.st.rem(), self.st.dep()) == full.skip(
                            self.waves_done@,
                        ));
                        assert(planned_waves(self.st.rem(), self.st.dep()) == seq![w2]
                            + planned_waves(
                            remove_named(self.st.rem(), w2),
                            self.st.dep() + w2,
                        ));
                        assert(full.skip(self.waves_done@).len() > 0);
                        assert(self.waves_done@ < full.len());
                    }
                    self.wave = wave;
                    self.wi = 0;
                    proof {
                        let w2 = self.wave_names();
                        assert(w2.take(0) =~= Seq::<Seq<char>>::empty());
                        lemma_filter_all(
                            self.wave_rem0@,
                            |e: ServiceEntry| !w2.take(0).contains(e.name@),
                        );
                        assert(self.st.rem() =~= remove_named(self.wave_rem0@, w2.take(0)));
                        assert(self.st.dep() =~= self.wave_dep0@ + w2.take(0));
                        assert forall|t: int| 0 <= t < w2.len() implies has_ready_entry(
                            self.st.rem(),
                            self.wave_dep0@,
                            #[trigger] w2[t],
                        ) by {
                            assert(eligible_names(self.wave_rem0@, self.wave_dep0@)[t] == w2[t]);
                        }
                    }
                    self.begin_unit()
                },
            }
        }
    }
}


/// In every run — simulation or real alike — the deployed names grow along
/// the planned schedule of the graph: at any point they are a prefix of the
/// flattened wave sequence that `planned_waves` assigns to the graph alone.
/// Together with the step contract, which in simulation mode never asks for
/// packaging, transport, remote execution or probing, this is the dry-run
/// guarantee: both modes produce the same wave sequence and the same
/// deployed-set growth.
pub proof fn lemma_deployed_follows_plan(o: Orchestrator)
    requires
        o.inv(),
    ensures
        o.st.dep().is_prefix_of(planned_waves(o.graph(), Seq::empty()).flatten()),
{
    let full = o.full@;
    let w = o.wave_names();
    let wd = o.waves_done@;
    let flat = full.flatten();
    vstd::seq_lib::lemma_flatten_concat(full.take(wd), full.skip(wd));
    assert(full.take(wd) + full.skip(wd) =~= full);
    assert(flat =~= full.take(wd).flatten() + full.skip(wd).flatten());
    if w.len() > 0 {
        assert(planned_waves(o.wave_rem0@, o.wave_dep0@) == full.skip(wd));
        assert(full.skip(wd) == seq![w] + planned_waves(
            remove_named(o.wave_rem0@, w),
            o.wave_dep0@ + w,
        ));
        vstd::seq_lib::lemma_flatten_concat(
            seq![w],
            planned_waves(remove_named(o.wave_rem0@, w), o.wave_dep0@ + w),
        );
        seq![w].lemma_flatten_one_element();
        assert(seq![w].flatten() == w);
        assert(full.skip(wd).flatten() =~= w + planned_waves(
            remove_named(o.wave_rem0@, w),
            o.wave_dep0@ + w,
        ).flatten());
        assert(o.st.dep() =~= flat.subrange(0, o.st.dep().len() as int)) by {
            assert(o.st.dep() =~= o.wave_dep0@ + w.take(o.wi as int));
        }
    } else {
        assert(o.st.dep() =~= o.wave_dep0@ + w.take(o.wi as int));
        assert(w.take(o.wi as int) =~= Seq::<Seq<char>>::empty());
        assert(o.st.dep() =~= o.wave_dep0@);
        assert(o.st.dep() =~= flat.subrange(0, o.st.dep().len() as int));
    }
}

} // verus!
