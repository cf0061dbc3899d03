//! Per-instance activation: effective-configuration resolution by the
//! inherit-or-override rule, and construction of the remote activation
//! request, character for character.
//!
//! An instance-level value always wins over the unit-level default; a field
//! absent at both levels contributes nothing to the request — the flag is
//! omitted entirely, never passed empty.

use vstd::prelude::*;

use vstd::string::StringExecFns;
use vstd::string::StrSliceExecFns;

use crate::config::{
    ContainerConfig, ContainerConfigView, HealthCheck, HealthCheckView, RemoteHealthCheck,
    ServiceConfig, ServiceConfigView,
};
use crate::numtext::{dec_int, i32_to_string};

verus! {

/// The effective configuration of one instance: each field is the
/// instance-level value when present, else the unit-level default; the
/// startup command and the local health probe are instance-only fields.
pub open spec fn resolved_config(c: ContainerConfigView, s: ServiceConfigView)
    -> ContainerConfigView {
    ContainerConfigView {
        network_mode: if c.network_mode is Some {
            c.network_mode
        } else {
            s.network_mode
        },
        restart: if c.restart is Some {
            c.restart
        } else {
            s.restart
        },
        env_file: if c.env_file is Some {
            c.env_file
        } else {
            s.env_file
        },
        volumes: if c.volumes is Some {
            c.volumes
        } else {
            s.volumes
        },
        environment: if c.environment is Some {
            c.environment
        } else {
            s.environment
        },
        command: c.command,
        remotecheck: if c.remotecheck is Some {
            c.remotecheck
        } else {
            s.remotecheck
        },
        healthcheck: c.healthcheck,
    }
}

/// Instance-level configuration always takes precedence over the unit-level
/// default, field by field, and a field set at neither level stays absent.
pub proof fn lemma_override_wins(c: ContainerConfigView, s: ServiceConfigView)
    ensures
        c.network_mode is Some ==> resolved_config(c, s).network_mode == c.network_mode,
        c.network_mode is None ==> resolved_config(c, s).network_mode == s.network_mode,
        c.restart is Some ==> resolved_config(c, s).restart == c.restart,
        c.restart is None ==> resolved_config(c, s).restart == s.restart,
        c.env_file is Some ==> resolved_config(c, s).env_file == c.env_file,
        c.env_file is None ==> resolved_config(c, s).env_file == s.env_file,
        c.volumes is Some ==> resolved_config(c, s).volumes == c.volumes,
        c.volumes is None ==> resolved_config(c, s).volumes == s.volumes,
        c.environment is Some ==> resolved_config(c, s).environment == c.environment,
        c.environment is None ==> resolved_config(c, s).environment == s.environment,
        c.remotecheck is Some ==> resolved_config(c, s).remotecheck == c.remotecheck,
        c.remotecheck is None ==> resolved_config(c, s).remotecheck == s.remotecheck,
        resolved_config(c, s).command == c.command,
        resolved_config(c, s).healthcheck == c.healthcheck,
{
}

fn clone_opt_string(o: &Option<String>) -> (r: Option<String>)
    ensures
        crate::config::opt_text(r) == crate::config::opt_text(*o),
{
    match o {
        Some(s) => Some(s.clone()),
        None => None,
    }
}

fn clone_strings(v: &Vec<String>) -> (r: Vec<String>)
    ensures
        r.deep_view() =~= v.deep_view(),
{
    let mut out: Vec<String> = Vec::new();
    let mut k: usize = 0;
    while k < v.len()
        invariant
            0 <= k <= v.len(),
            out@.len() == k as int,
            out.deep_view() =~= v.deep_view().take(k as int),
        decreases v.len() - k,
    {
        let item = v[k].clone();
        out.push(item);
        k += 1;
        proof {
            assert(out.deep_view() =~= v.deep_view().take(k as int));
        }
    }
    proof {
        assert(v.deep_view().take(v.deep_view().len() as int) =~= v.deep_view());
    }
    out
}

fn clone_opt_strings(o: &Option<Vec<String>>) -> (r: Option<Vec<String>>)
    ensures
        crate::config::opt_texts(r) == crate::config::opt_texts(*o),
{
    match o {
        Some(v) => {
            let c = clone_strings(v);
            proof {
                assert(c.deep_view() == v.deep_view());
            }
            Some(c)
        },
        None => None,
    }
}

fn clone_opt_remotecheck(o: &Option<RemoteHealthCheck>) -> (r: Option<RemoteHealthCheck>)
    ensures
        match (r, o) {
            (Some(a), Some(b)) => a@ == b@,
            (None, None) => true,
            _ => false,
        },
{
    match o {
        Some(rc) => Some(
            RemoteHealthCheck { port: rc.port, endpoint: clone_opt_string(&rc.endpoint) },
        ),
        None => None,
    }
}

fn clone_opt_healthcheck(o: &Option<HealthCheck>) -> (r: Option<HealthCheck>)
    ensures
        match (r, o) {
            (Some(a), Some(b)) => a@ == b@,
            (None, None) => true,
            _ => false,
        },
{
    match o {
        Some(hc) => Some(
            HealthCheck {
                test: clone_strings(&hc.test),
                interval: hc.interval.clone(),
                timeout: hc.timeout.clone(),
                retries: hc.retries,
            },
        ),
        None => None,
    }
}

/// Copy one instance configuration, field for field.
pub fn clone_container_config(c: &ContainerConfig) -> (r: ContainerConfig)
    ensures
        r@ == c@,
{
    ContainerConfig {
        network_mode: clone_opt_string(&c.network_mode),
        restart: clone_opt_string(&c.restart),
        env_file: clone_opt_strings(&c.env_file),
        volumes: clone_opt_strings(&c.volumes),
        environment: clone_opt_strings(&c.environment),
        command: clone_opt_string(&c.command),
        remotecheck: clone_opt_remotecheck(&c.remotecheck),
        healthcheck: clone_opt_healthcheck(&c.healthcheck),
    }
}

/// Copy a unit's group-level configuration, instances included.
pub fn clone_service_config(s: &ServiceConfig) -> (r: ServiceConfig)
    ensures
        r@ == s@,
{
    let mut instances: Vec<crate::config::InstanceSpec> = Vec::new();
    let mut k: usize = 0;
    while k < s.instances.len()
        invariant
            0 <= k <= s.instances.len(),
            instances@.len() == k as int,
            forall|j: int| 0 <= j < k ==> (#[trigger] instances@[j])@ == s.instances@[j]@,
        decreases s.instances.len() - k,
    {
        let inst = crate::config::InstanceSpec {
            name: s.instances[k].name.clone(),
            config: clone_container_config(&s.instances[k].config),
        };
        instances.push(inst);
        k += 1;
    }
    let r = ServiceConfig {
        image: clone_opt_string(&s.image),
        network_mode: clone_opt_string(&s.network_mode),
        restart: clone_opt_string(&s.restart),
        env_file: clone_opt_strings(&s.env_file),
        volumes: clone_opt_strings(&s.volumes),
        environment: clone_opt_strings(&s.environment),
        depends_on: clone_opt_strings(&s.depends_on),
        instances,
        remotecheck: clone_opt_remotecheck(&s.remotecheck),
    };
    proof {
        assert(r@.instances =~= s@.instances);
        assert(r@ =~= s@);
    }
    r
}

/// Resolve the effective configuration of one instance against its unit's
/// group-level defaults, by the inherit-or-override rule.
pub fn resolve_instance_config_values(
    container_config: &ContainerConfig,
    service_config: &ServiceConfig,
) -> (r: ContainerConfig)
    ensures
        r@ == resolved_config(container_config@, service_config@),
{
    let network_mode = if container_config.network_mode.is_some() {
        clone_opt_string(&container_config.network_mode)
    } else {
        clone_opt_string(&service_config.network_mode)
    };
    let restart = if container_config.restart.is_some() {
        clone_opt_string(&container_config.restart)
    } else {
        clone_opt_string(&service_config.restart)
    };
    let env_file = if container_config.env_file.is_some() {
        clone_opt_strings(&container_config.env_file)
    } else {
        clone_opt_strings(&service_config.env_file)
    };
    let volumes = if container_config.volumes.is_some() {
        clone_opt_strings(&container_config.volumes)
    } else {
        clone_opt_strings(&service_config.volumes)
    };
    let environment = if container_config.environment.is_some() {
        clone_opt_strings(&container_config.environment)
    } else {
        clone_opt_strings(&service_config.environment)
    };
    let command = clone_opt_string(&container_config.command);
    let remotecheck = if container_config.remotecheck.is_some() {
        clone_opt_remotecheck(&container_config.remotecheck)
    } else {
        clone_opt_remotecheck(&service_config.remotecheck)
    };
    let healthcheck = clone_opt_healthcheck(&container_config.healthcheck);
    ContainerConfig {
        network_mode,
        restart,
        env_file,
        volumes,
        environment,
        command,
        remotecheck,
        healthcheck,
    }
}

/// Relies on String::push: appends exactly the one given character.
#[verifier::external_body]
pub(crate) fn push_char(s: &mut String, c: char)
    ensures
        final(s)@ == old(s)@ + seq![c],
{
    s.push(c);
}

/// A character as it may appear in an artifact file name: path separators
/// and tag separators become underscores.
pub open spec fn sanitize_char(c: char) -> char {
    if c == '/' || c == ':' {
        '_'
    } else {
        c
    }
}

/// The local archive file name of a unit's artifact: the artifact identifier
/// with `/` and `:` replaced by `_`, plus the `.tar` suffix.
pub open spec fn tar_file_text(image: Seq<char>) -> Seq<char> {
    image.map_values(|c: char| sanitize_char(c)) + ".tar"@
}

/// Build the local archive file name for a unit's artifact.
pub fn unit_tar_file(image: &String) -> (r: String)
    ensures
        r@ =~= tar_file_text(image@),
{
    let n = image.as_str().unicode_len();
    let mut out = String::new();
    let mut k: usize = 0;
    while k < n
        invariant
            0 <= k <= n,
            n == image@.len(),
            out@ =~= image@.take(k as int).map_values(|c: char| sanitize_char(c)),
        decreases n - k,
    {
        let c = image.as_str().get_char(k);
        if c == '/' || c == ':' {
            push_char(&mut out, '_');
        } else {
            push_char(&mut out, c);
        }
        k += 1;
        proof {
            assert(out@ =~= image@.take(k as int).map_values(|c: char| sanitize_char(c)));
        }
    }
    proof {
        assert(image@.take(image@.len() as int) =~= image@);
    }
    out.append(".tar");
    out
}

/// The remote path an artifact archive is transferred to.
pub open spec fn remote_path_text(tar_file: Seq<char>) -> Seq<char> {
    "/tmp/"@ + tar_file
}

/// Build the remote path for a transferred artifact archive.
pub fn remote_artifact_path(tar_file: &String) -> (r: String)
    ensures
        r@ =~= remote_path_text(tar_file@),
{
    let mut out: String = "/tmp/".to_owned();
    out.append(tar_file.as_str());
    out
}

/// The remote command that loads a transferred artifact archive.
pub open spec fn load_command_text(tar_file: Seq<char>) -> Seq<char> {
    "docker load -i "@ + remote_path_text(tar_file)
}

/// Build the remote command that loads a transferred artifact archive.
pub fn load_command(tar_file: &String) -> (r: String)
    ensures
        r@ =~= load_command_text(tar_file@),
{
    let mut out: String = "docker load -i ".to_owned();
    out.append("/tmp/");
    out.append(tar_file.as_str());
    out
}

/// The remote command that removes any previous instance of the same name;
/// absence of a prior instance is not an error.
pub open spec fn remove_container_text(instance: Seq<char>) -> Seq<char> {
    "docker rm -f "@ + instance + " || true"@
}

/// Build the remote command that removes any previous instance of the name.
pub fn remove_container_command(instance: &String) -> (r: String)
    ensures
        r@ =~= remove_container_text(instance@),
{
    let mut out: String = "docker rm -f ".to_owned();
    out.append(instance.as_str());
    out.append(" || true");
    out
}

/// The remote activation invocation: the request runs in the configured base
/// directory of the target host.
pub open spec fn activation_text(from_dir: Seq<char>, run_command: Seq<char>) -> Seq<char> {
    "cd "@ + from_dir + " && "@ + run_command
}

/// Build the remote activation invocation for the configured base directory.
pub fn activation_command(from_dir: &String, run_command: &String) -> (r: String)
    ensures
        r@ =~= activation_text(from_dir@, run_command@),
{
    let mut out: String = "cd ".to_owned();
    out.append(from_dir.as_str());
    out.append(" && ");
    out.append(run_command.as_str());
    out
}

/// The remote command that removes the transferred artifact archive.
pub open spec fn remove_artifact_text(tar_file: Seq<char>) -> Seq<char> {
    "rm -f "@ + remote_path_text(tar_file)
}

/// Build the remote command that removes the transferred artifact archive.
pub fn remove_artifact_command(tar_file: &String) -> (r: String)
    ensures
        r@ =~= remove_artifact_text(tar_file@),
{
    let mut out: String = "rm -f ".to_owned();
    out.append("/tmp/");
    out.append(tar_file.as_str());
    out
}

/// The words of the local probe's test command: a leading `CMD` or
/// `CMD-SHELL` marker is dropped, the rest is kept as written.
pub open spec fn health_cmd_parts(test: Seq<Seq<char>>) -> Seq<Seq<char>> {
    if test.len() == 0 {
        test
    } else if test[0] == "CMD"@ || test[0] == "CMD-SHELL"@ {
        test.drop_first()
    } else {
        test
    }
}

/// A word is wrapped in double quotes when it holds a space.
pub open spec fn quote_token(s: Seq<char>) -> Seq<char> {
    if s.contains(' ') {
        seq!['"'] + s + seq!['"']
    } else {
        s
    }
}

/// The words, each quoted as needed, joined by single spaces.
pub open spec fn quoted_join(parts: Seq<Seq<char>>) -> Seq<char>
    decreases parts.len(),
{
    if parts.len() == 0 {
        Seq::empty()
    } else if parts.len() == 1 {
        quote_token(parts[0])
    } else {
        quoted_join(parts.drop_last()) + seq![' '] + quote_token(parts.last())
    }
}

/// The text of the local probe's test command: empty when no test is
/// declared, else its words after the marker, quoted and joined.
pub open spec fn health_cmd_text(test: Seq<Seq<char>>) -> Seq<char> {
    if test.len() == 0 {
        Seq::empty()
    } else {
        quoted_join(health_cmd_parts(test))
    }
}

/// Whether the string holds a space character.
fn has_space(s: &String) -> (b: bool)
    ensures
        b == s@.contains(' '),
{
    let n = s.as_str().unicode_len();
    let mut k: usize = 0;
    while k < n
        invariant
            0 <= k <= n,
            n == s@.len(),
            forall|j: int| 0 <= j < k ==> s@[j] != ' ',
        decreases n - k,
    {
        if s.as_str().get_char(k) == ' ' {
            return true;
        }
        k += 1;
    }
    false
}

/// The word, wrapped in double quotes when it holds a space.
fn quote_token_string(s: &String) -> (r: String)
    ensures
        r@ =~= quote_token(s@),
{
    proof {
        reveal_strlit("\"");
    }
    if has_space(s) {
        let mut out: String = "\"".to_owned();
        out.append(s.as_str());
        out.append("\"");
        proof {
            assert("\""@ =~= seq!['"']);
        }
        out
    } else {
        s.clone()
    }
}

/// Build the text of a local probe's test command from its declared words.
pub fn build_health_cmd(hc: &HealthCheck) -> (r: String)
    ensures
        r@ =~= health_cmd_text(hc@.test),
{
    let ghost test = hc@.test;
    if hc.test.len() == 0 {
        return String::new();
    }
    let cmd_marker: String = "CMD".to_owned();
    let shell_marker: String = "CMD-SHELL".to_owned();
    let start: usize = if hc.test[0] == cmd_marker || hc.test[0] == shell_marker {
        1
    } else {
        0
    };
    let ghost parts = health_cmd_parts(test);
    proof {
        if start == 1 {
            assert(parts =~= test.subrange(1, test.len() as int));
        } else {
            assert(parts =~= test.subrange(0, test.len() as int));
        }
    }
    let mut out = String::new();
    let mut k: usize = start;
    while k < hc.test.len()
        invariant
            start <= k <= hc.test.len(),
            test == hc@.test,
            parts =~= test.subrange(start as int, test.len() as int),
            out@ =~= quoted_join(test.subrange(start as int, k as int)),
        decreases hc.test.len() - k,
    {
        let ghost sofar = test.subrange(start as int, k as int);
        let ghost next = test.subrange(start as int, k as int + 1);
        let token = quote_token_string(&hc.test[k]);
        if k > start {
            out.append(" ");
            proof {
                reveal_strlit(" ");
                assert(" "@ =~= seq![' ']);
            }
        }
        out.append(token.as_str());
        proof {
            assert(next.drop_last() =~= sofar);
            assert(next.last() == test[k as int]);
            if k == start {
                assert(quoted_join(next) =~= quote_token(test[k as int]));
            } else {
                assert(quoted_join(next) =~= quoted_join(sofar) + seq![' '] + quote_token(
                    test[k as int],
                ));
            }
            assert(out@ =~= quoted_join(next));
        }
        k += 1;
    }
    proof {
        assert(test.subrange(start as int, hc.test.len() as int) =~= parts);
        assert(out@ =~= quoted_join(parts));
    }
    out
}

/// A flagged single value: the flag text followed by the value, or nothing
/// at all when the value is absent.
pub open spec fn flag_part(flag: Seq<char>, value: Option<Seq<char>>) -> Seq<char> {
    match value {
        Some(v) => flag + v,
        None => Seq::empty(),
    }
}

/// A flagged list: one flag-plus-item occurrence per item, in order.
pub open spec fn list_part(flag: Seq<char>, items: Seq<Seq<char>>) -> Seq<char>
    decreases items.len(),
{
    if items.len() == 0 {
        Seq::empty()
    } else {
        list_part(flag, items.drop_last()) + flag + items.last()
    }
}

/// The items of an optional list, empty when absent.
pub open spec fn opt_items(o: Option<Seq<Seq<char>>>) -> Seq<Seq<char>> {
    match o {
        Some(v) => v,
        None => Seq::empty(),
    }
}

/// The local health-probe clause of an activation request: emitted only for
/// a declared probe with a non-empty test command.
pub open spec fn health_part(hc: Option<HealthCheckView>) -> Seq<char> {
    match hc {
        Some(h) => {
            let cmd = health_cmd_text(h.test);
            if cmd.len() == 0 {
                Seq::empty()
            } else {
                " --health-cmd='"@ + cmd + "' --health-interval="@ + h.interval
                    + " --health-timeout="@ + h.timeout + " --health-retries="@ + dec_int(
                    h.retries,
                )
            }
        },
        None => Seq::empty(),
    }
}

/// The whole remote activation request for one instance: name assignment,
/// network, restart policy, environment files, inline environment, volumes,
/// the optional local probe clause, the artifact identifier, and last the
/// instance's startup command, if declared.
pub open spec fn docker_run_command(
    instance: Seq<char>,
    cfg: ContainerConfigView,
    image: Seq<char>,
) -> Seq<char> {
    "docker run -d --name "@ + instance + flag_part(" --network "@, cfg.network_mode) + flag_part(
        " --restart "@,
        cfg.restart,
    ) + list_part(" --env-file "@, opt_items(cfg.env_file)) + list_part(
        " -e "@,
        opt_items(cfg.environment),
    ) + list_part(" -v "@, opt_items(cfg.volumes)) + health_part(cfg.healthcheck) + " "@ + image
        + flag_part(" "@, cfg.command)
}

/// A field absent at both the instance and the unit level contributes
/// nothing to the activation request: its flag is omitted entirely.
pub proof fn lemma_absent_field_omitted(c: ContainerConfigView, s: ServiceConfigView)
    ensures
        c.network_mode is None && s.network_mode is None ==> flag_part(
            " --network "@,
            resolved_config(c, s).network_mode,
        ) =~= Seq::<char>::empty(),
        c.restart is None && s.restart is None ==> flag_part(
            " --restart "@,
            resolved_config(c, s).restart,
        ) =~= Seq::<char>::empty(),
        c.env_file is None && s.env_file is None ==> list_part(
            " --env-file "@,
            opt_items(resolved_config(c, s).env_file),
        ) =~= Seq::<char>::empty(),
        c.environment is None && s.environment is None ==> list_part(
            " -e "@,
            opt_items(resolved_config(c, s).environment),
        ) =~= Seq::<char>::empty(),
        c.volumes is None && s.volumes is None ==> list_part(
            " -v "@,
            opt_items(resolved_config(c, s).volumes),
        ) =~= Seq::<char>::empty(),
        c.command is None ==> flag_part(" "@, resolved_config(c, s).command)
            =~= Seq::<char>::empty(),
        c.healthcheck is None ==> health_part(resolved_config(c, s).healthcheck)
            =~= Seq::<char>::empty(),
{
}

/// Append a flagged value to the request when the value is present.
pub(crate) fn append_flag(out: &mut String, flag: &str, value: &Option<String>)
    ensures
        final(out)@ =~= old(out)@ + flag_part(flag@, crate::config::opt_text(*value)),
{
    match value {
        Some(v) => {
            out.append(flag);
            out.append(v.as_str());
        },
        None => {},
    }
}

/// Append one flag-plus-item occurrence per item of the list.
pub(crate) fn append_each(out: &mut String, flag: &str, v: &Vec<String>)
    ensures
        final(out)@ =~= old(out)@ + list_part(flag@, v.deep_view()),
{
    let ghost base = out@;
    let ghost texts = v.deep_view();
    let mut k: usize = 0;
    while k < v.len()
        invariant
            0 <= k <= v.len(),
            texts == v.deep_view(),
            out@ =~= base + list_part(flag@, texts.take(k as int)),
        decreases v.len() - k,
    {
        let ghost sofar = texts.take(k as int);
        let ghost next = texts.take(k as int + 1);
        out.append(flag);
        out.append(v[k].as_str());
        proof {
            assert(next.drop_last() =~= sofar);
            assert(next.last() == texts[k as int]);
            assert(out@ =~= base + list_part(flag@, next));
        }
        k += 1;
    }
    proof {
        assert(texts.take(texts.len() as int) =~= texts);
    }
}

/// Append one flag-plus-item occurrence per list item, when a list is
/// present.
pub(crate) fn append_list(out: &mut String, flag: &str, items: &Option<Vec<String>>)
    ensures
        final(out)@ =~= old(out)@ + list_part(flag@, opt_items(crate::config::opt_texts(*items))),
{
    match items {
        Some(v) => append_each(out, flag, v),
        None => {},
    }
}

/// Build the remote activation request for one instance: resolve its
/// effective configuration against the unit's defaults, then lay the request
/// out in construction order.
pub fn resolve_instance_command(
    instance_name: &String,
    container_config: &ContainerConfig,
    service_config: &ServiceConfig,
    image_name: &String,
) -> (r: String)
    ensures
        r@ =~= docker_run_command(
            instance_name@,
            resolved_config(container_config@, service_config@),
            image_name@,
        ),
{
    let resolved = resolve_instance_config_values(container_config, service_config);
    let ghost cfg = resolved_config(container_config@, service_config@);
    let mut cmd: String = "docker run -d --name ".to_owned();
    cmd.append(instance_name.as_str());
    append_flag(&mut cmd, " --network ", &resolved.network_mode);
    append_flag(&mut cmd, " --restart ", &resolved.restart);
    append_list(&mut cmd, " --env-file ", &resolved.env_file);
    append_list(&mut cmd, " -e ", &resolved.environment);
    append_list(&mut cmd, " -v ", &resolved.volumes);
    match &resolved.healthcheck {
        Some(hc) => {
            let test_cmd = build_health_cmd(hc);
            if test_cmd.as_str().unicode_len() > 0 {
                cmd.append(" --health-cmd='");
                cmd.append(test_cmd.as_str());
                cmd.append("' --health-interval=");
                cmd.append(hc.interval.as_str());
                cmd.append(" --health-timeout=");
                cmd.append(hc.timeout.as_str());
                cmd.append(" --health-retries=");
                let retries_text = i32_to_string(hc.retries);
                cmd.append(retries_text.as_str());
            }
            proof {
                if health_cmd_text(hc@.test).len() == 0 {
                    assert(test_cmd@.len() == 0);
                }
            }
        },
        None => {},
    }
    cmd.append(" ");
    cmd.append(image_name.as_str());
    append_flag(&mut cmd, " ", &resolved.command);
    proof {
        assert(cmd@ =~= docker_run_command(instance_name@, cfg, image_name@));
    }
    cmd
}

} // verus!
