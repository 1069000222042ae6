//! `compose`: several boxes as one project.

use vstd::prelude::*;

use crate::cleanup;
use crate::cleanup::{
    chain, cleanup_anonymous_volumes, cleanup_box_resources, cleanup_external_socket_dir, record_network_name,
    CleanupStep, StepView,
};
use crate::commands::stop;
use crate::commands::stop::stop_signal;
use crate::path;
use crate::path::{file_name, parent, path_join};
use crate::policy;
use crate::policy::parse_restart_policy;
use crate::state;
use crate::state::{is_active, is_active_status, BoxRecord, RecordView};
use crate::strmap::StrMap;
use crate::text;
use crate::text::{cat2, cat4, cat5, clone_strings, str_eq};

verus! {

/// Label key for compose project name.
pub const LABEL_PROJECT: &'static str = "com.a3s.compose.project";

/// Label key for compose service name.
pub const LABEL_SERVICE: &'static str = "com.a3s.compose.service";

/// Default compose file names to search for.
pub const COMPOSE_FILES: [&'static str; 4] = [
    "compose.yaml",
    "compose.yml",
    "docker-compose.yaml",
    "docker-compose.yml",
];

/// Arguments of `compose`.
pub struct ComposeArgs {
    /// Path to compose file (default: compose.yaml or docker-compose.yml)
    pub file: Option<String>,
    /// Project name (default: directory name)
    pub project_name: Option<String>,
    /// What to do.
    pub command: ComposeCommand,
}

/// Compose subcommands.
pub enum ComposeCommand {
    /// Create and start all services
    Up(ComposeUpArgs),
    /// Stop and remove all services
    Down(ComposeDownArgs),
    /// List services and their status
    Ps,
    /// Validate and display the compose configuration
    Config,
    /// View logs from all services
    Logs(ComposeLogsArgs),
}

/// Arguments of `compose up`.
pub struct ComposeUpArgs {
    /// Run in detached mode (background)
    pub detach: bool,
    /// Timeout in seconds to wait for healthy dependencies
    pub timeout: u64,
}

/// Arguments of `compose down`.
pub struct ComposeDownArgs {
    /// Remove named volumes declared in the compose file
    pub volumes: bool,
}

/// Arguments of `compose logs`.
pub struct ComposeLogsArgs {
    /// Follow log output
    pub follow: bool,
    /// Number of lines to show from the end of the logs
    pub tail: usize,
    /// Show logs for a specific service only
    pub service: Option<String>,
}

/// A service of a compose file.
#[derive(Debug)]
pub struct ServiceConfig {
    /// OCI image reference.
    pub image: Option<String>,
    /// Restart policy.
    pub restart: Option<String>,
    /// Number of CPUs.
    pub cpus: Option<u32>,
    /// Command in place of the image's.
    pub command: Option<Vec<String>>,
    /// Entrypoint in place of the image's.
    pub entrypoint: Option<Vec<String>>,
    /// Working directory.
    pub working_dir: Option<String>,
    /// Published ports.
    pub ports: Vec<String>,
    /// Volume mounts.
    pub volumes: Vec<String>,
    /// Labels.
    pub labels: StrMap<String>,
    /// Temporary file systems.
    pub tmpfs: Vec<String>,
    /// Added capabilities.
    pub cap_add: Vec<String>,
    /// Dropped capabilities.
    pub cap_drop: Vec<String>,
    /// Whether the box has extended privileges.
    pub privileged: bool,
    /// Services that have to be up first.
    pub depends_on: Vec<String>,
    /// Environment variables.
    pub environment: Vec<(String, String)>,
}

// ---------------------------------------------------------------------------
// The project and its file
// ---------------------------------------------------------------------------

/// The name of a project: the one asked for, else the name of the directory
/// that the compose file stands in.
pub open spec fn project_name_of(flag: Option<Seq<char>>, compose_path: Seq<char>) -> Seq<char> {
    match flag {
        Some(name) => name,
        None => match path::parent_of(compose_path) {
            Some(dir) => match path::file_name_of(dir) {
                Some(name) => name,
                None => "default"@,
            },
            None => "default"@,
        },
    }
}

/// The name of a project.
pub fn project_name(flag: Option<String>, compose_path: &str) -> (r: String)
    ensures
        r@ == project_name_of(text::opt_str(flag), compose_path@),
{
    match flag {
        Some(name) => name,
        None => match parent(compose_path) {
            Some(dir) => match file_name(dir.as_str()) {
                Some(name) => name,
                None => "default".to_string(),
            },
            None => "default".to_string(),
        },
    }
}

/// A compose file that was asked for has to be there.
pub fn explicit_compose_file(path: &str, exists: bool) -> (r: Result<String, String>)
    ensures
        match r {
            Ok(p) => exists && p@ == path@,
            Err(e) => !exists && e@ == "Compose file not found: "@ + path@,
        },
{
    if exists {
        Ok(path.to_string())
    } else {
        Err(cat2("Compose file not found: ", path))
    }
}

/// None of the files is there.
pub open spec fn none_present(present: Seq<bool>) -> bool {
    forall|j: int| 0 <= j < 4 ==> !#[trigger] present[j]
}

/// The file at this place is there, and none before it.
pub open spec fn first_present(present: Seq<bool>, i: int) -> bool {
    0 <= i < 4 && present[i] && forall|j: int| 0 <= j < i ==> !#[trigger] present[j]
}

/// The compose file of a directory: the first of the default names that is
/// there. `present` tells it of each name.
pub fn default_compose_file(cwd: &str, present: [bool; 4]) -> (r: Result<String, String>)
    ensures
        match r {
            Ok(p) => exists|i: int| #[trigger]
                first_present(present@, i) && p@ == path::under(cwd@, COMPOSE_FILES@[i]@),
            Err(e) => none_present(present@) && e@
                == "No compose file found. Looked for: compose.yaml, compose.yml, docker-compose.yaml, docker-compose.yml"@,
        },
{
    let mut i: usize = 0;
    while i < 4
        invariant
            i <= 4,
            forall|j: int| 0 <= j < i ==> !#[trigger] present@[j],
        decreases 4 - i,
    {
        if present[i] {
            let files: [&'static str; 4] = COMPOSE_FILES;
            assert(first_present(present@, i as int));
            return Ok(path_join(cwd, files[i]));
        }
        i = i + 1;
    }
    Err(
        "No compose file found. Looked for: compose.yaml, compose.yml, docker-compose.yaml, docker-compose.yml".to_string(),
    )
}

// ---------------------------------------------------------------------------
// Restart policies
// ---------------------------------------------------------------------------

/// The restart policy of a service: the one it declares, else none.
pub open spec fn service_policy(restart: Option<Seq<char>>) -> Option<(Seq<char>, u32)> {
    match restart {
        Some(r) => policy::policy_of(r),
        None => Some(("no"@, 0)),
    }
}

/// The declared restart policy of a service, where there is a service.
pub open spec fn declared_restart(service: Option<&ServiceConfig>) -> Option<Seq<char>> {
    match service {
        Some(s) => text::opt_str(s.restart),
        None => None,
    }
}

/// What is said of a service whose restart policy is none.
pub open spec fn service_policy_error(name: Seq<char>, restart: Seq<char>) -> Seq<char> {
    "Service '"@ + name + "' has invalid restart policy: "@ + policy::invalid_policy(restart)
}

/// The restart policy of a service and the number of restarts that it allows.
pub fn service_restart_policy(service_name: &str, service: Option<&ServiceConfig>) -> (r: Result<
    (String, u32),
    String,
>)
    ensures
        match r {
            Ok((name, max)) => service_policy(declared_restart(service)) == Some((name@, max)),
            Err(e) => {
                &&& service_policy(declared_restart(service)) is None
                &&& e@ == service_policy_error(service_name@, declared_restart(service)->0)
            },
        },
{
    match service {
        Some(s) => match &s.restart {
            Some(restart) => match parse_restart_policy(restart.as_str()) {
                Ok(p) => Ok(p),
                Err(e) => Err(
                    cat4("Service '", service_name, "' has invalid restart policy: ", e.as_str()),
                ),
            },
            None => Ok(("no".to_string(), 0)),
        },
        None => Ok(("no".to_string(), 0)),
    }
}

/// Whether the service at place `i` is the first with an invalid policy.
pub open spec fn first_invalid(services: Seq<(String, ServiceConfig)>, i: int) -> bool {
    &&& 0 <= i < services.len()
    &&& service_policy(text::opt_str(services[i].1.restart)) is None
    &&& forall|j: int|
        0 <= j < i ==> service_policy(text::opt_str((#[trigger] services[j]).1.restart)) is Some
}

/// Every service has to declare a valid restart policy, where it declares one.
pub fn validate_compose_restart_policies(services: &Vec<(String, ServiceConfig)>) -> (r: Result<
    (),
    String,
>)
    ensures
        match r {
            Ok(_) => forall|j: int|
                0 <= j < services@.len() ==> service_policy(
                    text::opt_str((#[trigger] services@[j]).1.restart),
                ) is Some,
            Err(e) => exists|i: int|
                first_invalid(services@, i) && e@ == service_policy_error(
                    services@[i].0@,
                    text::opt_str(services@[i].1.restart)->0,
                ),
        },
{
    let mut i: usize = 0;
    while i < services.len()
        invariant
            i <= services.len(),
            forall|j: int|
                0 <= j < i ==> service_policy(
                    text::opt_str((#[trigger] services@[j]).1.restart),
                ) is Some,
        decreases services.len() - i,
    {
        match service_restart_policy(services[i].0.as_str(), Some(&services[i].1)) {
            Ok(_) => {},
            Err(e) => {
                assert(first_invalid(services@, i as int));
                return Err(e);
            },
        }
        i = i + 1;
    }
    Ok(())
}

// ---------------------------------------------------------------------------
// The boxes of a project
// ---------------------------------------------------------------------------

/// What has to be known of a service's box to stop and remove it.
#[derive(Debug)]
pub struct ServiceBox {
    /// Identifier of the box.
    pub box_id: String,
    /// Name of the service.
    pub svc_name: String,
    /// Process of the box.
    pub pid: Option<u32>,
    /// Status of the box.
    pub status: String,
    /// Directory of the box.
    pub box_dir: String,
    /// Socket for running commands in the box.
    pub exec_socket_path: String,
    /// Network of the box.
    pub network_name: Option<String>,
    /// Named volumes of the box.
    pub volume_names: Vec<String>,
    /// Volumes made for the image's declarations.
    pub anonymous_volumes: Vec<String>,
    /// Signal that stops the box.
    pub stop_signal: Option<String>,
    /// Seconds to wait before the box is killed.
    pub stop_timeout: Option<u64>,
}

/// What a [`ServiceBox`] holds.
#[verifier::ext_equal]
pub struct ServiceBoxView {
    pub box_id: Seq<char>,
    pub svc_name: Seq<char>,
    pub pid: Option<u32>,
    pub status: Seq<char>,
    pub box_dir: Seq<char>,
    pub exec_socket_path: Seq<char>,
    pub network_name: Option<Seq<char>>,
    pub volume_names: Seq<Seq<char>>,
    pub anonymous_volumes: Seq<Seq<char>>,
    pub stop_signal: Option<Seq<char>>,
    pub stop_timeout: Option<u64>,
}

impl View for ServiceBox {
    type V = ServiceBoxView;

    open spec fn view(&self) -> ServiceBoxView {
        ServiceBoxView {
            box_id: self.box_id@,
            svc_name: self.svc_name@,
            pid: self.pid,
            status: self.status@,
            box_dir: self.box_dir@,
            exec_socket_path: self.exec_socket_path@,
            network_name: text::opt_str(self.network_name),
            volume_names: text::strs(self.volume_names@),
            anonymous_volumes: text::strs(self.anonymous_volumes@),
            stop_signal: text::opt_str(self.stop_signal),
            stop_timeout: self.stop_timeout,
        }
    }
}

impl Clone for ServiceBox {
    fn clone(&self) -> (r: Self)
        ensures
            r@ == self@,
    {
        ServiceBox {
            box_id: self.box_id.clone(),
            svc_name: self.svc_name.clone(),
            pid: self.pid,
            status: self.status.clone(),
            box_dir: self.box_dir.clone(),
            exec_socket_path: self.exec_socket_path.clone(),
            network_name: self.network_name.clone(),
            volume_names: clone_strings(&self.volume_names),
            anonymous_volumes: clone_strings(&self.anonymous_volumes),
            stop_signal: self.stop_signal.clone(),
            stop_timeout: self.stop_timeout,
        }
    }
}

/// What a sequence of service boxes holds.
pub open spec fn boxes(v: Seq<ServiceBox>) -> Seq<ServiceBoxView> {
    v.map_values(|b: ServiceBox| b@)
}

/// Pushing a service box pushes what it holds.
pub broadcast proof fn lemma_boxes_push(v: Seq<ServiceBox>, b: ServiceBox)
    ensures
        #[trigger] boxes(v.push(b)) == boxes(v).push(b@),
{
    assert(boxes(v.push(b)) =~= boxes(v).push(b@));
}

/// The name of the service that a box runs; empty where it runs none.
pub open spec fn service_of(r: RecordView) -> Seq<char> {
    match state::label(r, LABEL_SERVICE@) {
        Some(name) => name,
        None => Seq::empty(),
    }
}

/// What has to be known of the box with that record.
pub open spec fn service_box(r: RecordView) -> ServiceBoxView {
    ServiceBoxView {
        box_id: r.id,
        svc_name: service_of(r),
        pid: r.pid,
        status: r.status,
        box_dir: r.box_dir,
        exec_socket_path: r.exec_socket_path,
        network_name: cleanup::network_of(r),
        volume_names: r.volume_names,
        anonymous_volumes: r.anonymous_volumes,
        stop_signal: r.stop_signal,
        stop_timeout: r.stop_timeout,
    }
}

impl ServiceBox {
    /// What has to be known of the box with that record.
    pub fn from_record(record: &BoxRecord) -> (r: Self)
        ensures
            r@ == service_box(record@),
    {
        let svc_name: String = match record.label(LABEL_SERVICE) {
            Some(name) => name.clone(),
            None => String::new(),
        };
        let network_name: Option<String> = match record_network_name(record) {
            Some(n) => Some(n.clone()),
            None => None,
        };
        let r = ServiceBox {
            box_id: record.id.clone(),
            svc_name,
            pid: record.pid,
            status: record.status.clone(),
            box_dir: record.box_dir.clone(),
            exec_socket_path: record.exec_socket_path.clone(),
            network_name,
            volume_names: clone_strings(&record.volume_names),
            anonymous_volumes: clone_strings(&record.anonymous_volumes),
            stop_signal: record.stop_signal.clone(),
            stop_timeout: record.stop_timeout,
        };
        assert(r@ =~= service_box(record@));
        r
    }

    /// Whether the box runs, be it paused.
    pub fn is_active(&self) -> (r: bool)
        ensures
            r == state::active(self@.status),
    {
        is_active_status(self.status.as_str())
    }
}

/// The started services and the current one behind them.
pub fn rollback_with_current(started_services: &Vec<ServiceBox>, current: ServiceBox) -> (r: Vec<
    ServiceBox,
>)
    ensures
        boxes(r@) == boxes(started_services@).push(current@),
{
    broadcast use lemma_boxes_push;

    let mut out: Vec<ServiceBox> = Vec::new();
    let mut i: usize = 0;
    while i < started_services.len()
        invariant
            i <= started_services.len(),
            boxes(out@) =~= boxes(started_services@).take(i as int),
        decreases started_services.len() - i,
    {
        proof {
            let all = boxes(started_services@);
            assert(all.take(i + 1) =~= all.take(i as int).push(started_services@[i as int]@));
        }
        out.push(started_services[i].clone());
        i = i + 1;
    }
    assert(boxes(out@) =~= boxes(started_services@));
    out.push(current);
    out
}

/// The service boxes from the last to the first.
pub fn latest_first(v: Vec<ServiceBox>) -> (r: Vec<ServiceBox>)
    ensures
        boxes(r@) == boxes(v@).reverse(),
{
    broadcast use lemma_boxes_push;

    let ghost all = boxes(v@);
    let mut rest: Vec<ServiceBox> = v;
    let mut out: Vec<ServiceBox> = Vec::new();
    while rest.len() > 0
        invariant
            rest.len() + out.len() == all.len(),
            boxes(rest@) =~= all.take(rest.len() as int),
            boxes(out@) =~= all.reverse().take(out.len() as int),
        decreases rest.len(),
    {
        let ghost was = rest@;
        let last: Option<ServiceBox> = rest.pop();
        if let Some(b) = last {
            proof {
                assert(was.last() == b);
                assert(boxes(was)[was.len() - 1] == b@);
                assert(all[was.len() - 1] == b@);
                let k = out.len() as int;
                assert(all.reverse().take(k + 1) =~= all.reverse().take(k).push(b@));
                assert(boxes(rest@) =~= all.take(rest.len() as int)) by {
                    assert(rest@ =~= was.drop_last());
                    assert forall|j: int| 0 <= j < rest.len() implies boxes(rest@)[j] == all[j] by {
                        assert(boxes(was)[j] == all.take(was.len() as int)[j]);
                    }
                }
            }
            out.push(b);
        }
    }
    out
}

/// The names from the last to the first.
pub fn names_latest_first(v: Vec<String>) -> (r: Vec<String>)
    ensures
        text::strs(r@) == text::strs(v@).reverse(),
{
    let mut rest: Vec<String> = v;
    let mut out: Vec<String> = Vec::new();
    while rest.len() > 0
        invariant
            rest.len() + out.len() == v.len(),
            rest@ =~= v@.take(rest.len() as int),
            out@ =~= v@.reverse().take(out.len() as int),
        decreases rest.len(),
    {
        let last: Option<String> = rest.pop();
        if let Some(s) = last {
            out.push(s);
        }
    }
    assert(out@ =~= v@.reverse());
    assert(text::strs(out@) =~= text::strs(v@).reverse());
    out
}

/// What tearing a service's box down takes.
pub open spec fn service_cleanup(b: ServiceBoxView) -> Seq<StepView> {
    cleanup::resource_steps(b.box_id, b.volume_names, b.network_name) + cleanup::volume_steps(
        b.anonymous_volumes,
    ) + seq![StepView::RemoveDir { path: b.box_dir }] + cleanup::socket_steps(
        b.box_dir,
        b.exec_socket_path,
    )
}

/// What tearing a service's box down takes.
pub fn cleanup_service_box(svc: &ServiceBox) -> (r: Vec<CleanupStep>)
    ensures
        cleanup::steps(r@) == service_cleanup(svc@),
{
    broadcast use crate::cleanup::lemma_steps_push;

    let mut out: Vec<CleanupStep> = chain(
        cleanup_box_resources(svc.box_id.as_str(), &svc.volume_names, svc.network_name.as_ref()),
        cleanup_anonymous_volumes(&svc.anonymous_volumes),
    );
    let ghost a = cleanup::steps(out@);
    out.push(CleanupStep::RemoveDir { path: svc.box_dir.clone() });
    assert(cleanup::steps(out@) =~= a + seq![StepView::RemoveDir { path: svc@.box_dir }]);
    chain(
        out,
        cleanup_external_socket_dir(svc.box_dir.as_str(), svc.exec_socket_path.as_str()),
    )
}

/// How the process of a service's box is stopped.
#[derive(Debug)]
pub enum StopPlan {
    /// Not at all: the box does not run.
    Nothing,
    /// Not at all: the box is said to run, but no process is known.
    Stale {
        /// What the user is told.
        warning: String,
    },
    /// With a signal, and by force where that takes too long.
    Stop {
        /// The process.
        pid: u32,
        /// Whether a paused process has to be resumed first.
        resume: bool,
        /// The signal.
        signal: i32,
        /// Seconds to wait.
        timeout: u64,
        /// Socket through which the guest is asked to stop.
        exec_socket: String,
    },
}

/// The socket for running commands in a service's box.
pub open spec fn stop_socket(b: ServiceBoxView) -> Seq<char> {
    if b.exec_socket_path.len() == 0 {
        path::under(path::under(b.box_dir, "sockets"@), "exec.sock"@)
    } else {
        b.exec_socket_path
    }
}

/// How the process of a service's box is stopped. `number` is the number of the
/// signal that the box names.
pub fn stop_service_process(svc: &ServiceBox, number: Option<i32>) -> (r: StopPlan)
    ensures
        match r {
            StopPlan::Nothing => !state::active(svc@.status),
            StopPlan::Stale { warning } => state::active(svc@.status) && svc@.pid is None
                && warning@ == "  Warning: service "@ + svc@.svc_name + " is "@ + svc@.status
                + " but has no recorded PID; removing stale service state."@,
            StopPlan::Stop { pid, resume, signal, timeout, exec_socket } => {
                &&& state::active(svc@.status)
                &&& svc@.pid == Some(pid)
                &&& resume == (svc@.status == "paused"@)
                &&& signal == stop::signal_of(number)
                &&& timeout == (match svc@.stop_timeout {
                    Some(t) => t,
                    None => 10u64,
                })
                &&& exec_socket@ == stop_socket(svc@)
            },
        },
{
    if !svc.is_active() {
        return StopPlan::Nothing;
    }
    match svc.pid {
        None => StopPlan::Stale {
            warning: cat5(
                "  Warning: service ",
                svc.svc_name.as_str(),
                " is ",
                svc.status.as_str(),
                " but has no recorded PID; removing stale service state.",
            ),
        },
        Some(pid) => {
            let exec_socket: String = if svc.exec_socket_path.as_str().is_empty() {
                let dir: String = path_join(svc.box_dir.as_str(), "sockets");
                path_join(dir.as_str(), "exec.sock")
            } else {
                svc.exec_socket_path.clone()
            };
            StopPlan::Stop {
                pid,
                resume: str_eq(svc.status.as_str(), "paused"),
                signal: stop_signal(number),
                timeout: match svc.stop_timeout {
                    Some(t) => t,
                    None => 10,
                },
                exec_socket,
            }
        },
    }
}

// ---------------------------------------------------------------------------
// What a project comes to
// ---------------------------------------------------------------------------

/// A project goes by the name it is given; without one by the name of the directory
/// of its file, and by `default` where that has none.
pub proof fn lemma_project_named(flag: Option<String>, path: &str, r: String)
    requires
        call_ensures(project_name, (flag, path), r),
    ensures
        flag is Some ==> r@ == flag->0@,
        flag is None && path::parent_of(path@) is None ==> r@ == "default"@,
        flag is None && path::parent_of(path@) is Some && path::file_name_of(
            path::parent_of(path@)->0,
        ) is Some ==> r@ == path::file_name_of(path::parent_of(path@)->0)->0,
{
}

/// The first of the usual files that is there is taken, in the order of their names,
/// and one that is given is taken exactly where it is there.
pub proof fn lemma_compose_file_found(
    cwd: &str,
    present: [bool; 4],
    r: Result<String, String>,
    path: &str,
    exists: bool,
    given: Result<String, String>,
)
    requires
        call_ensures(default_compose_file, (cwd, present), r),
        call_ensures(explicit_compose_file, (path, exists), given),
    ensures
        given is Ok <==> exists,
        given is Ok ==> given->Ok_0@ == path@,
        r is Ok <==> present@[0] || present@[1] || present@[2] || present@[3],
        present@[0] ==> r->Ok_0@ == path::under(cwd@, "compose.yaml"@),
        !present@[0] && present@[1] ==> r->Ok_0@ == path::under(cwd@, "compose.yml"@),
        !present@[0] && !present@[1] && present@[2] ==> r->Ok_0@ == path::under(
            cwd@,
            "docker-compose.yaml"@,
        ),
        !present@[0] && !present@[1] && !present@[2] && present@[3] ==> r->Ok_0@ == path::under(
            cwd@,
            "docker-compose.yml"@,
        ),
{
    assert(COMPOSE_FILES@[0]@ == "compose.yaml"@ && COMPOSE_FILES@[1]@ == "compose.yml"@);
    assert(COMPOSE_FILES@[2]@ == "docker-compose.yaml"@);
    assert(COMPOSE_FILES@[3]@ == "docker-compose.yml"@);
    assert(r is Err ==> none_present(present@));
    if r is Ok {
        let i = choose|i: int| #[trigger]
            first_present(present@, i) && (r->Ok_0)@ == path::under(cwd@, COMPOSE_FILES@[i]@);
        assert(first_present(present@, i));
        assert(i == 0 || i == 1 || i == 2 || i == 3);
    }
}

/// A service without a policy is not restarted; any other has the policy that its
/// words are read as, and is refused where they are none.
pub proof fn lemma_service_policy_read(
    name: &str,
    s: ServiceConfig,
    r: Result<(String, u32), String>,
    policy: &str,
    read: Result<(String, u32), String>,
)
    requires
        call_ensures(service_restart_policy, (name, Some(&s)), r),
        call_ensures(policy::parse_restart_policy, (policy,), read),
        s.restart is Some ==> s.restart->0@ == policy@,
    ensures
        s.restart is None ==> r is Ok && (r->Ok_0).0@ == "no"@ && (r->Ok_0).1 == 0,
        s.restart is Some ==> (r is Ok <==> read is Ok),
        s.restart is Some && r is Ok ==> (r->Ok_0).0@ == (read->Ok_0).0@ && (r->Ok_0).1 == (
        read->Ok_0).1,
{
}

/// The policies of a project are accepted exactly where each service's is.
pub proof fn lemma_policies_all_accepted(
    services: Vec<(String, ServiceConfig)>,
    i: int,
    one: Result<(String, u32), String>,
    r: Result<(), String>,
    name: &str,
)
    requires
        call_ensures(validate_compose_restart_policies, (&services,), r),
        0 <= i < services@.len(),
        call_ensures(service_restart_policy, (name, Some(&services@[i].1)), one),
    ensures
        one is Err ==> r is Err,
        r is Ok ==> one is Ok,
{
}

/// What is known of a service's box is what its record tells.
pub proof fn lemma_service_box_of_record(record: BoxRecord, b: ServiceBox, active: bool)
    requires
        call_ensures(ServiceBox::from_record, (&record,), b),
        call_ensures(ServiceBox::is_active, (&b,), active),
    ensures
        b.box_id@ == record.id@,
        b.pid == record.pid,
        b.status@ == record.status@,
        b.box_dir@ == record.box_dir@,
        b.exec_socket_path@ == record.exec_socket_path@,
        text::same_texts(b.volume_names@, record.volume_names@),
        text::same_texts(b.anonymous_volumes@, record.anonymous_volumes@),
        text::opt_str(b.stop_signal) == text::opt_str(record.stop_signal),
        b.stop_timeout == record.stop_timeout,
        text::opt_str(b.network_name) == cleanup::network_of(record@),
        record.labels@.contains_key(LABEL_SERVICE@) ==> b.svc_name@ == record.labels@[LABEL_SERVICE@]@,
        active <==> record.status@ == "running"@ || record.status@ == "paused"@,
{
    text::lemma_same_texts(b.volume_names@, record.volume_names@);
    text::lemma_same_texts(b.anonymous_volumes@, record.anonymous_volumes@);
    assert(b@ == service_box(record@));
    let labels = crate::strmap::texts(record.labels@);
    assert(record@.labels == labels);
    if record.labels@.contains_key(LABEL_SERVICE@) {
        assert(labels.dom().contains(LABEL_SERVICE@));
        assert(labels[LABEL_SERVICE@] == record.labels@[LABEL_SERVICE@]@);
    }
}

/// The process of a service is stopped exactly where the service is active and has
/// one: by the signal that is read, or the usual one, with the box's own timeout or
/// ten seconds, and after it is resumed where it is paused.
pub proof fn lemma_service_stopped(svc: ServiceBox, number: Option<i32>, r: StopPlan)
    requires
        call_ensures(stop_service_process, (&svc, number), r),
    ensures
        ({
            let active = svc.status@ == "running"@ || svc.status@ == "paused"@;
            &&& r is Nothing <==> !active
            &&& r is Stale <==> active && svc.pid is None
            &&& r is Stop <==> active && svc.pid is Some
            &&& r matches StopPlan::Stop { pid, resume, signal, timeout, exec_socket } ==> {
                &&& pid == svc.pid->0
                &&& resume == (svc.status@ == "paused"@)
                &&& number is Some ==> signal == number->0
                &&& number is None ==> signal == 15
                &&& svc.stop_timeout is Some ==> timeout == svc.stop_timeout->0
                &&& svc.stop_timeout is None ==> timeout == 10
                &&& svc.exec_socket_path@.len() > 0 ==> exec_socket@ == svc.exec_socket_path@
            }
        }),
{
}

/// A service's box that is taken away leaves nothing: its volumes are detached, its
/// unnamed ones removed, it is taken off its network, and its directory is gone.
pub proof fn lemma_service_box_taken_away(svc: ServiceBox, r: Vec<CleanupStep>, i: int)
    requires
        call_ensures(cleanup_service_box, (&svc,), r),
    ensures
        cleanup::steps(r@)[0] == (StepView::DetachVolumes {
            volumes: text::strs(svc.volume_names@),
            box_id: svc.box_id@,
        }),
        svc.network_name is Some ==> cleanup::steps(r@).contains(
            StepView::Disconnect { network: svc.network_name->0@, box_id: svc.box_id@ },
        ),
        cleanup::steps(r@).contains(StepView::RemoveDir { path: svc.box_dir@ }),
        0 <= i < svc.anonymous_volumes@.len() ==> cleanup::steps(r@).contains(
            StepView::RemoveVolume { name: svc.anonymous_volumes@[i]@ },
        ),
{
    let b = svc@;
    let head = cleanup::resource_steps(b.box_id, b.volume_names, b.network_name);
    let vols = cleanup::volume_steps(b.anonymous_volumes);
    let all = service_cleanup(b);
    assert(all[0] == head[0]);
    if svc.network_name is Some {
        assert(all[1] == head[1]);
    }
    assert(all[(head.len() + vols.len()) as int] == StepView::RemoveDir { path: b.box_dir });
    if 0 <= i < svc.anonymous_volumes@.len() {
        assert(b.anonymous_volumes[i] == svc.anonymous_volumes@[i]@);
        assert(all[head.len() + i] == vols[i]);
    }
}

/// What was started last is stopped first.
pub proof fn lemma_latest_first(
    started: Vec<ServiceBox>,
    current: ServiceBox,
    all: Vec<ServiceBox>,
    r: Vec<ServiceBox>,
    i: int,
)
    requires
        call_ensures(rollback_with_current, (&started, current), all),
        call_ensures(latest_first, (all,), r),
    ensures
        r@.len() == started@.len() + 1,
        r@[0]@ == current@,
        0 <= i < started@.len() ==> r@[started@.len() - i]@ == started@[i]@,
{
    assert(boxes(r@).len() == r@.len() && boxes(all@).len() == all@.len());
    assert(boxes(r@)[0] == r@[0]@);
    if 0 <= i < started@.len() {
        assert(boxes(r@)[started@.len() - i] == r@[started@.len() - i]@);
        assert(boxes(all@)[i] == started@[i]@);
    }
}

} // verus!
