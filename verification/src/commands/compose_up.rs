//! `compose up`: networks first, then the services in dependency order, and all
//! of it undone where a step fails.
//!
//! [`next_action`] says what to do in a state, [`advance`] takes what came of it.
//! The caller performs the actions and carries the state from one to the other.

use vstd::prelude::*;

use crate::cleanup;
use crate::cleanup::{chain, cleanup_box_resources, cleanup_external_socket_dir, CleanupStep, StepView};
use crate::commands::compose;
use crate::commands::compose::{latest_first, names_latest_first, rollback_with_current, ServiceBox, ServiceBoxView};
use crate::commands::network;
use crate::commands::network::{validate_attachable_network, NetworkConfig};
use crate::number;
use crate::path;
use crate::path::path_join;
use crate::text;
use crate::text::{cat3, cat4, clone_strings};

verus! {

/// A service to start.
#[derive(Debug)]
pub struct ServicePlan {
    /// Name of the service.
    pub name: String,
    /// Services that have to be healthy first.
    pub health_deps: Vec<String>,
}

/// What `compose up` is to bring about.
#[derive(Debug)]
pub struct UpPlan {
    /// Name of the project.
    pub project: String,
    /// Networks that the services need.
    pub networks: Vec<String>,
    /// The services, each after those that it depends on.
    pub services: Vec<ServicePlan>,
}

/// What is being done.
#[derive(Clone, Copy, Debug, PartialEq, Eq, Structural)]
pub enum UpStage {
    /// A network is looked for.
    LookupNetwork,
    /// The configuration of a new network is made.
    MakeNetwork,
    /// A new network is stored.
    CreateNetwork,
    /// The services that a service depends on become healthy.
    WaitHealthy,
    /// The configuration of a service's box is made.
    Configure,
    /// The volumes of a service are resolved.
    ResolveVolumes,
    /// The directory for a box's sockets is made.
    MakeSocketDir,
    /// The directory for a box's logs is made.
    MakeLogDir,
    /// The network of a service is looked for.
    LookupServiceNetwork,
    /// A service's box gets its place in the network.
    Connect,
    /// The network is stored with the box in it.
    SaveNetwork,
    /// A service's box is started.
    Boot,
    /// The state is read again.
    Reload,
    /// The record of the box is added to the state.
    AddRecord,
    /// The named volumes are attached to the box.
    AttachVolumes,
    /// All services run.
    Done,
}

/// The service that is being started.
#[derive(Debug)]
pub struct Pending {
    /// Identifier of its box.
    pub box_id: String,
    /// Directory of its box.
    pub box_dir: String,
    /// Network of its box.
    pub network: Option<String>,
    /// Named volumes of its box.
    pub volume_names: Vec<String>,
    /// Its volumes as they are mounted.
    pub mounts: Vec<String>,
    /// Its box, once started.
    pub service: Option<ServiceBox>,
}

/// How far `compose up` has come.
#[derive(Debug)]
pub struct UpState {
    /// What is being done.
    pub stage: UpStage,
    /// The network or service it is done for.
    pub index: usize,
    /// The networks that were created, in order.
    pub created: Vec<String>,
    /// The services that were started, in order.
    pub started: Vec<ServiceBox>,
    /// The service that is being started.
    pub current: Option<Pending>,
}

/// What to do next.
#[derive(Debug)]
pub enum UpAction {
    /// Look for the network.
    LookupNetwork { name: String },
    /// Make the configuration of a network with these addresses.
    MakeNetwork { name: String, subnet: String },
    /// Store the configuration that was made.
    CreateNetwork { name: String },
    /// Wait until the services are healthy.
    WaitHealthy { services: Vec<String> },
    /// Make the configuration of the service's box.
    Configure { service: String },
    /// Resolve the volumes of the service.
    ResolveVolumes { service: String },
    /// Make a directory with all that lead to it.
    MakeDir { path: String },
    /// Connect the box to the network that was found.
    Connect { network: String, box_id: String, box_name: String },
    /// Store the network with the box in it.
    SaveNetwork { network: String },
    /// Start the box with these mounts.
    Boot { box_id: String, mounts: Vec<String> },
    /// Read the state again.
    Reload,
    /// Add the record of the box to the state.
    AddRecord { box_id: String },
    /// Attach the volumes to the box.
    AttachVolumes { volumes: Vec<String>, box_id: String },
    /// Nothing: all services run.
    Finish,
}

/// What came of an action.
#[derive(Debug)]
pub enum UpEvent {
    /// It failed.
    Failed {
        /// What went wrong.
        error: String,
    },
    /// It was done.
    Completed,
    /// The network was found or made. `policy` tells whether the runtime
    /// supports its isolation policy.
    Network {
        /// The network.
        config: NetworkConfig,
        /// Whether its policy is supported.
        policy: Result<(), String>,
    },
    /// There is no such network.
    NetworkMissing,
    /// The configuration of the box was made.
    Configured {
        /// Identifier of the box.
        box_id: String,
        /// Directory of the box.
        box_dir: String,
        /// Network of the box.
        network: Option<String>,
    },
    /// The volumes were resolved.
    Volumes {
        /// The named ones.
        names: Vec<String>,
        /// All of them as they are mounted.
        mounts: Vec<String>,
    },
    /// The box was started.
    Booted {
        /// The box.
        service: ServiceBox,
    },
}

/// What has to be undone.
#[derive(Debug)]
pub struct UpRollback {
    /// Steps for a box that failed to start.
    pub cleanup: Vec<CleanupStep>,
    /// Services to stop and remove, in this order.
    pub stop: Vec<ServiceBox>,
    /// Networks to remove, in this order.
    pub networks: Vec<String>,
    /// What went wrong.
    pub error: String,
}

/// Whether the stage is about a network.
pub open spec fn network_stage(s: UpStage) -> bool {
    s == UpStage::LookupNetwork || s == UpStage::MakeNetwork || s == UpStage::CreateNetwork
}

/// Whether the box of the current service is known.
pub open spec fn has_pending(s: UpStage) -> bool {
    !network_stage(s) && s != UpStage::WaitHealthy && s != UpStage::Configure && s != UpStage::Done
}

/// Whether the box of the current service runs.
pub open spec fn has_booted(s: UpStage) -> bool {
    s == UpStage::Reload || s == UpStage::AddRecord || s == UpStage::AttachVolumes
}

/// Whether the stage is about the network of the current service.
pub open spec fn connects(s: UpStage) -> bool {
    s == UpStage::LookupServiceNetwork || s == UpStage::Connect || s == UpStage::SaveNetwork
}

/// Whether the state is one that `compose up` comes into: what was created are
/// some of the networks dealt with so far, in their order, and what was started
/// are the services before the current one.
pub open spec fn wf(plan: UpPlan, s: UpState) -> bool {
    &&& network_stage(s.stage) ==> s.index < plan.networks@.len() && s.started@.len() == 0
    &&& !network_stage(s.stage) && s.stage != UpStage::Done ==> s.index < plan.services@.len()
    &&& !network_stage(s.stage) && s.stage != UpStage::Done ==> s.started@.len() == s.index
    &&& s.stage == UpStage::Done ==> s.started@.len() == plan.services@.len()
    &&& s.started@.len() <= plan.services@.len()
    &&& forall|i: int|
        0 <= i < s.started@.len() ==> (#[trigger] s.started@[i]).svc_name@
            == plan.services@[i].name@
    &&& s.stage == UpStage::WaitHealthy ==> plan.services@[s.index as int].health_deps@.len() > 0
    &&& s.current is Some <==> has_pending(s.stage)
    &&& connects(s.stage) ==> s.current->0.network is Some
    &&& has_pending(s.stage) ==> (s.current->0.service is Some <==> has_booted(s.stage))
    &&& has_booted(s.stage) ==> s.current->0.service->0.svc_name@
        == plan.services@[s.index as int].name@
    &&& created_from(
        text::strs(plan.networks@).take(if network_stage(s.stage) {
            s.index as int
        } else {
            plan.networks@.len() as int
        }),
        text::strs(s.created@),
    )
}

/// Whether `created` are some of `names`, in their order.
pub open spec fn created_from(names: Seq<Seq<char>>, created: Seq<Seq<char>>) -> bool
    decreases names.len(),
{
    if names.len() == 0 {
        created.len() == 0
    } else {
        ||| created_from(names.drop_last(), created)
        ||| created.len() > 0 && created.last() == names.last() && created_from(
            names.drop_last(),
            created.drop_last(),
        )
    }
}

/// Whether the event can come of what is done in the stage.
pub open spec fn fits(plan: UpPlan, s: UpState, e: UpEvent) -> bool {
    match e {
        UpEvent::Failed { .. } => s.stage != UpStage::Done,
        UpEvent::Network { .. } => s.stage == UpStage::LookupNetwork || s.stage
            == UpStage::MakeNetwork || s.stage == UpStage::LookupServiceNetwork,
        UpEvent::NetworkMissing => s.stage == UpStage::LookupNetwork || s.stage
            == UpStage::LookupServiceNetwork,
        UpEvent::Configured { .. } => s.stage == UpStage::Configure,
        UpEvent::Volumes { .. } => s.stage == UpStage::ResolveVolumes,
        UpEvent::Booted { service } => s.stage == UpStage::Boot && service.svc_name@
            == plan.services@[s.index as int].name@,
        UpEvent::Completed => s.stage == UpStage::CreateNetwork || s.stage == UpStage::WaitHealthy
            || s.stage == UpStage::MakeSocketDir || s.stage == UpStage::MakeLogDir || s.stage
            == UpStage::Connect || s.stage == UpStage::SaveNetwork || s.stage == UpStage::Reload
            || s.stage == UpStage::AddRecord || s.stage == UpStage::AttachVolumes,
    }
}

/// Why `compose up` gives up, where it does.
pub open spec fn failure(plan: UpPlan, s: UpState, e: UpEvent) -> Option<Seq<char>> {
    match e {
        UpEvent::Failed { error } => Some(
            if s.stage == UpStage::MakeNetwork {
                "Failed to create network '"@ + plan.networks@[s.index as int]@ + "': "@ + error@
            } else if s.stage == UpStage::Connect {
                "Failed to connect service '"@ + plan.services@[s.index as int].name@
                    + "' to network: "@ + error@
            } else if s.stage == UpStage::Boot {
                "Failed to start service '"@ + plan.services@[s.index as int].name@ + "': "@
                    + error@
            } else {
                error@
            },
        ),
        UpEvent::Network { config, policy } => network::attach_error(config.driver@, policy),
        UpEvent::NetworkMissing => if s.stage == UpStage::LookupServiceNetwork {
            Some("Compose network '"@ + s.current->0.network->0@ + "' was not created"@)
        } else {
            None
        },
        _ => None,
    }
}

/// What is done first for the service at place `i`.
pub open spec fn service_stage(plan: UpPlan, i: int) -> UpStage {
    if i >= plan.services@.len() {
        UpStage::Done
    } else if plan.services@[i].health_deps@.len() > 0 {
        UpStage::WaitHealthy
    } else {
        UpStage::Configure
    }
}

/// What is done after the network at place `i`, and for which network or
/// service.
pub open spec fn after_network(plan: UpPlan, i: int) -> (UpStage, int) {
    if i + 1 < plan.networks@.len() {
        (UpStage::LookupNetwork, i + 1)
    } else {
        (service_stage(plan, 0), 0)
    }
}

/// What is done after an event that is no failure, and for which network or
/// service.
pub open spec fn next_stage(plan: UpPlan, s: UpState, e: UpEvent) -> (UpStage, int) {
    let i = s.index as int;
    match s.stage {
        UpStage::LookupNetwork => if e is NetworkMissing {
            (UpStage::MakeNetwork, i)
        } else {
            after_network(plan, i)
        },
        UpStage::MakeNetwork => (UpStage::CreateNetwork, i),
        UpStage::CreateNetwork => after_network(plan, i),
        UpStage::WaitHealthy => (UpStage::Configure, i),
        UpStage::Configure => (UpStage::ResolveVolumes, i),
        UpStage::ResolveVolumes => (UpStage::MakeSocketDir, i),
        UpStage::MakeSocketDir => (UpStage::MakeLogDir, i),
        UpStage::MakeLogDir => if s.current->0.network is Some {
            (UpStage::LookupServiceNetwork, i)
        } else {
            (UpStage::Boot, i)
        },
        UpStage::LookupServiceNetwork => (UpStage::Connect, i),
        UpStage::Connect => (UpStage::SaveNetwork, i),
        UpStage::SaveNetwork => (UpStage::Boot, i),
        UpStage::Boot => (UpStage::Reload, i),
        UpStage::Reload => (UpStage::AddRecord, i),
        UpStage::AddRecord => (UpStage::AttachVolumes, i),
        UpStage::AttachVolumes => (service_stage(plan, i + 1), i + 1),
        UpStage::Done => (UpStage::Done, i),
    }
}

/// The networks created once an event that is no failure has come.
pub open spec fn next_created(plan: UpPlan, s: UpState) -> Seq<Seq<char>> {
    if s.stage == UpStage::CreateNetwork {
        text::strs(s.created@).push(plan.networks@[s.index as int]@)
    } else {
        text::strs(s.created@)
    }
}

/// The services started once an event that is no failure has come.
pub open spec fn next_started(s: UpState) -> Seq<ServiceBox> {
    if s.stage == UpStage::AttachVolumes {
        s.started@.push(s.current->0.service->0)
    } else {
        s.started@
    }
}

/// Whether `t` is what is known of the current service after the event.
pub open spec fn next_current(s: UpState, e: UpEvent, t: Option<Pending>) -> bool {
    match e {
        UpEvent::Configured { box_id, box_dir, network } => {
            &&& t is Some
            &&& t->0.box_id == box_id
            &&& t->0.box_dir == box_dir
            &&& t->0.network == network
            &&& t->0.volume_names@ == Seq::<String>::empty()
            &&& t->0.mounts@ == Seq::<String>::empty()
            &&& t->0.service is None
        },
        UpEvent::Volumes { names, mounts } => t == Some(
            Pending { volume_names: names, mounts, ..s.current->0 },
        ),
        UpEvent::Booted { service } => t == Some(
            Pending { service: Some(service), ..s.current->0 },
        ),
        _ => if s.stage == UpStage::AttachVolumes {
            t is None
        } else {
            t == s.current
        },
    }
}

/// The services to stop, in order: those started, and the current one where it
/// runs, the latest first.
pub open spec fn to_stop(s: UpState) -> Seq<ServiceBoxView> {
    let all = if has_booted(s.stage) {
        compose::boxes(s.started@).push(s.current->0.service->0@)
    } else {
        compose::boxes(s.started@)
    };
    all.reverse()
}

/// What is left of a box that failed to start.
pub open spec fn failed_boot_steps(p: Pending) -> Seq<StepView> {
    cleanup::resource_steps(p.box_id@, text::strs(p.volume_names@), text::opt_str(p.network))
        + cleanup::socket_steps(p.box_dir@, path::under(p.box_dir@, "sockets/exec.sock"@)) + seq![
        StepView::RemoveDir { path: p.box_dir@ },
    ]
}

/// What has to be undone where an event is a failure.
pub open spec fn undoes(plan: UpPlan, s: UpState, e: UpEvent, r: UpRollback) -> bool {
    &&& failure(plan, s, e) == Some(r.error@)
    &&& compose::boxes(r.stop@) == to_stop(s)
    &&& text::strs(r.networks@) == text::strs(s.created@).reverse()
    &&& cleanup::steps(r.cleanup@) == if s.stage == UpStage::Boot {
        failed_boot_steps(s.current->0)
    } else {
        seq![]
    }
}

/// The state in which `compose up` begins.
pub fn start(plan: &UpPlan) -> (r: UpState)
    ensures
        wf(*plan, r),
        r.stage == if plan.networks@.len() > 0 {
            UpStage::LookupNetwork
        } else {
            service_stage(*plan, 0)
        },
        r.index == 0,
        r.created@ == Seq::<String>::empty(),
        r.started@ == Seq::<ServiceBox>::empty(),
        r.current is None,
{
    let stage: UpStage = if plan.networks.len() > 0 {
        UpStage::LookupNetwork
    } else {
        first_stage(plan, 0)
    };
    let r = UpState {
        stage,
        index: 0,
        created: Vec::new(),
        started: Vec::new(),
        current: None,
    };
    proof {
        assert(text::strs(plan.networks@).take(0) =~= Seq::<Seq<char>>::empty());
        assert(text::strs(r.created@) =~= Seq::<Seq<char>>::empty());
        if plan.networks@.len() == 0 {
            assert(text::strs(plan.networks@) =~= Seq::<Seq<char>>::empty());
            assert(text::strs(plan.networks@).take(plan.networks@.len() as int) =~= Seq::<
                Seq<char>,
            >::empty());
        }
    }
    r
}

/// What is done first for the service at place `i`.
fn first_stage(plan: &UpPlan, i: usize) -> (r: UpStage)
    ensures
        r == service_stage(*plan, i as int),
{
    if i >= plan.services.len() {
        UpStage::Done
    } else if plan.services[i].health_deps.len() > 0 {
        UpStage::WaitHealthy
    } else {
        UpStage::Configure
    }
}

/// The addresses of the network that is made for place `i`.
pub open spec fn subnet_of(i: int) -> Seq<char> {
    "10.89."@ + number::decimal((100 + i) as nat) + ".0/24"@
}

/// Whether the action is the one of the state.
pub open spec fn is_action(plan: UpPlan, s: UpState, a: UpAction) -> bool {
    match a {
        UpAction::LookupNetwork { name } => {
            ||| s.stage == UpStage::LookupNetwork && name@ == plan.networks@[s.index as int]@
            ||| s.stage == UpStage::LookupServiceNetwork && name@ == s.current->0.network->0@
        },
        UpAction::MakeNetwork { name, subnet } => s.stage == UpStage::MakeNetwork && name@
            == plan.networks@[s.index as int]@ && subnet@ == subnet_of(s.index as int),
        UpAction::CreateNetwork { name } => s.stage == UpStage::CreateNetwork && name@
            == plan.networks@[s.index as int]@,
        UpAction::WaitHealthy { services } => s.stage == UpStage::WaitHealthy && services@
            == plan.services@[s.index as int].health_deps@,
        UpAction::Configure { service } => s.stage == UpStage::Configure && service@
            == plan.services@[s.index as int].name@,
        UpAction::ResolveVolumes { service } => s.stage == UpStage::ResolveVolumes && service@
            == plan.services@[s.index as int].name@,
        UpAction::MakeDir { path: p } => {
            ||| s.stage == UpStage::MakeSocketDir && p@ == path::under(
                s.current->0.box_dir@,
                "sockets"@,
            )
            ||| s.stage == UpStage::MakeLogDir && p@ == path::under(
                s.current->0.box_dir@,
                "logs"@,
            )
        },
        UpAction::Connect { network, box_id, box_name } => s.stage == UpStage::Connect && network@
            == s.current->0.network->0@ && box_id@ == s.current->0.box_id@ && box_name@
            == box_name_of(plan.project@, plan.services@[s.index as int].name@),
        UpAction::SaveNetwork { network } => s.stage == UpStage::SaveNetwork && network@
            == s.current->0.network->0@,
        UpAction::Boot { box_id, mounts } => s.stage == UpStage::Boot && box_id@ == s.current->0.box_id@
            && mounts@ == s.current->0.mounts@,
        UpAction::Reload => s.stage == UpStage::Reload,
        UpAction::AddRecord { box_id } => s.stage == UpStage::AddRecord && box_id@
            == s.current->0.box_id@,
        UpAction::AttachVolumes { volumes, box_id } => s.stage == UpStage::AttachVolumes
            && volumes@ == s.current->0.volume_names@ && box_id@ == s.current->0.box_id@,
        UpAction::Finish => s.stage == UpStage::Done,
    }
}

/// The name of a service's box.
pub open spec fn box_name_of(project: Seq<char>, service: Seq<char>) -> Seq<char> {
    project + "-"@ + service
}

/// What to do in the state.
pub fn next_action(plan: &UpPlan, s: &UpState) -> (r: UpAction)
    requires
        wf(*plan, *s),
    ensures
        is_action(*plan, *s, r),
{
    match s.stage {
        UpStage::LookupNetwork => UpAction::LookupNetwork {
            name: plan.networks[s.index].clone(),
        },
        UpStage::MakeNetwork => {
            let octet: String = number::u128_text(100 + s.index as u128);
            UpAction::MakeNetwork {
                name: plan.networks[s.index].clone(),
                subnet: cat3("10.89.", octet.as_str(), ".0/24"),
            }
        },
        UpStage::CreateNetwork => UpAction::CreateNetwork {
            name: plan.networks[s.index].clone(),
        },
        UpStage::WaitHealthy => UpAction::WaitHealthy {
            services: clone_strings(&plan.services[s.index].health_deps),
        },
        UpStage::Configure => UpAction::Configure { service: plan.services[s.index].name.clone() },
        UpStage::ResolveVolumes => UpAction::ResolveVolumes {
            service: plan.services[s.index].name.clone(),
        },
        UpStage::Reload => UpAction::Reload,
        UpStage::Done => UpAction::Finish,
        _ => next_box_action(plan, s),
    }
}

/// What to do for the box of the current service.
fn next_box_action(plan: &UpPlan, s: &UpState) -> (r: UpAction)
    requires
        wf(*plan, *s),
        has_pending(s.stage),
        s.stage != UpStage::ResolveVolumes,
        s.stage != UpStage::Reload,
    ensures
        is_action(*plan, *s, r),
{
    match &s.current {
        Some(p) => match s.stage {
            UpStage::MakeSocketDir => UpAction::MakeDir {
                path: path_join(p.box_dir.as_str(), "sockets"),
            },
            UpStage::MakeLogDir => UpAction::MakeDir {
                path: path_join(p.box_dir.as_str(), "logs"),
            },
            UpStage::Boot => UpAction::Boot { box_id: p.box_id.clone(), mounts: clone_strings(&p.mounts) },
            UpStage::AddRecord => UpAction::AddRecord { box_id: p.box_id.clone() },
            UpStage::AttachVolumes => UpAction::AttachVolumes {
                volumes: clone_strings(&p.volume_names),
                box_id: p.box_id.clone(),
            },
            _ => match &p.network {
                Some(net) => match s.stage {
                    UpStage::LookupServiceNetwork => UpAction::LookupNetwork { name: net.clone() },
                    UpStage::Connect => UpAction::Connect {
                        network: net.clone(),
                        box_id: p.box_id.clone(),
                        box_name: cat3(
                            plan.project.as_str(),
                            "-",
                            plan.services[s.index].name.as_str(),
                        ),
                    },
                    _ => UpAction::SaveNetwork { network: net.clone() },
                },
                None => UpAction::Finish,
            },
        },
        None => UpAction::Finish,
    }
}

/// What has to be undone where the current step fails with that message.
fn roll_back(s: UpState, error: String) -> (r: UpRollback)
    requires
        s.current is Some <==> has_pending(s.stage),
        has_pending(s.stage) ==> (s.current->0.service is Some <==> has_booted(s.stage)),
    ensures
        r.error == error,
        compose::boxes(r.stop@) == to_stop(s),
        text::strs(r.networks@) == text::strs(s.created@).reverse(),
        cleanup::steps(r.cleanup@) == if s.stage == UpStage::Boot {
            failed_boot_steps(s.current->0)
        } else {
            seq![]
        },
{
    broadcast use crate::cleanup::lemma_steps_push;

    let UpState { stage, index: _, created, started, current } = s;
    let networks: Vec<String> = names_latest_first(created);
    let mut cleanup: Vec<CleanupStep> = Vec::new();
    assert(cleanup::steps(cleanup@) =~= seq![]);
    let mut all: Vec<ServiceBox> = started;
    match current {
        Some(p) => {
            let Pending { box_id, box_dir, network, volume_names, mounts: _, service } = p;
            if stage == UpStage::Boot {
                let socket: String = path_join(box_dir.as_str(), "sockets/exec.sock");
                let mut left: Vec<CleanupStep> = chain(
                    cleanup_box_resources(box_id.as_str(), &volume_names, network.as_ref()),
                    cleanup_external_socket_dir(box_dir.as_str(), socket.as_str()),
                );
                let ghost a = cleanup::steps(left@);
                let ghost dir = box_dir@;
                left.push(CleanupStep::RemoveDir { path: box_dir });
                assert(cleanup::steps(left@) =~= a + seq![StepView::RemoveDir { path: dir }]);
                cleanup = left;
            }
            match service {
                Some(b) => {
                    all = rollback_with_current(&all, b);
                },
                None => {},
            }
        },
        None => {},
    }
    UpRollback { cleanup, stop: latest_first(all), networks, error }
}

/// The message of a failure in the state.
fn failure_message(plan: &UpPlan, s: &UpState, error: String) -> (r: String)
    requires
        wf(*plan, *s),
        s.stage != UpStage::Done,
    ensures
        failure(*plan, *s, UpEvent::Failed { error }) == Some(r@),
{
    match s.stage {
        UpStage::MakeNetwork => cat4(
            "Failed to create network '",
            plan.networks[s.index].as_str(),
            "': ",
            error.as_str(),
        ),
        UpStage::Connect => cat4(
            "Failed to connect service '",
            plan.services[s.index].name.as_str(),
            "' to network: ",
            error.as_str(),
        ),
        UpStage::Boot => cat4(
            "Failed to start service '",
            plan.services[s.index].name.as_str(),
            "': ",
            error.as_str(),
        ),
        _ => error,
    }
}

/// What is done after an event that is no failure, and for which network or
/// service.
fn follow(plan: &UpPlan, s: &UpState, missing: bool) -> (r: (UpStage, usize))
    requires
        wf(*plan, *s),
        s.stage != UpStage::Done,
    ensures
        forall|e: UpEvent|
            (e is NetworkMissing) == missing ==> #[trigger] next_stage(*plan, *s, e) == (
                r.0,
                r.1 as int,
            ),
{
    let i: usize = s.index;
    let networks: usize = plan.networks.len();
    let services: usize = plan.services.len();
    assert(network_stage(s.stage) ==> i < networks);
    assert(!network_stage(s.stage) ==> i < services);
    match s.stage {
        UpStage::LookupNetwork => if missing {
            (UpStage::MakeNetwork, i)
        } else if i + 1 < networks {
            (UpStage::LookupNetwork, i + 1)
        } else {
            (first_stage(plan, 0), 0)
        },
        UpStage::MakeNetwork => (UpStage::CreateNetwork, i),
        UpStage::CreateNetwork => if i + 1 < networks {
            (UpStage::LookupNetwork, i + 1)
        } else {
            (first_stage(plan, 0), 0)
        },
        UpStage::WaitHealthy => (UpStage::Configure, i),
        UpStage::Configure => (UpStage::ResolveVolumes, i),
        UpStage::ResolveVolumes => (UpStage::MakeSocketDir, i),
        UpStage::MakeSocketDir => (UpStage::MakeLogDir, i),
        UpStage::MakeLogDir => {
            let attached: bool = match &s.current {
                Some(p) => p.network.is_some(),
                None => false,
            };
            if attached {
                (UpStage::LookupServiceNetwork, i)
            } else {
                (UpStage::Boot, i)
            }
        },
        UpStage::LookupServiceNetwork => (UpStage::Connect, i),
        UpStage::Connect => (UpStage::SaveNetwork, i),
        UpStage::SaveNetwork => (UpStage::Boot, i),
        UpStage::Boot => (UpStage::Reload, i),
        UpStage::Reload => (UpStage::AddRecord, i),
        UpStage::AddRecord => (UpStage::AttachVolumes, i),
        UpStage::AttachVolumes => (first_stage(plan, i + 1), i + 1),
        UpStage::Done => (UpStage::Done, i),
    }
}

/// Takes what came of the action of a state: the next state, or what has to be
/// undone.
pub fn advance(plan: &UpPlan, s: UpState, e: UpEvent) -> (r: Result<UpState, UpRollback>)
    requires
        wf(*plan, s),
        fits(*plan, s, e),
    ensures
        match r {
            Ok(t) => {
                &&& failure(*plan, s, e) is None
                &&& wf(*plan, t)
                &&& (t.stage, t.index as int) == next_stage(*plan, s, e)
                &&& text::strs(t.created@) == next_created(*plan, s)
                &&& t.started@ == next_started(s)
                &&& next_current(s, e, t.current)
            },
            Err(undo) => undoes(*plan, s, e, undo),
        },
{
    broadcast use crate::text::lemma_strs_push;

    let missing: bool = match &e {
        UpEvent::NetworkMissing => true,
        _ => false,
    };
    let next: (UpStage, usize) = follow(plan, &s, missing);
    proof {
        assert(next_stage(*plan, s, e) == (next.0, next.1 as int));
        lemma_networks_grow(*plan, s);
    }
    match e {
        UpEvent::Failed { error } => {
            let message: String = failure_message(plan, &s, error);
            return Err(roll_back(s, message));
        },
        UpEvent::Network { config, policy } => match validate_attachable_network(&config, &policy) {
            Err(error) => {
                return Err(roll_back(s, error));
            },
            Ok(_) => {
                return Ok(
                    UpState {
                        stage: next.0,
                        index: next.1,
                        created: s.created,
                        started: s.started,
                        current: s.current,
                    },
                );
            },
        },
        UpEvent::NetworkMissing => {
            if s.stage == UpStage::LookupServiceNetwork {
                let name: String = match &s.current {
                    Some(p) => match &p.network {
                        Some(n) => n.clone(),
                        None => String::new(),
                    },
                    None => String::new(),
                };
                let error: String = cat3("Compose network '", name.as_str(), "' was not created");
                return Err(roll_back(s, error));
            }
            Ok(
                UpState {
                    stage: next.0,
                    index: next.1,
                    created: s.created,
                    started: s.started,
                    current: s.current,
                },
            )
        },
        UpEvent::Configured { box_id, box_dir, network } => Ok(
            UpState {
                stage: next.0,
                index: next.1,
                created: s.created,
                started: s.started,
                current: Some(
                    Pending { box_id, box_dir, network, volume_names: Vec::new(), mounts: Vec::new(), service: None },
                ),
            },
        ),
        UpEvent::Volumes { names, mounts } => {
            let current: Option<Pending> = match s.current {
                Some(p) => Some(
                    Pending {
                        box_id: p.box_id,
                        box_dir: p.box_dir,
                        network: p.network,
                        volume_names: names,
                        mounts,
                        service: p.service,
                    },
                ),
                None => None,
            };
            Ok(
                UpState {
                    stage: next.0,
                    index: next.1,
                    created: s.created,
                    started: s.started,
                    current,
                },
            )
        },
        UpEvent::Booted { service } => {
            let current: Option<Pending> = match s.current {
                Some(p) => Some(
                    Pending {
                        box_id: p.box_id,
                        box_dir: p.box_dir,
                        network: p.network,
                        volume_names: p.volume_names,
                        mounts: p.mounts,
                        service: Some(service),
                    },
                ),
                None => None,
            };
            Ok(
                UpState {
                    stage: next.0,
                    index: next.1,
                    created: s.created,
                    started: s.started,
                    current,
                },
            )
        },
        UpEvent::Completed => {
            let UpState { stage, index, created, started, current } = s;
            let mut created: Vec<String> = created;
            let mut started: Vec<ServiceBox> = started;
            let mut current: Option<Pending> = current;
            if stage == UpStage::CreateNetwork {
                created.push(plan.networks[index].clone());
            }
            if stage == UpStage::AttachVolumes {
                match current {
                    Some(p) => match p.service {
                        Some(b) => {
                            started.push(b);
                        },
                        None => {},
                    },
                    None => {},
                }
                current = None;
            }
            Ok(UpState { stage: next.0, index: next.1, created, started, current })
        },
    }
}

/// Whether or not the network at the current place was created, what was
/// created are some of the networks up to that place.
proof fn lemma_networks_grow(plan: UpPlan, s: UpState)
    requires
        wf(plan, s),
    ensures
        network_stage(s.stage) ==> {
            let names = text::strs(plan.networks@);
            let made = text::strs(s.created@);
            &&& created_from(names.take(s.index + 1), made)
            &&& created_from(names.take(s.index + 1), made.push(plan.networks@[s.index as int]@))
        },
{
    if network_stage(s.stage) {
        let names = text::strs(plan.networks@);
        let made = text::strs(s.created@);
        let up_to = names.take(s.index + 1);
        assert(up_to.drop_last() =~= names.take(s.index as int));
        assert(up_to.last() == plan.networks@[s.index as int]@);
        let more = made.push(plan.networks@[s.index as int]@);
        assert(more.drop_last() =~= made);
    }
}

// ---------------------------------------------------------------------------
// What holds of `compose up` as a whole
// ---------------------------------------------------------------------------

/// The rank of a stage: each step of a service or network takes it down.
pub open spec fn rank(s: UpStage) -> nat {
    match s {
        UpStage::LookupNetwork => 15,
        UpStage::MakeNetwork => 14,
        UpStage::CreateNetwork => 13,
        UpStage::WaitHealthy => 12,
        UpStage::Configure => 11,
        UpStage::ResolveVolumes => 10,
        UpStage::MakeSocketDir => 9,
        UpStage::MakeLogDir => 8,
        UpStage::LookupServiceNetwork => 7,
        UpStage::Connect => 6,
        UpStage::SaveNetwork => 5,
        UpStage::Boot => 4,
        UpStage::Reload => 3,
        UpStage::AddRecord => 2,
        UpStage::AttachVolumes => 1,
        UpStage::Done => 0,
    }
}

/// How many networks and services are not dealt with yet.
pub open spec fn ahead(plan: UpPlan, s: UpState) -> int {
    if network_stage(s.stage) {
        plan.networks@.len() - s.index + plan.services@.len()
    } else {
        plan.services@.len() - s.started@.len()
    }
}

/// `compose up` ends: every step that does not fail leaves less to do.
pub proof fn lemma_up_terminates(plan: UpPlan, s: UpState, e: UpEvent, t: UpState)
    requires
        wf(plan, s),
        fits(plan, s, e),
        failure(plan, s, e) is None,
        wf(plan, t),
        (t.stage, t.index as int) == next_stage(plan, s, e),
        t.started@ == next_started(s),
    ensures
        ahead(plan, t) >= 0,
        ahead(plan, t) < ahead(plan, s) || (ahead(plan, t) == ahead(plan, s) && rank(t.stage)
            < rank(s.stage)),
{
}

/// Once `compose up` is done, every service runs, in the order of the plan.
pub proof fn lemma_up_complete(plan: UpPlan, s: UpState)
    requires
        wf(plan, s),
        s.stage == UpStage::Done,
    ensures
        s.started@.len() == plan.services@.len(),
        forall|i: int|
            0 <= i < plan.services@.len() ==> (#[trigger] s.started@[i]).svc_name@
                == plan.services@[i].name@,
{
}

/// A failure stops what runs and nothing else, the latest first: the services
/// before the current one, and the current one where it runs already.
pub proof fn lemma_rollback_covers(plan: UpPlan, s: UpState, e: UpEvent, undo: UpRollback)
    requires
        wf(plan, s),
        fits(plan, s, e),
        undoes(plan, s, e, undo),
    ensures
        ({
            let n = if has_booted(s.stage) {
                s.started@.len() + 1
            } else {
                s.started@.len()
            };
            &&& undo.stop@.len() == n
            &&& forall|i: int|
                0 <= i < n ==> (#[trigger] undo.stop@[i]).svc_name@ == plan.services@[n - 1
                    - i].name@
        }),
{
    let views = compose::boxes(undo.stop@);
    assert(views == to_stop(s));
    let n = undo.stop@.len();
    assert(views.len() == n);
    assert forall|i: int| 0 <= i < n implies (#[trigger] undo.stop@[i]).svc_name@
        == plan.services@[n - 1 - i].name@ by {
        assert(views[i] == undo.stop@[i]@);
        let all = if has_booted(s.stage) {
            compose::boxes(s.started@).push(s.current->0.service->0@)
        } else {
            compose::boxes(s.started@)
        };
        assert(views[i] == all[n - 1 - i]);
        if n - 1 - i < s.started@.len() {
            assert(all[n - 1 - i] == s.started@[n - 1 - i]@);
        }
    }
}

/// A failure removes no network that `compose up` did not create for the plan:
/// what is removed are networks of the plan.
pub proof fn lemma_created_in_plan(names: Seq<Seq<char>>, created: Seq<Seq<char>>, i: int)
    requires
        created_from(names, created),
        0 <= i < created.len(),
    ensures
        names.contains(created[i]),
    decreases names.len(),
{
    if names.len() > 0 {
        let front = names.drop_last();
        if created_from(front, created) {
            lemma_created_in_plan(front, created, i);
            let k = choose|k: int| 0 <= k < front.len() && front[k] == created[i];
            assert(names[k] == created[i]);
        } else if i == created.len() - 1 {
            assert(names[names.len() - 1] == created[i]);
        } else {
            lemma_created_in_plan(front, created.drop_last(), i);
            let k = choose|k: int| 0 <= k < front.len() && front[k] == created[i];
            assert(names[k] == created[i]);
        }
    }
}

// ---------------------------------------------------------------------------
// What is done for a project, in what order
// ---------------------------------------------------------------------------

/// What is to be done at a stage is done for what stands at its place: a network is
/// looked up, made and created under its own name, a service waits for the services
/// it needs, and a box is booted, recorded and given its volumes as itself.
pub proof fn lemma_action_of_stage(plan: UpPlan, s: UpState, a: UpAction)
    requires
        wf(plan, s),
        call_ensures(next_action, (&plan, &s), a),
    ensures
        s.stage is LookupNetwork ==> (a matches UpAction::LookupNetwork { name } && name@
            == plan.networks@[s.index as int]@),
        s.stage is MakeNetwork ==> (a matches UpAction::MakeNetwork { name, subnet } && name@
            == plan.networks@[s.index as int]@),
        s.stage is CreateNetwork ==> (a matches UpAction::CreateNetwork { name } && name@
            == plan.networks@[s.index as int]@),
        s.stage is WaitHealthy ==> (a matches UpAction::WaitHealthy { services } && services@
            == plan.services@[s.index as int].health_deps@),
        s.stage is Configure ==> (a matches UpAction::Configure { service } && service@
            == plan.services@[s.index as int].name@),
        s.stage is ResolveVolumes ==> (a matches UpAction::ResolveVolumes { service } && service@
            == plan.services@[s.index as int].name@),
        s.stage is MakeSocketDir ==> (a matches UpAction::MakeDir { path } && text::has_suffix(
            path@,
            "sockets"@,
        )),
        s.stage is MakeLogDir ==> (a matches UpAction::MakeDir { path } && text::has_suffix(
            path@,
            "logs"@,
        )),
        s.stage is Connect ==> (a matches UpAction::Connect { network, box_id, box_name } && network@
            == s.current->0.network->0@ && box_id@ == s.current->0.box_id@ && box_name@
            == plan.project@ + "-"@ + plan.services@[s.index as int].name@),
        s.stage is Boot ==> (a matches UpAction::Boot { box_id, mounts } && box_id@
            == s.current->0.box_id@ && mounts@ == s.current->0.mounts@),
        s.stage is AddRecord ==> (a matches UpAction::AddRecord { box_id } && box_id@
            == s.current->0.box_id@),
        s.stage is AttachVolumes ==> (a matches UpAction::AttachVolumes { volumes, box_id } && volumes@
            == s.current->0.volume_names@ && box_id@ == s.current->0.box_id@),
        a is Finish <==> s.stage is Done,
{
    reveal_strlit("sockets");
    reveal_strlit("logs");
    assert("sockets"@[0] == 's' && "logs"@[0] == 'l');
    if let UpAction::MakeDir { path } = a {
        let p = path@;
        if s.stage is MakeSocketDir {
            assert(p.skip(p.len() - 7) =~= "sockets"@);
        }
        if s.stage is MakeLogDir {
            assert(p.skip(p.len() - 4) =~= "logs"@);
        }
    }
}

/// Without a failure the work goes on: all networks before the first service, the
/// services in their order, and each one boots only after it has been configured,
/// given its volumes and directories, and connected to its network, where it has one.
/// It counts as started when its record and its volumes are in place.
pub proof fn lemma_up_order(plan: UpPlan, s: UpState, e: UpEvent, t: UpState)
    requires
        wf(plan, s),
        fits(plan, s, e),
        call_ensures(advance, (&plan, s, e), Ok::<UpState, UpRollback>(t)),
    ensures
        network_stage(s.stage) && !network_stage(t.stage) ==> s.index + 1 == plan.networks@.len()
            && t.index == 0,
        s.stage is LookupNetwork && e is NetworkMissing ==> t.stage is MakeNetwork && t.index == s.index,
        s.stage is MakeNetwork ==> t.stage is CreateNetwork && t.index == s.index,
        s.stage is CreateNetwork ==> t.created@.len() == s.created@.len() + 1 && t.created@.last()@
            == plan.networks@[s.index as int]@,
        !(s.stage is CreateNetwork) ==> t.created@.len() == s.created@.len(),
        s.stage is WaitHealthy ==> t.stage is Configure && t.index == s.index,
        s.stage is Configure ==> t.stage is ResolveVolumes && t.index == s.index,
        s.stage is MakeLogDir && s.current->0.network is Some ==> t.stage is LookupServiceNetwork,
        s.stage is MakeLogDir && s.current->0.network is None ==> t.stage is Boot,
        s.stage is LookupServiceNetwork ==> t.stage is Connect,
        s.stage is Connect ==> t.stage is SaveNetwork,
        s.stage is SaveNetwork ==> t.stage is Boot,
        t.stage is Boot ==> s.stage is MakeLogDir || s.stage is SaveNetwork,
        s.stage is Boot ==> t.stage is Reload && t.current->0.service is Some,
        t.stage is AddRecord ==> s.stage is Reload,
        s.stage is AddRecord ==> t.stage is AttachVolumes,
        s.stage is AttachVolumes ==> t.index == s.index + 1 && t.started@.len() == s.started@.len() + 1
            && t.started@.last() == s.current->0.service->0,
        !(s.stage is AttachVolumes) ==> t.started@ == s.started@,
        t.stage is Done ==> s.stage is AttachVolumes || network_stage(s.stage),
{
    assert(text::strs(t.created@).len() == t.created@.len());
    assert(text::strs(s.created@).len() == s.created@.len());
    if s.stage is CreateNetwork {
        assert(text::strs(t.created@)[t.created@.len() - 1] == t.created@.last()@);
    }
}

/// A failure undoes what was done: the networks that were created are removed, the
/// latest first, and so are the services that were started; a box that failed to
/// boot leaves neither its volumes nor its directory. The error it is told goes with
/// it to the end.
pub proof fn lemma_up_undone(plan: UpPlan, s: UpState, error: String, undo: UpRollback, i: int)
    requires
        wf(plan, s),
        fits(plan, s, UpEvent::Failed { error }),
        call_ensures(advance, (&plan, s, UpEvent::Failed { error }), Err::<UpState, UpRollback>(undo)),
    ensures
        text::has_suffix(undo.error@, error@),
        undo.networks@.len() == s.created@.len(),
        0 <= i < s.created@.len() ==> undo.networks@[i]@ == s.created@[s.created@.len() - 1 - i]@,
        undo.stop@.len() >= s.started@.len(),
        0 <= i < s.started@.len() ==> undo.stop@[undo.stop@.len() - 1 - i]@ == s.started@[i]@,
        s.stage is Boot ==> cleanup::steps(undo.cleanup@).contains(
            StepView::RemoveDir { path: s.current->0.box_dir@ },
        ) && cleanup::steps(undo.cleanup@)[0] == (StepView::DetachVolumes {
            volumes: text::strs(s.current->0.volume_names@),
            box_id: s.current->0.box_id@,
        }),
        !(s.stage is Boot) ==> undo.cleanup@.len() == 0,
{
    let said = undo.error@;
    assert(said.skip(said.len() - error@.len()) =~= error@);
    assert(text::strs(undo.networks@).len() == undo.networks@.len());
    assert(text::strs(s.created@).len() == s.created@.len());
    if 0 <= i < s.created@.len() {
        assert(text::strs(undo.networks@)[i] == undo.networks@[i]@);
        assert(text::strs(s.created@)[s.created@.len() - 1 - i] == s.created@[s.created@.len() - 1 - i]@);
    }
    let views = compose::boxes(undo.stop@);
    assert(views.len() == undo.stop@.len());
    assert(compose::boxes(s.started@).len() == s.started@.len());
    if 0 <= i < s.started@.len() {
        assert(views[undo.stop@.len() - 1 - i] == undo.stop@[undo.stop@.len() - 1 - i]@);
        assert(compose::boxes(s.started@)[i] == s.started@[i]@);
    }
    let steps = cleanup::steps(undo.cleanup@);
    assert(steps.len() == undo.cleanup@.len());
    if s.stage is Boot {
        let p = s.current->0;
        assert(steps[steps.len() - 1] == StepView::RemoveDir { path: p.box_dir@ });
    }
}

/// A failure always undoes, whatever the stage, and no success does but that of a
/// network that a service cannot be attached to or that is not there.
pub proof fn lemma_up_fails_only_then(plan: UpPlan, s: UpState, e: UpEvent, r: Result<UpState, UpRollback>)
    requires
        wf(plan, s),
        fits(plan, s, e),
        call_ensures(advance, (&plan, s, e), r),
    ensures
        e is Failed ==> r is Err,
        e is Completed || e is Configured || e is Volumes || e is Booted ==> r is Ok,
        e is NetworkMissing && s.stage is LookupServiceNetwork ==> r is Err,
        e is NetworkMissing && s.stage is LookupNetwork ==> r is Ok,
        e matches UpEvent::Network { config, policy } ==> (r is Ok <==> config.driver@ == "bridge"@
            && policy is Ok),
{
}

/// No two networks of a project are given the same addresses.
pub proof fn lemma_subnets_differ(i: int, j: int)
    requires
        0 <= i,
        0 <= j,
        i != j,
    ensures
        subnet_of(i) != subnet_of(j),
{
    let a = number::decimal((100 + i) as nat);
    let b = number::decimal((100 + j) as nat);
    reveal_strlit("10.89.");
    reveal_strlit(".0/24");
    number::lemma_decimal_value((100 + i) as nat);
    number::lemma_decimal_value((100 + j) as nat);
    if subnet_of(i) == subnet_of(j) {
        let s = subnet_of(i);
        assert(s.subrange(6, s.len() - 5) =~= a);
        assert(subnet_of(j).subrange(6, s.len() - 5) =~= b);
    }
}

/// The work begins with the first network, or with the first service where there is no
/// network, and is done at once where there is neither; nothing is made or started yet.
pub proof fn lemma_up_begins(plan: UpPlan, r: UpState)
    requires
        call_ensures(start, (&plan,), r),
    ensures
        r.created@.len() == 0 && r.started@.len() == 0 && r.current is None && r.index == 0,
        plan.networks@.len() > 0 ==> r.stage is LookupNetwork,
        plan.networks@.len() == 0 && plan.services@.len() == 0 ==> r.stage is Done,
        plan.networks@.len() == 0 && plan.services@.len() > 0 ==> (r.stage is WaitHealthy
            <==> plan.services@[0].health_deps@.len() > 0),
        plan.networks@.len() == 0 && plan.services@.len() > 0 && plan.services@[0].health_deps@.len() == 0
            ==> r.stage is Configure,
{
}

/// What a box is to be booted with is kept until it is booted: the volumes that were
/// resolved, and the service that came of the boot.
pub proof fn lemma_pending_kept(plan: UpPlan, s: UpState, e: UpEvent, t: UpState)
    requires
        wf(plan, s),
        fits(plan, s, e),
        call_ensures(advance, (&plan, s, e), Ok::<UpState, UpRollback>(t)),
    ensures
        s.stage is ResolveVolumes ==> t.stage is MakeSocketDir && t.index == s.index,
        s.stage is MakeSocketDir ==> t.stage is MakeLogDir && t.index == s.index,
        s.stage is Reload ==> t.stage is AddRecord && t.index == s.index,
        e matches UpEvent::Configured { box_id, box_dir, network } ==> t.current is Some
            && t.current->0.box_id == box_id && t.current->0.box_dir == box_dir && t.current->0.network
            == network,
        e matches UpEvent::Volumes { names, mounts } ==> t.current is Some && t.current->0.volume_names
            == names && t.current->0.mounts == mounts && t.current->0.box_id == s.current->0.box_id,
        e matches UpEvent::Booted { service } ==> t.current is Some && t.current->0.service == Some(service)
            && t.current->0.box_id == s.current->0.box_id,
{
}

} // verus!
