//! The system.

use vstd::prelude::*;

use crate::bytes;
use crate::bytes::clip;
use crate::commands::info;
use crate::commands::snapshot;
use crate::commands::snapshot::timestamp_nanos;
use crate::json;
use crate::json::{
    empty_list, new_members, null_value, number_value, object_value, put, put_bool, put_count, put_object, put_text,
    single, text_value, JsonView,
};
use crate::state;
use crate::state::{StateFile, Timestamp};
use crate::time;
use crate::time::to_rfc3339;

verus! {

/// Which events are asked for.
#[derive(Debug)]
pub struct EventsQuery {
    pub since: Option<String>,
    pub until: Option<String>,
    pub filters: Option<String>,
}

/// The answer to a ping.
pub fn ping() -> (r: &'static str)
    ensures
        r@ == "OK"@,
{
    "OK"
}

/// What this build is.
#[derive(Debug)]
pub struct BuildFacts {
    pub version: String,
    pub git_sha: String,
    pub os: String,
    pub arch: String,
    pub build_time: String,
}

/// The first seven bytes of the identifier of a commit, if it has as many and a
/// character ends there.
pub open spec fn short_commit(sha: Seq<char>) -> Seq<char> {
    if vstd::utf8::is_char_boundary(vstd::utf8::encode_utf8(sha), 7) {
        bytes::clipped(sha, 7)
    } else {
        "unknown"@
    }
}

/// The first seven bytes of the identifier of a commit.
pub fn git_commit<'a>(sha: &'a str) -> (r: &'a str)
    ensures
        r@ == short_commit(sha@),
{
    if sha.is_char_boundary(7) {
        clip(sha, 7)
    } else {
        "unknown"
    }
}

/// What is told of the version.
pub open spec fn version_doc(f: BuildFacts) -> JsonView {
    JsonView::Object(
        json::nothing().insert("Version"@, JsonView::Text(f.version@)).insert("ApiVersion"@, JsonView::Text("1.43"@)).insert(
            "MinAPIVersion"@,
            JsonView::Text("1.12"@),
        ).insert("GitCommit"@, JsonView::Text(short_commit(f.git_sha@))).insert("GoVersion"@, JsonView::Text("N/A"@)).insert(
            "Os"@,
            JsonView::Text(f.os@),
        ).insert("Arch"@, JsonView::Text(f.arch@)).insert("KernelVersion"@, JsonView::Text("N/A"@)).insert(
            "BuildTime"@,
            JsonView::Text(f.build_time@),
        ).insert("Experimental"@, JsonView::Bool(false)),
    )
}

/// What is told of the version.
pub fn version(f: &BuildFacts) -> (r: serde_json::Value)
    ensures
        json::contents(r) == version_doc(*f),
{
    let m = put_text(new_members(), "Version", &f.version);
    let m = put_text(m, "ApiVersion", "1.43");
    let m = put_text(m, "MinAPIVersion", "1.12");
    let m = put_text(m, "GitCommit", git_commit(&f.git_sha));
    let m = put_text(m, "GoVersion", "N/A");
    let m = put_text(m, "Os", &f.os);
    let m = put_text(m, "Arch", &f.arch);
    let m = put_text(m, "KernelVersion", "N/A");
    let m = put_text(m, "BuildTime", &f.build_time);
    object_value(put_bool(m, "Experimental", false))
}

/// What the system says of itself.
#[derive(Debug)]
pub struct SystemFacts {
    pub id: String,
    pub images: usize,
    pub now: Timestamp,
    pub os: String,
    pub arch: String,
    pub cpus: usize,
    pub memory: u64,
    pub home: String,
    pub hostname: String,
    pub version: String,
}

/// Two texts as a list.
pub open spec fn pair(a: Seq<char>, b: Seq<char>) -> JsonView {
    JsonView::List(seq![JsonView::Text(a), JsonView::Text(b)])
}

/// The plugins.
pub open spec fn plugins_doc() -> Map<Seq<char>, JsonView> {
    json::nothing().insert("Volume"@, JsonView::List(seq![JsonView::Text("local"@)])).insert(
        "Network"@,
        pair("bridge"@, "tsi"@),
    ).insert("Authorization"@, JsonView::Null).insert("Log"@, JsonView::List(seq![JsonView::Text("json-file"@)]))
}

/// The runtimes.
pub open spec fn runtimes_doc() -> Map<Seq<char>, JsonView> {
    json::nothing().insert(
        "a3s-box"@,
        JsonView::Object(json::nothing().insert("path"@, JsonView::Text("a3s-box"@))),
    )
}

/// The swarm: none.
pub open spec fn swarm_doc() -> Map<Seq<char>, JsonView> {
    json::nothing().insert("NodeID"@, JsonView::Text(""@)).insert("NodeAddr"@, JsonView::Text(""@)).insert(
        "LocalNodeState"@,
        JsonView::Text("inactive"@),
    ).insert("ControlAvailable"@, JsonView::Bool(false)).insert("Error"@, JsonView::Text(""@)).insert(
        "RemoteManagers"@,
        JsonView::Null,
    )
}

/// A commit of a component: none.
pub open spec fn commit_doc() -> Map<Seq<char>, JsonView> {
    json::nothing().insert("ID"@, JsonView::Text(""@)).insert("Expected"@, JsonView::Text(""@))
}

/// The plugins.
fn plugins_members() -> (r: serde_json::Map<String, serde_json::Value>)
    ensures
        json::members(r) == plugins_doc(),
{
    let mut networks: Vec<serde_json::Value> = Vec::new();
    networks.push(text_value("bridge"));
    networks.push(text_value("tsi"));
    assert(json::all_contents(networks@) =~= seq![JsonView::Text("bridge"@), JsonView::Text("tsi"@)]);
    let m = put(new_members(), "Volume", single(text_value("local")));
    let m = put(m, "Network", json::list_value(networks));
    let m = put(m, "Authorization", null_value());
    put(m, "Log", single(text_value("json-file")))
}

/// The runtimes.
fn runtimes_members() -> (r: serde_json::Map<String, serde_json::Value>)
    ensures
        json::members(r) == runtimes_doc(),
{
    put_object(new_members(), "a3s-box", put_text(new_members(), "path", "a3s-box"))
}

/// The swarm.
fn swarm_members() -> (r: serde_json::Map<String, serde_json::Value>)
    ensures
        json::members(r) == swarm_doc(),
{
    let m = put_text(new_members(), "NodeID", "");
    let m = put_text(m, "NodeAddr", "");
    let m = put_text(m, "LocalNodeState", "inactive");
    let m = put_bool(m, "ControlAvailable", false);
    let m = put_text(m, "Error", "");
    put(m, "RemoteManagers", null_value())
}

/// A commit of a component.
fn commit_members() -> (r: serde_json::Map<String, serde_json::Value>)
    ensures
        json::members(r) == commit_doc(),
{
    let m = put_text(new_members(), "ID", "");
    put_text(m, "Expected", "")
}

/// What is told of the system, by how many containers there are, how many of
/// them run and how many do not.
pub open spec fn info_doc(all: nat, running: nat, stopped: nat, f: SystemFacts) -> Map<Seq<char>, JsonView> {
    json::nothing().insert(
        "ID"@,
        JsonView::Text(f.id@),
    ).insert(
        "Containers"@,
        JsonView::Number(all as int),
    ).insert(
        "ContainersRunning"@,
        JsonView::Number(running as int),
    ).insert(
        "ContainersPaused"@,
        JsonView::Number(0),
    ).insert(
        "ContainersStopped"@,
        JsonView::Number(stopped as int),
    ).insert(
        "Images"@,
        JsonView::Number(f.images as int),
    ).insert(
        "Driver"@,
        JsonView::Text("a3s-box"@),
    ).insert(
        "DriverStatus"@,
        JsonView::List(Seq::empty()),
    ).insert(
        "SystemStatus"@,
        JsonView::Null,
    ).insert(
        "Plugins"@,
        JsonView::Object(plugins_doc()),
    ).insert(
        "MemoryLimit"@,
        JsonView::Bool(true),
    ).insert(
        "SwapLimit"@,
        JsonView::Bool(false),
    ).insert(
        "KernelMemory"@,
        JsonView::Bool(false),
    ).insert(
        "CpuCfsPeriod"@,
        JsonView::Bool(true),
    ).insert(
        "CpuCfsQuota"@,
        JsonView::Bool(true),
    ).insert(
        "CPUShares"@,
        JsonView::Bool(true),
    ).insert(
        "CPUSet"@,
        JsonView::Bool(true),
    ).insert(
        "PidsLimit"@,
        JsonView::Bool(true),
    ).insert(
        "IPv4Forwarding"@,
        JsonView::Bool(true),
    ).insert(
        "BridgeNfIptables"@,
        JsonView::Bool(true),
    ).insert(
        "BridgeNfIp6tables"@,
        JsonView::Bool(true),
    ).insert(
        "Debug"@,
        JsonView::Bool(false),
    ).insert(
        "NFd"@,
        JsonView::Number(0),
    ).insert(
        "OomKillDisable"@,
        JsonView::Bool(true),
    ).insert(
        "NGoroutines"@,
        JsonView::Number(0),
    ).insert(
        "SystemTime"@,
        JsonView::Text(time::rfc3339_text(f.now.secs, f.now.nanos)),
    ).insert(
        "LoggingDriver"@,
        JsonView::Text("json-file"@),
    ).insert(
        "CgroupDriver"@,
        JsonView::Text("cgroupfs"@),
    ).insert(
        "NEventsListener"@,
        JsonView::Number(0),
    ).insert(
        "KernelVersion"@,
        JsonView::Text(f.os@),
    ).insert(
        "OperatingSystem"@,
        JsonView::Text("A3S Box"@),
    ).insert(
        "OSType"@,
        JsonView::Text(f.os@),
    ).insert(
        "Architecture"@,
        JsonView::Text(f.arch@),
    ).insert(
        "IndexServerAddress"@,
        JsonView::Text("https://index.docker.io/v1/"@),
    ).insert(
        "RegistryConfig"@,
        JsonView::Object(json::nothing()),
    ).insert(
        "NCPU"@,
        JsonView::Number(f.cpus as int),
    ).insert(
        "MemTotal"@,
        JsonView::Number(f.memory as int),
    ).insert(
        "GenericResources"@,
        JsonView::Null,
    ).insert(
        "DockerRootDir"@,
        JsonView::Text(f.home@),
    ).insert(
        "HttpProxy"@,
        JsonView::Text(""@),
    ).insert(
        "HttpsProxy"@,
        JsonView::Text(""@),
    ).insert(
        "NoProxy"@,
        JsonView::Text(""@),
    ).insert(
        "Name"@,
        JsonView::Text(f.hostname@),
    ).insert(
        "Labels"@,
        JsonView::List(Seq::empty()),
    ).insert(
        "ExperimentalBuild"@,
        JsonView::Bool(false),
    ).insert(
        "ServerVersion"@,
        JsonView::Text(f.version@),
    ).insert(
        "Runtimes"@,
        JsonView::Object(runtimes_doc()),
    ).insert(
        "DefaultRuntime"@,
        JsonView::Text("a3s-box"@),
    ).insert(
        "Swarm"@,
        JsonView::Object(swarm_doc()),
    ).insert(
        "LiveRestoreEnabled"@,
        JsonView::Bool(false),
    ).insert(
        "Isolation"@,
        JsonView::Text(""@),
    ).insert(
        "InitBinary"@,
        JsonView::Text(""@),
    ).insert(
        "ContainerdCommit"@,
        JsonView::Object(commit_doc()),
    ).insert(
        "RuncCommit"@,
        JsonView::Object(commit_doc()),
    ).insert(
        "InitCommit"@,
        JsonView::Object(commit_doc()),
    ).insert(
        "SecurityOptions"@,
        JsonView::List(Seq::empty()),
    ).insert(
        "Warnings"@,
        JsonView::Null,
    )
}

/// How many containers there are, how many of them run and how many do not.
pub fn container_counts(state: &StateFile) -> (r: (usize, usize, usize))
    ensures
        r.0 == state@.len(),
        r.1 == info::with_status(state@, "running"@),
        r.1 + r.2 == r.0,
{
    let counts = info::box_counts(state);
    proof {
        info::lemma_counts_bounded(state@, "running"@);
    }
    (counts.total, counts.running, counts.total - counts.running)
}

/// What is told of the system.
#[verifier::rlimit(30)]
pub fn info_members(all: usize, running: usize, stopped: usize, f: &SystemFacts) -> (r: serde_json::Map<
    String,
    serde_json::Value,
>)
    requires
        time::representable(f.now),
    ensures
        json::members(r) == info_doc(all as nat, running as nat, stopped as nat, *f),
{
    let now = to_rfc3339(f.now);
    let m = new_members();
    let m = put_text(m, "ID", &f.id);
    let m = put_count(m, "Containers", all as u64);
    let m = put_count(m, "ContainersRunning", running as u64);
    let m = put_count(m, "ContainersPaused", 0);
    let m = put_count(m, "ContainersStopped", stopped as u64);
    let m = put_count(m, "Images", f.images as u64);
    let m = put_text(m, "Driver", "a3s-box");
    let m = put(m, "DriverStatus", empty_list());
    let m = put(m, "SystemStatus", null_value());
    let m = put_object(m, "Plugins", plugins_members());
    let m = put_bool(m, "MemoryLimit", true);
    let m = put_bool(m, "SwapLimit", false);
    let m = put_bool(m, "KernelMemory", false);
    let m = put_bool(m, "CpuCfsPeriod", true);
    let m = put_bool(m, "CpuCfsQuota", true);
    let m = put_bool(m, "CPUShares", true);
    let m = put_bool(m, "CPUSet", true);
    let m = put_bool(m, "PidsLimit", true);
    let m = put_bool(m, "IPv4Forwarding", true);
    let m = put_bool(m, "BridgeNfIptables", true);
    let m = put_bool(m, "BridgeNfIp6tables", true);
    let m = put_bool(m, "Debug", false);
    let m = put_count(m, "NFd", 0);
    let m = put_bool(m, "OomKillDisable", true);
    let m = put_count(m, "NGoroutines", 0);
    let m = put_text(m, "SystemTime", &now);
    let m = put_text(m, "LoggingDriver", "json-file");
    let m = put_text(m, "CgroupDriver", "cgroupfs");
    let m = put_count(m, "NEventsListener", 0);
    let m = put_text(m, "KernelVersion", &f.os);
    let m = put_text(m, "OperatingSystem", "A3S Box");
    let m = put_text(m, "OSType", &f.os);
    let m = put_text(m, "Architecture", &f.arch);
    let m = put_text(m, "IndexServerAddress", "https://index.docker.io/v1/");
    let m = put_object(m, "RegistryConfig", new_members());
    let m = put_count(m, "NCPU", f.cpus as u64);
    let m = put_count(m, "MemTotal", f.memory as u64);
    let m = put(m, "GenericResources", null_value());
    let m = put_text(m, "DockerRootDir", &f.home);
    let m = put_text(m, "HttpProxy", "");
    let m = put_text(m, "HttpsProxy", "");
    let m = put_text(m, "NoProxy", "");
    let m = put_text(m, "Name", &f.hostname);
    let m = put(m, "Labels", empty_list());
    let m = put_bool(m, "ExperimentalBuild", false);
    let m = put_text(m, "ServerVersion", &f.version);
    let m = put_object(m, "Runtimes", runtimes_members());
    let m = put_text(m, "DefaultRuntime", "a3s-box");
    let m = put_object(m, "Swarm", swarm_members());
    let m = put_bool(m, "LiveRestoreEnabled", false);
    let m = put_text(m, "Isolation", "");
    let m = put_text(m, "InitBinary", "");
    let m = put_object(m, "ContainerdCommit", commit_members());
    let m = put_object(m, "RuncCommit", commit_members());
    let m = put_object(m, "InitCommit", commit_members());
    let m = put(m, "SecurityOptions", empty_list());
    let m = put(m, "Warnings", null_value());
    m
}

/// What is told of the system and its containers.
pub fn info(state: &StateFile, f: &SystemFacts) -> (r: serde_json::Value)
    requires
        time::representable(f.now),
    ensures
        ({
            let running = info::with_status(state@, "running"@);
            json::contents(r) == JsonView::Object(
                info_doc(state@.len(), running, (state@.len() - running) as nat, *f),
            )
        }),
{
    let (all, running, stopped) = container_counts(state);
    object_value(info_members(all, running, stopped, f))
}

/// What is told of events: one, at a point in time.
pub open spec fn events_doc(now: Timestamp) -> JsonView {
    JsonView::Object(
        json::nothing().insert("Type"@, JsonView::Text("container"@)).insert("Action"@, JsonView::Text("start"@)).insert(
            "Actor"@,
            JsonView::Object(
                json::nothing().insert("ID"@, JsonView::Text(""@)).insert(
                    "Attributes"@,
                    JsonView::Object(json::nothing()),
                ),
            ),
        ).insert("time"@, JsonView::Number(now.secs as int)).insert(
            "timeNano"@,
            JsonView::Number(match snapshot::nanos_of(now) {
                Some(n) => n,
                None => 0,
            }),
        ),
    )
}

/// What is told of events.
pub fn events(now: Timestamp) -> (r: serde_json::Value)
    ensures
        json::contents(r) == events_doc(now),
{
    let nanos: i64 = match timestamp_nanos(now) {
        Some(n) => n,
        None => 0,
    };
    let actor = put_text(new_members(), "ID", "");
    let actor = put_object(actor, "Attributes", new_members());
    let m = put_text(new_members(), "Type", "container");
    let m = put_text(m, "Action", "start");
    let m = put_object(m, "Actor", actor);
    let m = put(m, "time", number_value(now.secs));
    object_value(put(m, "timeNano", number_value(nanos)))
}

/// The names of what is told of the system differ.
proof fn lemma_info_keys()
    ensures
        "ID"@ != "Containers"@,
        "ID"@ != "ContainersRunning"@,
        "ID"@ != "ContainersPaused"@,
        "ID"@ != "ContainersStopped"@,
        "ID"@ != "Images"@,
        "ID"@ != "Driver"@,
        "ID"@ != "DriverStatus"@,
        "ID"@ != "SystemStatus"@,
        "ID"@ != "Plugins"@,
        "ID"@ != "MemoryLimit"@,
        "ID"@ != "SwapLimit"@,
        "ID"@ != "KernelMemory"@,
        "ID"@ != "CpuCfsPeriod"@,
        "ID"@ != "CpuCfsQuota"@,
        "ID"@ != "CPUShares"@,
        "ID"@ != "CPUSet"@,
        "ID"@ != "PidsLimit"@,
        "ID"@ != "IPv4Forwarding"@,
        "ID"@ != "BridgeNfIptables"@,
        "ID"@ != "BridgeNfIp6tables"@,
        "ID"@ != "Debug"@,
        "ID"@ != "NFd"@,
        "ID"@ != "OomKillDisable"@,
        "ID"@ != "NGoroutines"@,
        "ID"@ != "SystemTime"@,
        "ID"@ != "LoggingDriver"@,
        "ID"@ != "CgroupDriver"@,
        "ID"@ != "NEventsListener"@,
        "ID"@ != "KernelVersion"@,
        "ID"@ != "OperatingSystem"@,
        "ID"@ != "OSType"@,
        "ID"@ != "Architecture"@,
        "ID"@ != "IndexServerAddress"@,
        "ID"@ != "RegistryConfig"@,
        "ID"@ != "NCPU"@,
        "ID"@ != "MemTotal"@,
        "ID"@ != "GenericResources"@,
        "ID"@ != "DockerRootDir"@,
        "ID"@ != "HttpProxy"@,
        "ID"@ != "HttpsProxy"@,
        "ID"@ != "NoProxy"@,
        "ID"@ != "Name"@,
        "ID"@ != "Labels"@,
        "ID"@ != "ExperimentalBuild"@,
        "ID"@ != "ServerVersion"@,
        "ID"@ != "Runtimes"@,
        "ID"@ != "DefaultRuntime"@,
        "ID"@ != "Swarm"@,
        "ID"@ != "LiveRestoreEnabled"@,
        "ID"@ != "Isolation"@,
        "ID"@ != "InitBinary"@,
        "ID"@ != "ContainerdCommit"@,
        "ID"@ != "RuncCommit"@,
        "ID"@ != "InitCommit"@,
        "ID"@ != "SecurityOptions"@,
        "ID"@ != "Warnings"@,
        "Containers"@ != "ContainersRunning"@,
        "Containers"@ != "ContainersPaused"@,
        "Containers"@ != "ContainersStopped"@,
        "Containers"@ != "Images"@,
        "Containers"@ != "Driver"@,
        "Containers"@ != "DriverStatus"@,
        "Containers"@ != "SystemStatus"@,
        "Containers"@ != "Plugins"@,
        "Containers"@ != "MemoryLimit"@,
        "Containers"@ != "SwapLimit"@,
        "Containers"@ != "KernelMemory"@,
        "Containers"@ != "CpuCfsPeriod"@,
        "Containers"@ != "CpuCfsQuota"@,
        "Containers"@ != "CPUShares"@,
        "Containers"@ != "CPUSet"@,
        "Containers"@ != "PidsLimit"@,
        "Containers"@ != "IPv4Forwarding"@,
        "Containers"@ != "BridgeNfIptables"@,
        "Containers"@ != "BridgeNfIp6tables"@,
        "Containers"@ != "Debug"@,
        "Containers"@ != "NFd"@,
        "Containers"@ != "OomKillDisable"@,
        "Containers"@ != "NGoroutines"@,
        "Containers"@ != "SystemTime"@,
        "Containers"@ != "LoggingDriver"@,
        "Containers"@ != "CgroupDriver"@,
        "Containers"@ != "NEventsListener"@,
        "Containers"@ != "KernelVersion"@,
        "Containers"@ != "OperatingSystem"@,
        "Containers"@ != "OSType"@,
        "Containers"@ != "Architecture"@,
        "Containers"@ != "IndexServerAddress"@,
        "Containers"@ != "RegistryConfig"@,
        "Containers"@ != "NCPU"@,
        "Containers"@ != "MemTotal"@,
        "Containers"@ != "GenericResources"@,
        "Containers"@ != "DockerRootDir"@,
        "Containers"@ != "HttpProxy"@,
        "Containers"@ != "HttpsProxy"@,
        "Containers"@ != "NoProxy"@,
        "Containers"@ != "Name"@,
        "Containers"@ != "Labels"@,
        "Containers"@ != "ExperimentalBuild"@,
        "Containers"@ != "ServerVersion"@,
        "Containers"@ != "Runtimes"@,
        "Containers"@ != "DefaultRuntime"@,
        "Containers"@ != "Swarm"@,
        "Containers"@ != "LiveRestoreEnabled"@,
        "Containers"@ != "Isolation"@,
        "Containers"@ != "InitBinary"@,
        "Containers"@ != "ContainerdCommit"@,
        "Containers"@ != "RuncCommit"@,
        "Containers"@ != "InitCommit"@,
        "Containers"@ != "SecurityOptions"@,
        "Containers"@ != "Warnings"@,
        "ContainersRunning"@ != "ContainersPaused"@,
        "ContainersRunning"@ != "ContainersStopped"@,
        "ContainersRunning"@ != "Images"@,
        "ContainersRunning"@ != "Driver"@,
        "ContainersRunning"@ != "DriverStatus"@,
        "ContainersRunning"@ != "SystemStatus"@,
        "ContainersRunning"@ != "Plugins"@,
        "ContainersRunning"@ != "MemoryLimit"@,
        "ContainersRunning"@ != "SwapLimit"@,
        "ContainersRunning"@ != "KernelMemory"@,
        "ContainersRunning"@ != "CpuCfsPeriod"@,
        "ContainersRunning"@ != "CpuCfsQuota"@,
        "ContainersRunning"@ != "CPUShares"@,
        "ContainersRunning"@ != "CPUSet"@,
        "ContainersRunning"@ != "PidsLimit"@,
        "ContainersRunning"@ != "IPv4Forwarding"@,
        "ContainersRunning"@ != "BridgeNfIptables"@,
        "ContainersRunning"@ != "BridgeNfIp6tables"@,
        "ContainersRunning"@ != "Debug"@,
        "ContainersRunning"@ != "NFd"@,
        "ContainersRunning"@ != "OomKillDisable"@,
        "ContainersRunning"@ != "NGoroutines"@,
        "ContainersRunning"@ != "SystemTime"@,
        "ContainersRunning"@ != "LoggingDriver"@,
        "ContainersRunning"@ != "CgroupDriver"@,
        "ContainersRunning"@ != "NEventsListener"@,
        "ContainersRunning"@ != "KernelVersion"@,
        "ContainersRunning"@ != "OperatingSystem"@,
        "ContainersRunning"@ != "OSType"@,
        "ContainersRunning"@ != "Architecture"@,
        "ContainersRunning"@ != "IndexServerAddress"@,
        "ContainersRunning"@ != "RegistryConfig"@,
        "ContainersRunning"@ != "NCPU"@,
        "ContainersRunning"@ != "MemTotal"@,
        "ContainersRunning"@ != "GenericResources"@,
        "ContainersRunning"@ != "DockerRootDir"@,
        "ContainersRunning"@ != "HttpProxy"@,
        "ContainersRunning"@ != "HttpsProxy"@,
        "ContainersRunning"@ != "NoProxy"@,
        "ContainersRunning"@ != "Name"@,
        "ContainersRunning"@ != "Labels"@,
        "ContainersRunning"@ != "ExperimentalBuild"@,
        "ContainersRunning"@ != "ServerVersion"@,
        "ContainersRunning"@ != "Runtimes"@,
        "ContainersRunning"@ != "DefaultRuntime"@,
        "ContainersRunning"@ != "Swarm"@,
        "ContainersRunning"@ != "LiveRestoreEnabled"@,
        "ContainersRunning"@ != "Isolation"@,
        "ContainersRunning"@ != "InitBinary"@,
        "ContainersRunning"@ != "ContainerdCommit"@,
        "ContainersRunning"@ != "RuncCommit"@,
        "ContainersRunning"@ != "InitCommit"@,
        "ContainersRunning"@ != "SecurityOptions"@,
        "ContainersRunning"@ != "Warnings"@,
        "ContainersPaused"@ != "ContainersStopped"@,
        "ContainersPaused"@ != "Images"@,
        "ContainersPaused"@ != "Driver"@,
        "ContainersPaused"@ != "DriverStatus"@,
        "ContainersPaused"@ != "SystemStatus"@,
        "ContainersPaused"@ != "Plugins"@,
        "ContainersPaused"@ != "MemoryLimit"@,
        "ContainersPaused"@ != "SwapLimit"@,
        "ContainersPaused"@ != "KernelMemory"@,
        "ContainersPaused"@ != "CpuCfsPeriod"@,
        "ContainersPaused"@ != "CpuCfsQuota"@,
        "ContainersPaused"@ != "CPUShares"@,
        "ContainersPaused"@ != "CPUSet"@,
        "ContainersPaused"@ != "PidsLimit"@,
        "ContainersPaused"@ != "IPv4Forwarding"@,
        "ContainersPaused"@ != "BridgeNfIptables"@,
        "ContainersPaused"@ != "BridgeNfIp6tables"@,
        "ContainersPaused"@ != "Debug"@,
        "ContainersPaused"@ != "NFd"@,
        "ContainersPaused"@ != "OomKillDisable"@,
        "ContainersPaused"@ != "NGoroutines"@,
        "ContainersPaused"@ != "SystemTime"@,
        "ContainersPaused"@ != "LoggingDriver"@,
        "ContainersPaused"@ != "CgroupDriver"@,
        "ContainersPaused"@ != "NEventsListener"@,
        "ContainersPaused"@ != "KernelVersion"@,
        "ContainersPaused"@ != "OperatingSystem"@,
        "ContainersPaused"@ != "OSType"@,
        "ContainersPaused"@ != "Architecture"@,
        "ContainersPaused"@ != "IndexServerAddress"@,
        "ContainersPaused"@ != "RegistryConfig"@,
        "ContainersPaused"@ != "NCPU"@,
        "ContainersPaused"@ != "MemTotal"@,
        "ContainersPaused"@ != "GenericResources"@,
        "ContainersPaused"@ != "DockerRootDir"@,
        "ContainersPaused"@ != "HttpProxy"@,
        "ContainersPaused"@ != "HttpsProxy"@,
        "ContainersPaused"@ != "NoProxy"@,
        "ContainersPaused"@ != "Name"@,
        "ContainersPaused"@ != "Labels"@,
        "ContainersPaused"@ != "ExperimentalBuild"@,
        "ContainersPaused"@ != "ServerVersion"@,
        "ContainersPaused"@ != "Runtimes"@,
        "ContainersPaused"@ != "DefaultRuntime"@,
        "ContainersPaused"@ != "Swarm"@,
        "ContainersPaused"@ != "LiveRestoreEnabled"@,
        "ContainersPaused"@ != "Isolation"@,
        "ContainersPaused"@ != "InitBinary"@,
        "ContainersPaused"@ != "ContainerdCommit"@,
        "ContainersPaused"@ != "RuncCommit"@,
        "ContainersPaused"@ != "InitCommit"@,
        "ContainersPaused"@ != "SecurityOptions"@,
        "ContainersPaused"@ != "Warnings"@,
        "ContainersStopped"@ != "Images"@,
        "ContainersStopped"@ != "Driver"@,
        "ContainersStopped"@ != "DriverStatus"@,
        "ContainersStopped"@ != "SystemStatus"@,
        "ContainersStopped"@ != "Plugins"@,
        "ContainersStopped"@ != "MemoryLimit"@,
        "ContainersStopped"@ != "SwapLimit"@,
        "ContainersStopped"@ != "KernelMemory"@,
        "ContainersStopped"@ != "CpuCfsPeriod"@,
        "ContainersStopped"@ != "CpuCfsQuota"@,
        "ContainersStopped"@ != "CPUShares"@,
        "ContainersStopped"@ != "CPUSet"@,
        "ContainersStopped"@ != "PidsLimit"@,
        "ContainersStopped"@ != "IPv4Forwarding"@,
        "ContainersStopped"@ != "BridgeNfIptables"@,
        "ContainersStopped"@ != "BridgeNfIp6tables"@,
        "ContainersStopped"@ != "Debug"@,
        "ContainersStopped"@ != "NFd"@,
        "ContainersStopped"@ != "OomKillDisable"@,
        "ContainersStopped"@ != "NGoroutines"@,
        "ContainersStopped"@ != "SystemTime"@,
        "ContainersStopped"@ != "LoggingDriver"@,
        "ContainersStopped"@ != "CgroupDriver"@,
        "ContainersStopped"@ != "NEventsListener"@,
        "ContainersStopped"@ != "KernelVersion"@,
        "ContainersStopped"@ != "OperatingSystem"@,
        "ContainersStopped"@ != "OSType"@,
        "ContainersStopped"@ != "Architecture"@,
        "ContainersStopped"@ != "IndexServerAddress"@,
        "ContainersStopped"@ != "RegistryConfig"@,
        "ContainersStopped"@ != "NCPU"@,
        "ContainersStopped"@ != "MemTotal"@,
        "ContainersStopped"@ != "GenericResources"@,
        "ContainersStopped"@ != "DockerRootDir"@,
        "ContainersStopped"@ != "HttpProxy"@,
        "ContainersStopped"@ != "HttpsProxy"@,
        "ContainersStopped"@ != "NoProxy"@,
        "ContainersStopped"@ != "Name"@,
        "ContainersStopped"@ != "Labels"@,
        "ContainersStopped"@ != "ExperimentalBuild"@,
        "ContainersStopped"@ != "ServerVersion"@,
        "ContainersStopped"@ != "Runtimes"@,
        "ContainersStopped"@ != "DefaultRuntime"@,
        "ContainersStopped"@ != "Swarm"@,
        "ContainersStopped"@ != "LiveRestoreEnabled"@,
        "ContainersStopped"@ != "Isolation"@,
        "ContainersStopped"@ != "InitBinary"@,
        "ContainersStopped"@ != "ContainerdCommit"@,
        "ContainersStopped"@ != "RuncCommit"@,
        "ContainersStopped"@ != "InitCommit"@,
        "ContainersStopped"@ != "SecurityOptions"@,
        "ContainersStopped"@ != "Warnings"@,
        "Images"@ != "Driver"@,
        "Images"@ != "DriverStatus"@,
        "Images"@ != "SystemStatus"@,
        "Images"@ != "Plugins"@,
        "Images"@ != "MemoryLimit"@,
        "Images"@ != "SwapLimit"@,
        "Images"@ != "KernelMemory"@,
        "Images"@ != "CpuCfsPeriod"@,
        "Images"@ != "CpuCfsQuota"@,
        "Images"@ != "CPUShares"@,
        "Images"@ != "CPUSet"@,
        "Images"@ != "PidsLimit"@,
        "Images"@ != "IPv4Forwarding"@,
        "Images"@ != "BridgeNfIptables"@,
        "Images"@ != "BridgeNfIp6tables"@,
        "Images"@ != "Debug"@,
        "Images"@ != "NFd"@,
        "Images"@ != "OomKillDisable"@,
        "Images"@ != "NGoroutines"@,
        "Images"@ != "SystemTime"@,
        "Images"@ != "LoggingDriver"@,
        "Images"@ != "CgroupDriver"@,
        "Images"@ != "NEventsListener"@,
        "Images"@ != "KernelVersion"@,
        "Images"@ != "OperatingSystem"@,
        "Images"@ != "OSType"@,
        "Images"@ != "Architecture"@,
        "Images"@ != "IndexServerAddress"@,
        "Images"@ != "RegistryConfig"@,
        "Images"@ != "NCPU"@,
        "Images"@ != "MemTotal"@,
        "Images"@ != "GenericResources"@,
        "Images"@ != "DockerRootDir"@,
        "Images"@ != "HttpProxy"@,
        "Images"@ != "HttpsProxy"@,
        "Images"@ != "NoProxy"@,
        "Images"@ != "Name"@,
        "Images"@ != "Labels"@,
        "Images"@ != "ExperimentalBuild"@,
        "Images"@ != "ServerVersion"@,
        "Images"@ != "Runtimes"@,
        "Images"@ != "DefaultRuntime"@,
        "Images"@ != "Swarm"@,
        "Images"@ != "LiveRestoreEnabled"@,
        "Images"@ != "Isolation"@,
        "Images"@ != "InitBinary"@,
        "Images"@ != "ContainerdCommit"@,
        "Images"@ != "RuncCommit"@,
        "Images"@ != "InitCommit"@,
        "Images"@ != "SecurityOptions"@,
        "Images"@ != "Warnings"@,
        "OSType"@ != "Architecture"@,
        "OSType"@ != "IndexServerAddress"@,
        "OSType"@ != "RegistryConfig"@,
        "OSType"@ != "NCPU"@,
        "OSType"@ != "MemTotal"@,
        "OSType"@ != "GenericResources"@,
        "OSType"@ != "DockerRootDir"@,
        "OSType"@ != "HttpProxy"@,
        "OSType"@ != "HttpsProxy"@,
        "OSType"@ != "NoProxy"@,
        "OSType"@ != "Name"@,
        "OSType"@ != "Labels"@,
        "OSType"@ != "ExperimentalBuild"@,
        "OSType"@ != "ServerVersion"@,
        "OSType"@ != "Runtimes"@,
        "OSType"@ != "DefaultRuntime"@,
        "OSType"@ != "Swarm"@,
        "OSType"@ != "LiveRestoreEnabled"@,
        "OSType"@ != "Isolation"@,
        "OSType"@ != "InitBinary"@,
        "OSType"@ != "ContainerdCommit"@,
        "OSType"@ != "RuncCommit"@,
        "OSType"@ != "InitCommit"@,
        "OSType"@ != "SecurityOptions"@,
        "OSType"@ != "Warnings"@,
        "Architecture"@ != "IndexServerAddress"@,
        "Architecture"@ != "RegistryConfig"@,
        "Architecture"@ != "NCPU"@,
        "Architecture"@ != "MemTotal"@,
        "Architecture"@ != "GenericResources"@,
        "Architecture"@ != "DockerRootDir"@,
        "Architecture"@ != "HttpProxy"@,
        "Architecture"@ != "HttpsProxy"@,
        "Architecture"@ != "NoProxy"@,
        "Architecture"@ != "Name"@,
        "Architecture"@ != "Labels"@,
        "Architecture"@ != "ExperimentalBuild"@,
        "Architecture"@ != "ServerVersion"@,
        "Architecture"@ != "Runtimes"@,
        "Architecture"@ != "DefaultRuntime"@,
        "Architecture"@ != "Swarm"@,
        "Architecture"@ != "LiveRestoreEnabled"@,
        "Architecture"@ != "Isolation"@,
        "Architecture"@ != "InitBinary"@,
        "Architecture"@ != "ContainerdCommit"@,
        "Architecture"@ != "RuncCommit"@,
        "Architecture"@ != "InitCommit"@,
        "Architecture"@ != "SecurityOptions"@,
        "Architecture"@ != "Warnings"@,
        "NCPU"@ != "MemTotal"@,
        "NCPU"@ != "GenericResources"@,
        "NCPU"@ != "DockerRootDir"@,
        "NCPU"@ != "HttpProxy"@,
        "NCPU"@ != "HttpsProxy"@,
        "NCPU"@ != "NoProxy"@,
        "NCPU"@ != "Name"@,
        "NCPU"@ != "Labels"@,
        "NCPU"@ != "ExperimentalBuild"@,
        "NCPU"@ != "ServerVersion"@,
        "NCPU"@ != "Runtimes"@,
        "NCPU"@ != "DefaultRuntime"@,
        "NCPU"@ != "Swarm"@,
        "NCPU"@ != "LiveRestoreEnabled"@,
        "NCPU"@ != "Isolation"@,
        "NCPU"@ != "InitBinary"@,
        "NCPU"@ != "ContainerdCommit"@,
        "NCPU"@ != "RuncCommit"@,
        "NCPU"@ != "InitCommit"@,
        "NCPU"@ != "SecurityOptions"@,
        "NCPU"@ != "Warnings"@,
        "MemTotal"@ != "GenericResources"@,
        "MemTotal"@ != "DockerRootDir"@,
        "MemTotal"@ != "HttpProxy"@,
        "MemTotal"@ != "HttpsProxy"@,
        "MemTotal"@ != "NoProxy"@,
        "MemTotal"@ != "Name"@,
        "MemTotal"@ != "Labels"@,
        "MemTotal"@ != "ExperimentalBuild"@,
        "MemTotal"@ != "ServerVersion"@,
        "MemTotal"@ != "Runtimes"@,
        "MemTotal"@ != "DefaultRuntime"@,
        "MemTotal"@ != "Swarm"@,
        "MemTotal"@ != "LiveRestoreEnabled"@,
        "MemTotal"@ != "Isolation"@,
        "MemTotal"@ != "InitBinary"@,
        "MemTotal"@ != "ContainerdCommit"@,
        "MemTotal"@ != "RuncCommit"@,
        "MemTotal"@ != "InitCommit"@,
        "MemTotal"@ != "SecurityOptions"@,
        "MemTotal"@ != "Warnings"@,
        "DockerRootDir"@ != "HttpProxy"@,
        "DockerRootDir"@ != "HttpsProxy"@,
        "DockerRootDir"@ != "NoProxy"@,
        "DockerRootDir"@ != "Name"@,
        "DockerRootDir"@ != "Labels"@,
        "DockerRootDir"@ != "ExperimentalBuild"@,
        "DockerRootDir"@ != "ServerVersion"@,
        "DockerRootDir"@ != "Runtimes"@,
        "DockerRootDir"@ != "DefaultRuntime"@,
        "DockerRootDir"@ != "Swarm"@,
        "DockerRootDir"@ != "LiveRestoreEnabled"@,
        "DockerRootDir"@ != "Isolation"@,
        "DockerRootDir"@ != "InitBinary"@,
        "DockerRootDir"@ != "ContainerdCommit"@,
        "DockerRootDir"@ != "RuncCommit"@,
        "DockerRootDir"@ != "InitCommit"@,
        "DockerRootDir"@ != "SecurityOptions"@,
        "DockerRootDir"@ != "Warnings"@,
        "Name"@ != "Labels"@,
        "Name"@ != "ExperimentalBuild"@,
        "Name"@ != "ServerVersion"@,
        "Name"@ != "Runtimes"@,
        "Name"@ != "DefaultRuntime"@,
        "Name"@ != "Swarm"@,
        "Name"@ != "LiveRestoreEnabled"@,
        "Name"@ != "Isolation"@,
        "Name"@ != "InitBinary"@,
        "Name"@ != "ContainerdCommit"@,
        "Name"@ != "RuncCommit"@,
        "Name"@ != "InitCommit"@,
        "Name"@ != "SecurityOptions"@,
        "Name"@ != "Warnings"@,
        "ServerVersion"@ != "Runtimes"@,
        "ServerVersion"@ != "DefaultRuntime"@,
        "ServerVersion"@ != "Swarm"@,
        "ServerVersion"@ != "LiveRestoreEnabled"@,
        "ServerVersion"@ != "Isolation"@,
        "ServerVersion"@ != "InitBinary"@,
        "ServerVersion"@ != "ContainerdCommit"@,
        "ServerVersion"@ != "RuncCommit"@,
        "ServerVersion"@ != "InitCommit"@,
        "ServerVersion"@ != "SecurityOptions"@,
        "ServerVersion"@ != "Warnings"@,
{
    reveal_strlit("ID");
    reveal_strlit("Containers");
    reveal_strlit("ContainersRunning");
    reveal_strlit("ContainersPaused");
    reveal_strlit("ContainersStopped");
    reveal_strlit("Images");
    reveal_strlit("Driver");
    reveal_strlit("DriverStatus");
    reveal_strlit("SystemStatus");
    reveal_strlit("Plugins");
    reveal_strlit("MemoryLimit");
    reveal_strlit("SwapLimit");
    reveal_strlit("KernelMemory");
    reveal_strlit("CpuCfsPeriod");
    reveal_strlit("CpuCfsQuota");
    reveal_strlit("CPUShares");
    reveal_strlit("CPUSet");
    reveal_strlit("PidsLimit");
    reveal_strlit("IPv4Forwarding");
    reveal_strlit("BridgeNfIptables");
    reveal_strlit("BridgeNfIp6tables");
    reveal_strlit("Debug");
    reveal_strlit("NFd");
    reveal_strlit("OomKillDisable");
    reveal_strlit("NGoroutines");
    reveal_strlit("SystemTime");
    reveal_strlit("LoggingDriver");
    reveal_strlit("CgroupDriver");
    reveal_strlit("NEventsListener");
    reveal_strlit("KernelVersion");
    reveal_strlit("OperatingSystem");
    reveal_strlit("OSType");
    reveal_strlit("Architecture");
    reveal_strlit("IndexServerAddress");
    reveal_strlit("RegistryConfig");
    reveal_strlit("NCPU");
    reveal_strlit("MemTotal");
    reveal_strlit("GenericResources");
    reveal_strlit("DockerRootDir");
    reveal_strlit("HttpProxy");
    reveal_strlit("HttpsProxy");
    reveal_strlit("NoProxy");
    reveal_strlit("Name");
    reveal_strlit("Labels");
    reveal_strlit("ExperimentalBuild");
    reveal_strlit("ServerVersion");
    reveal_strlit("Runtimes");
    reveal_strlit("DefaultRuntime");
    reveal_strlit("Swarm");
    reveal_strlit("LiveRestoreEnabled");
    reveal_strlit("Isolation");
    reveal_strlit("InitBinary");
    reveal_strlit("ContainerdCommit");
    reveal_strlit("RuncCommit");
    reveal_strlit("InitCommit");
    reveal_strlit("SecurityOptions");
    reveal_strlit("Warnings");
    assert("ID"@.len() == 2);
    assert("Containers"@.len() == 10 && "Containers"@[0] == 'C');
    assert("ContainersRunning"@.len() == 17
        && "ContainersRunning"@[0] == 'C'
        && "ContainersRunning"@[10] == 'R');
    assert("ContainersPaused"@.len() == 16
        && "ContainersPaused"@[0] == 'C'
        && "ContainersPaused"@[9] == 's');
    assert("ContainersStopped"@.len() == 17
        && "ContainersStopped"@[0] == 'C'
        && "ContainersStopped"@[10] == 'S');
    assert("Images"@.len() == 6 && "Images"@[0] == 'I');
    assert("Driver"@.len() == 6 && "Driver"@[0] == 'D');
    assert("DriverStatus"@.len() == 12 && "DriverStatus"@[0] == 'D');
    assert("SystemStatus"@.len() == 12 && "SystemStatus"@[0] == 'S');
    assert("Plugins"@.len() == 7 && "Plugins"@[0] == 'P');
    assert("MemoryLimit"@.len() == 11 && "MemoryLimit"@[0] == 'M');
    assert("SwapLimit"@.len() == 9 && "SwapLimit"@[0] == 'S');
    assert("KernelMemory"@.len() == 12 && "KernelMemory"@[0] == 'K');
    assert("CpuCfsPeriod"@.len() == 12 && "CpuCfsPeriod"@[0] == 'C' && "CpuCfsPeriod"@[1] == 'p');
    assert("CpuCfsQuota"@.len() == 11 && "CpuCfsQuota"@[0] == 'C');
    assert("CPUShares"@.len() == 9 && "CPUShares"@[0] == 'C');
    assert("CPUSet"@.len() == 6 && "CPUSet"@[0] == 'C');
    assert("PidsLimit"@.len() == 9 && "PidsLimit"@[0] == 'P');
    assert("IPv4Forwarding"@.len() == 14 && "IPv4Forwarding"@[0] == 'I');
    assert("BridgeNfIptables"@.len() == 16 && "BridgeNfIptables"@[0] == 'B');
    assert("BridgeNfIp6tables"@.len() == 17 && "BridgeNfIp6tables"@[0] == 'B');
    assert("Debug"@.len() == 5 && "Debug"@[0] == 'D');
    assert("NFd"@.len() == 3);
    assert("OomKillDisable"@.len() == 14 && "OomKillDisable"@[0] == 'O');
    assert("NGoroutines"@.len() == 11 && "NGoroutines"@[0] == 'N');
    assert("SystemTime"@.len() == 10 && "SystemTime"@[0] == 'S');
    assert("LoggingDriver"@.len() == 13 && "LoggingDriver"@[0] == 'L');
    assert("CgroupDriver"@.len() == 12 && "CgroupDriver"@[0] == 'C' && "CgroupDriver"@[1] == 'g');
    assert("NEventsListener"@.len() == 15 && "NEventsListener"@[0] == 'N');
    assert("KernelVersion"@.len() == 13 && "KernelVersion"@[0] == 'K');
    assert("OperatingSystem"@.len() == 15 && "OperatingSystem"@[0] == 'O');
    assert("OSType"@.len() == 6 && "OSType"@[0] == 'O');
    assert("Architecture"@.len() == 12 && "Architecture"@[0] == 'A');
    assert("IndexServerAddress"@.len() == 18 && "IndexServerAddress"@[0] == 'I');
    assert("RegistryConfig"@.len() == 14 && "RegistryConfig"@[0] == 'R');
    assert("NCPU"@.len() == 4 && "NCPU"@[1] == 'C');
    assert("MemTotal"@.len() == 8 && "MemTotal"@[0] == 'M');
    assert("GenericResources"@.len() == 16 && "GenericResources"@[0] == 'G');
    assert("DockerRootDir"@.len() == 13 && "DockerRootDir"@[0] == 'D');
    assert("HttpProxy"@.len() == 9 && "HttpProxy"@[0] == 'H');
    assert("HttpsProxy"@.len() == 10 && "HttpsProxy"@[0] == 'H');
    assert("NoProxy"@.len() == 7 && "NoProxy"@[0] == 'N');
    assert("Name"@.len() == 4 && "Name"@[1] == 'a');
    assert("Labels"@.len() == 6 && "Labels"@[0] == 'L');
    assert("ExperimentalBuild"@.len() == 17 && "ExperimentalBuild"@[0] == 'E');
    assert("ServerVersion"@.len() == 13 && "ServerVersion"@[0] == 'S');
    assert("Runtimes"@.len() == 8 && "Runtimes"@[0] == 'R');
    assert("DefaultRuntime"@.len() == 14 && "DefaultRuntime"@[0] == 'D');
    assert("Swarm"@.len() == 5 && "Swarm"@[0] == 'S');
    assert("LiveRestoreEnabled"@.len() == 18 && "LiveRestoreEnabled"@[0] == 'L');
    assert("Isolation"@.len() == 9 && "Isolation"@[0] == 'I');
    assert("InitBinary"@.len() == 10 && "InitBinary"@[0] == 'I' && "InitBinary"@[4] == 'B');
    assert("ContainerdCommit"@.len() == 16
        && "ContainerdCommit"@[0] == 'C'
        && "ContainerdCommit"@[9] == 'd');
    assert("RuncCommit"@.len() == 10 && "RuncCommit"@[0] == 'R');
    assert("InitCommit"@.len() == 10 && "InitCommit"@[0] == 'I' && "InitCommit"@[4] == 'C');
    assert("SecurityOptions"@.len() == 15 && "SecurityOptions"@[0] == 'S');
    assert("Warnings"@.len() == 8 && "Warnings"@[0] == 'W');
}

/// What is told of the system is what it is: how many boxes there are, how many of them
/// run and how many do not, its images, its machine and its name.
pub proof fn lemma_system_told(state: StateFile, f: SystemFacts, counts: (usize, usize, usize), r: serde_json::Value)
    requires
        time::representable(f.now),
        call_ensures(container_counts, (&state,), counts),
        call_ensures(info, (&state, &f), r),
    ensures
        ({
            let doc = json::contents(r);
            &&& json::member_of(doc, "Containers"@) == JsonView::Number(state@.len() as int)
            &&& json::member_of(doc, "ContainersRunning"@) == JsonView::Number(counts.1 as int)
            &&& json::member_of(doc, "ContainersStopped"@) == JsonView::Number(counts.2 as int)
            &&& counts.0 == state@.len() && counts.1 + counts.2 == counts.0
            &&& json::member_of(doc, "ID"@) == JsonView::Text(f.id@)
            &&& json::member_of(doc, "Images"@) == JsonView::Number(f.images as int)
            &&& json::member_of(doc, "OSType"@) == JsonView::Text(f.os@)
            &&& json::member_of(doc, "Architecture"@) == JsonView::Text(f.arch@)
            &&& json::member_of(doc, "NCPU"@) == JsonView::Number(f.cpus as int)
            &&& json::member_of(doc, "MemTotal"@) == JsonView::Number(f.memory as int)
            &&& json::member_of(doc, "DockerRootDir"@) == JsonView::Text(f.home@)
            &&& json::member_of(doc, "Name"@) == JsonView::Text(f.hostname@)
            &&& json::member_of(doc, "ServerVersion"@) == JsonView::Text(f.version@)
        }),
{
    lemma_info_keys();
}

/// The version that is told is that of the build, and so are its system, its machine
/// and its time.
pub proof fn lemma_version_told(f: BuildFacts, r: serde_json::Value)
    requires
        call_ensures(version, (&f,), r),
    ensures
        ({
            let doc = json::contents(r);
            &&& json::member_of(doc, "Version"@) == JsonView::Text(f.version@)
            &&& json::member_of(doc, "Os"@) == JsonView::Text(f.os@)
            &&& json::member_of(doc, "Arch"@) == JsonView::Text(f.arch@)
            &&& json::member_of(doc, "BuildTime"@) == JsonView::Text(f.build_time@)
            &&& json::member_of(doc, "ApiVersion"@) == JsonView::Text("1.43"@)
            &&& json::member_of(doc, "MinAPIVersion"@) == JsonView::Text("1.12"@)
        }),
{
    reveal_strlit("Version");
    reveal_strlit("ApiVersion");
    reveal_strlit("MinAPIVersion");
    reveal_strlit("GitCommit");
    reveal_strlit("GoVersion");
    reveal_strlit("Os");
    reveal_strlit("Arch");
    reveal_strlit("KernelVersion");
    reveal_strlit("BuildTime");
    reveal_strlit("Experimental");
    assert("Version"@.len() == 7);
    assert("ApiVersion"@.len() == 10);
    assert("MinAPIVersion"@.len() == 13 && "MinAPIVersion"@[0] == 'M');
    assert("GitCommit"@.len() == 9 && "GitCommit"@[0] == 'G' && "GitCommit"@[1] == 'i');
    assert("GoVersion"@.len() == 9 && "GoVersion"@[0] == 'G' && "GoVersion"@[1] == 'o');
    assert("Os"@.len() == 2);
    assert("Arch"@.len() == 4);
    assert("KernelVersion"@.len() == 13 && "KernelVersion"@[0] == 'K');
    assert("BuildTime"@.len() == 9 && "BuildTime"@[0] == 'B');
    assert("Experimental"@.len() == 12);
}

/// The beginning of a commit is told, seven signs of it.
pub proof fn lemma_commit_told<'a>(sha: &'a str, r: &'a str)
    requires
        crate::case::plain(sha@),
        sha@.len() > 7,
        call_ensures(git_commit, (sha,), r),
    ensures
        r@ == sha@.take(7) || r@ == "unknown"@,
        vstd::utf8::is_char_boundary(vstd::utf8::encode_utf8(sha@), 7) ==> r@ == sha@.take(7),
{
    bytes::lemma_clip_plain(sha@, 7);
}

/// An event is told at the second it is of, and at the nanosecond where that can be told.
pub proof fn lemma_event_told(now: Timestamp, r: serde_json::Value)
    requires
        call_ensures(events, (now,), r),
        0 <= now.secs < 9_000_000_000,
        now.nanos < 1_000_000_000,
    ensures
        json::member_of(json::contents(r), "time"@) == JsonView::Number(now.secs as int),
        json::member_of(json::contents(r), "timeNano"@) == JsonView::Number(
            now.secs * 1_000_000_000 + now.nanos,
        ),
{
    reveal_strlit("time");
    reveal_strlit("timeNano");
    assert("time"@.len() == 4 && "timeNano"@.len() == 8);
}

} // verus!
