//! The configuration with which a box is started.

use vstd::prelude::*;

use crate::state::{NetworkMode, NetworkModeView, ResourceLimits, ResourceLimitsView};
use crate::strmap;
use crate::strmap::StrMap;
use crate::text;

verus! {

/// CPUs and memory of a box.
#[derive(Clone, Copy, Debug, PartialEq, Eq, Structural)]
pub struct ResourceConfig {
    /// Number of virtual CPUs.
    pub vcpus: u32,
    /// Memory in megabytes.
    pub memory_mb: u32,
}

/// Whether and how a box runs in a trusted execution environment.
#[derive(Debug)]
pub enum TeeConfig {
    /// It does not.
    Off,
    /// With AMD SEV-SNP.
    SevSnp {
        /// What the attestation calls the workload.
        workload_id: String,
        /// Whether the hardware is only simulated.
        simulate: bool,
    },
}

/// What a [`TeeConfig`] holds.
#[verifier::ext_equal]
pub enum TeeView {
    Off,
    SevSnp { workload_id: Seq<char>, simulate: bool },
}

impl View for TeeConfig {
    type V = TeeView;

    open spec fn view(&self) -> TeeView {
        match self {
            TeeConfig::Off => TeeView::Off,
            TeeConfig::SevSnp { workload_id, simulate } => TeeView::SevSnp {
                workload_id: workload_id@,
                simulate: *simulate,
            },
        }
    }
}

/// An image that runs beside the box's own.
#[derive(Debug)]
pub struct SidecarConfig {
    /// OCI image reference.
    pub image: String,
    /// Vsock port of the sidecar.
    pub vsock_port: u32,
    /// Environment variables.
    pub env: Vec<(String, String)>,
}

/// What a [`SidecarConfig`] holds.
#[verifier::ext_equal]
pub struct SidecarView {
    pub image: Seq<char>,
    pub vsock_port: u32,
    pub env: Seq<(Seq<char>, Seq<char>)>,
}

impl View for SidecarConfig {
    type V = SidecarView;

    open spec fn view(&self) -> SidecarView {
        SidecarView {
            image: self.image@,
            vsock_port: self.vsock_port,
            env: pair_texts(self.env@),
        }
    }
}

/// What an optional sidecar holds.
pub open spec fn opt_sidecar(o: Option<SidecarConfig>) -> Option<SidecarView> {
    match o {
        Some(s) => Some(s@),
        None => None,
    }
}

/// The character sequences of pairs of strings.
pub open spec fn pair_texts(v: Seq<(String, String)>) -> Seq<(Seq<char>, Seq<char>)> {
    v.map_values(|p: (String, String)| (p.0@, p.1@))
}

/// The configuration with which a box is started.
#[derive(Debug)]
pub struct BoxConfig {
    /// OCI image reference.
    pub image: String,
    /// CPUs and memory.
    pub resources: ResourceConfig,
    /// Command.
    pub cmd: Vec<String>,
    /// Entrypoint in place of the image's.
    pub entrypoint_override: Option<Vec<String>>,
    /// User that the command runs as, by number.
    pub user: Option<String>,
    /// Working directory.
    pub workdir: Option<String>,
    /// Host name.
    pub hostname: Option<String>,
    /// Volume mounts.
    pub volumes: Vec<String>,
    /// Environment variables.
    pub extra_env: Vec<(String, String)>,
    /// Published ports.
    pub port_map: Vec<String>,
    /// DNS servers.
    pub dns: Vec<String>,
    /// Additional host entries.
    pub add_hosts: Vec<String>,
    /// Network mode.
    pub network: NetworkMode,
    /// Temporary file systems.
    pub tmpfs: Vec<String>,
    /// Resource limits.
    pub resource_limits: ResourceLimits,
    /// Trusted execution.
    pub tee: TeeConfig,
    /// Whether the root file system is read-only.
    pub read_only: bool,
    /// Added capabilities.
    pub cap_add: Vec<String>,
    /// Dropped capabilities.
    pub cap_drop: Vec<String>,
    /// Security options.
    pub security_opt: Vec<String>,
    /// Whether the box has extended privileges.
    pub privileged: bool,
    /// Image that runs beside the box's own.
    pub sidecar: Option<SidecarConfig>,
    /// Whether the file system outlives a stop.
    pub persistent: bool,
}

/// What a [`BoxConfig`] holds.
#[verifier::ext_equal]
pub struct ConfigView {
    pub image: Seq<char>,
    pub resources: ResourceConfig,
    pub cmd: Seq<Seq<char>>,
    pub entrypoint_override: Option<Seq<Seq<char>>>,
    pub user: Option<Seq<char>>,
    pub workdir: Option<Seq<char>>,
    pub hostname: Option<Seq<char>>,
    pub volumes: Seq<Seq<char>>,
    pub extra_env: Seq<(Seq<char>, Seq<char>)>,
    pub port_map: Seq<Seq<char>>,
    pub dns: Seq<Seq<char>>,
    pub add_hosts: Seq<Seq<char>>,
    pub network: NetworkModeView,
    pub tmpfs: Seq<Seq<char>>,
    pub resource_limits: ResourceLimitsView,
    pub tee: TeeView,
    pub read_only: bool,
    pub cap_add: Seq<Seq<char>>,
    pub cap_drop: Seq<Seq<char>>,
    pub security_opt: Seq<Seq<char>>,
    pub privileged: bool,
    pub sidecar: Option<SidecarView>,
    pub persistent: bool,
}

impl View for BoxConfig {
    type V = ConfigView;

    open spec fn view(&self) -> ConfigView {
        ConfigView {
            image: self.image@,
            resources: self.resources,
            cmd: text::strs(self.cmd@),
            entrypoint_override: text::opt_strs(self.entrypoint_override),
            user: text::opt_str(self.user),
            workdir: text::opt_str(self.workdir),
            hostname: text::opt_str(self.hostname),
            volumes: text::strs(self.volumes@),
            extra_env: pair_texts(self.extra_env@),
            port_map: text::strs(self.port_map@),
            dns: text::strs(self.dns@),
            add_hosts: text::strs(self.add_hosts@),
            network: self.network@,
            tmpfs: text::strs(self.tmpfs@),
            resource_limits: self.resource_limits@,
            tee: self.tee@,
            read_only: self.read_only,
            cap_add: text::strs(self.cap_add@),
            cap_drop: text::strs(self.cap_drop@),
            security_opt: text::strs(self.security_opt@),
            privileged: self.privileged,
            sidecar: opt_sidecar(self.sidecar),
            persistent: self.persistent,
        }
    }
}

/// A copy of pairs.
pub fn clone_pairs(pairs: &Vec<(String, String)>) -> (r: Vec<(String, String)>)
    ensures
        pair_texts(r@) == pair_texts(pairs@),
{
    let mut out: Vec<(String, String)> = Vec::new();
    for i in 0..pairs.len()
        invariant
            pair_texts(out@) =~= pair_texts(pairs@).take(i as int),
    {
        let ghost was = pair_texts(out@);
        let k: String = pairs[i].0.clone();
        let v: String = pairs[i].1.clone();
        out.push((k, v));
        assert(pair_texts(out@) =~= was.push((k@, v@)));
        assert(pair_texts(pairs@)[i as int] == (k@, v@));
    }
    out
}

/// Whether the pairs list the entries of the map, each once.
pub open spec fn lists(
    pairs: Seq<(Seq<char>, Seq<char>)>,
    m: Map<Seq<char>, Seq<char>>,
) -> bool {
    &&& forall|i: int|
        0 <= i < pairs.len() ==> m.dom().contains((#[trigger] pairs[i]).0) && m[pairs[i].0]
            == pairs[i].1
    &&& forall|i: int, j: int|
        0 <= i < j < pairs.len() ==> (#[trigger] pairs[i]).0 != (#[trigger] pairs[j]).0
    &&& forall|k: Seq<char>| #[trigger]
        m.dom().contains(k) ==> exists|i: int| 0 <= i < pairs.len() && (#[trigger] pairs[i]).0 == k
}

/// The entries of a map, each once.
pub fn list_env(map: &StrMap<String>) -> (r: Vec<(String, String)>)
    ensures
        lists(pair_texts(r@), strmap::texts(map@)),
        pair_texts(r@).len() == map.key_list().len(),
        forall|i: int| 0 <= i < r@.len() ==> (#[trigger] r@[i]).0@ == map.key_list()[i],
{
    let n: usize = map.len();
    let mut out: Vec<(String, String)> = Vec::new();
    let mut i: usize = 0;
    while i < n
        invariant
            i <= n,
            n == map.key_list().len(),
            map.key_list().no_duplicates(),
            out.len() == i,
            forall|j: int|
                0 <= j < i ==> (#[trigger] out@[j]).0@ == map.key_list()[j] && map@.dom().contains(
                    out@[j].0@,
                ) && map@[out@[j].0@]@ == out@[j].1@,
        decreases n - i,
    {
        let (k, v) = map.entry(i);
        let key: String = k.clone();
        let value: String = v.clone();
        out.push((key, value));
        i = i + 1;
    }
    proof {
        let pairs = pair_texts(out@);
        let m = strmap::texts(map@);
        assert forall|i: int| 0 <= i < pairs.len() implies m.dom().contains((#[trigger] pairs[i]).0)
            && m[pairs[i].0] == pairs[i].1 by {
            assert(pairs[i] == (out@[i].0@, out@[i].1@));
        }
        assert forall|i: int, j: int| 0 <= i < j < pairs.len() implies (#[trigger] pairs[i]).0 != (
        #[trigger] pairs[j]).0 by {
            assert(pairs[i].0 == map.key_list()[i]);
            assert(pairs[j].0 == map.key_list()[j]);
        }
        assert forall|k: Seq<char>| #[trigger] m.dom().contains(k) implies exists|i: int|
            0 <= i < pairs.len() && (#[trigger] pairs[i]).0 == k by {
            strmap::lemma_keys(map, k);
            let i = choose|i: int| 0 <= i < map.key_list().len() && map.key_list()[i] == k;
            assert(pairs[i].0 == k);
        }
    }
    out
}

/// The list holds this variable with this value.
pub open spec fn sets(pairs: Seq<(String, String)>, key: Seq<char>, value: Seq<char>) -> bool {
    exists|i: int|
        0 <= i < pairs.len() && (#[trigger] pairs[i]).0@ == key && pairs[i].1@ == value
}

/// Each variable is listed once, with its value, and nothing else is.
pub proof fn lemma_env_listed(map: StrMap<String>, k: Seq<char>, r: Vec<(String, String)>)
    requires
        call_ensures(list_env, (&map,), r),
    ensures
        map@.contains_key(k) ==> sets(r@, k, map@[k]@),
        forall|i: int| 0 <= i < r@.len() ==> map@.contains_key((#[trigger] r@[i]).0@) && map@[r@[i].0@]@
            == r@[i].1@,
        forall|i: int, j: int|
            0 <= i < j < r@.len() ==> (#[trigger] r@[i]).0@ != (#[trigger] r@[j]).0@,
{
    let pairs = pair_texts(r@);
    let m = strmap::texts(map@);
    assert(pairs.len() == r@.len());
    assert forall|i: int| 0 <= i < r@.len() implies map@.contains_key((#[trigger] r@[i]).0@)
        && map@[r@[i].0@]@ == r@[i].1@ by {
        assert(pairs[i] == (r@[i].0@, r@[i].1@));
        assert(m.dom().contains(pairs[i].0));
        assert(m[pairs[i].0] == pairs[i].1);
    }
    assert forall|i: int, j: int| 0 <= i < j < r@.len() implies (#[trigger] r@[i]).0@ != (
    #[trigger] r@[j]).0@ by {
        assert(pairs[i].0 != pairs[j].0);
    }
    if map@.contains_key(k) {
        assert(m.dom().contains(k));
        let i = choose|i: int| 0 <= i < pairs.len() && (#[trigger] pairs[i]).0 == k;
        assert(pairs[i] == (r@[i].0@, r@[i].1@));
    }
}

} // verus!
