//! What requests and answers hold.

use vstd::prelude::*;

use crate::strmap::StrMap;

verus! {

/// A request for a container.
#[derive(Debug)]
pub struct ContainerCreateRequest {
    pub image: String,
    pub cmd: Option<Vec<String>>,
    pub entrypoint: Option<Vec<String>>,
    pub env: Option<Vec<String>>,
    pub working_dir: Option<String>,
    pub user: Option<String>,
    pub hostname: Option<String>,
    pub labels: Option<StrMap<String>>,
    pub host_config: Option<HostConfig>,
}

/// How a container uses its host.
#[derive(Debug)]
pub struct HostConfig {
    pub binds: Option<Vec<String>>,
    pub network_mode: Option<String>,
    pub port_bindings: Option<StrMap<Vec<PortBinding>>>,
    pub restart_policy: Option<RestartPolicy>,
    pub auto_remove: Option<bool>,
    pub memory: Option<i64>,
    pub cpu_shares: Option<i64>,
    pub privileged: Option<bool>,
    pub readonly_rootfs: Option<bool>,
}

/// A port of the host for a port of a container.
#[derive(Debug)]
pub struct PortBinding {
    pub host_ip: Option<String>,
    pub host_port: String,
}

/// When a container is started again.
#[derive(Debug)]
pub struct RestartPolicy {
    pub name: String,
    pub maximum_retry_count: Option<u32>,
}

/// The answer to a request for a container.
#[derive(Debug)]
pub struct ContainerCreateResponse {
    pub id: String,
    pub warnings: Option<Vec<String>>,
}

} // verus!
