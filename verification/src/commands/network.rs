//! `network`: networks that boxes are attached to.

use vstd::prelude::*;

use crate::cleanup;
use crate::cleanup::record_network_name;
use crate::commands::common;
use crate::commands::common::insert_pairs;
use crate::number;
use crate::number::usize_text;
use crate::seqs;
use crate::sort;
use crate::sort::sorted_order;
use crate::state;
use crate::state::{is_active, BoxRecord, NetworkMode, NetworkModeView, RecordView, StateFile};
use crate::strmap;
use crate::strmap::StrMap;
use crate::text;
use crate::text::{cat2, cat3, cat5, cat7, str_eq};

verus! {

/// Manage networks.
pub struct NetworkArgs {
    /// What to do.
    pub command: NetworkCommand,
}

/// Network subcommands.
pub enum NetworkCommand {
    /// Create a new network
    Create(CreateArgs),
    /// List networks
    Ls(LsArgs),
    /// Remove one or more networks
    Rm(RmArgs),
    /// Display detailed network information
    Inspect(InspectArgs),
    /// Connect a box to a network
    Connect(ConnectArgs),
    /// Disconnect a box from a network
    Disconnect(DisconnectArgs),
    /// Remove all unused networks
    Prune(PruneArgs),
}

/// Arguments of `network create`.
pub struct CreateArgs {
    /// Network name
    pub name: String,
    /// Subnet in CIDR notation (e.g., "10.89.0.0/24")
    pub subnet: String,
    /// Network driver
    pub driver: String,
    /// Network isolation mode: none, strict, or custom (default: none)
    pub isolation: String,
    /// Metadata labels (KEY=VALUE)
    pub labels: Vec<String>,
}

/// Arguments of `network ls`.
pub struct LsArgs {
    /// Only display network names
    pub quiet: bool,
}

/// Arguments of `network rm`.
pub struct RmArgs {
    /// Network name(s) to remove
    pub names: Vec<String>,
    /// Force removal (disconnect all endpoints first)
    pub force: bool,
}

/// Arguments of `network inspect`.
pub struct InspectArgs {
    /// Network name
    pub name: String,
}

/// Arguments of `network connect`.
pub struct ConnectArgs {
    /// Network name
    pub network: String,
    /// Box name or ID
    pub container: String,
}

/// Arguments of `network disconnect`.
pub struct DisconnectArgs {
    /// Network name
    pub network: String,
    /// Box name or ID
    pub container: String,
    /// Force disconnection
    pub force: bool,
}

/// Arguments of `network prune`.
pub struct PruneArgs {
    /// Skip confirmation prompt
    pub force: bool,
}

/// How the boxes of a network are kept apart.
#[derive(Clone, Copy, Debug, PartialEq, Eq, Structural)]
pub enum IsolationMode {
    /// Not at all.
    Open,
    /// Entirely.
    Strict,
    /// By rules.
    Custom,
}

/// The place of a box in a network.
#[derive(Debug)]
pub struct NetworkEndpoint {
    /// Identifier of the box.
    pub box_id: String,
    /// Name of the box.
    pub box_name: String,
    /// Address of the box.
    pub ip_address: String,
}

/// What a [`NetworkEndpoint`] holds.
#[verifier::ext_equal]
pub struct EndpointView {
    pub box_id: Seq<char>,
    pub box_name: Seq<char>,
    pub ip_address: Seq<char>,
}

impl View for NetworkEndpoint {
    type V = EndpointView;

    open spec fn view(&self) -> EndpointView {
        EndpointView {
            box_id: self.box_id@,
            box_name: self.box_name@,
            ip_address: self.ip_address@,
        }
    }
}

impl Clone for NetworkEndpoint {
    fn clone(&self) -> (r: Self)
        ensures
            r == *self,
    {
        NetworkEndpoint {
            box_id: self.box_id.clone(),
            box_name: self.box_name.clone(),
            ip_address: self.ip_address.clone(),
        }
    }
}

/// A network.
#[derive(Debug)]
pub struct NetworkConfig {
    /// Name of the network.
    pub name: String,
    /// Driver of the network.
    pub driver: String,
    /// Addresses of the network.
    pub subnet: String,
    /// Address of the gateway.
    pub gateway: String,
    /// How its boxes are kept apart.
    pub isolation: IsolationMode,
    /// Metadata labels.
    pub labels: StrMap<String>,
    /// Its boxes, by identifier.
    pub endpoints: StrMap<NetworkEndpoint>,
}

/// Networks that mirror Docker's predefined networks and are never pruned.
pub open spec fn predefined(name: Seq<char>) -> bool {
    name == "bridge"@ || name == "host"@ || name == "none"@
}

/// Networks that mirror Docker's predefined networks and are never pruned.
pub fn is_predefined_network(name: &str) -> (r: bool)
    ensures
        r == predefined(name@),
{
    str_eq(name, "bridge") || str_eq(name, "host") || str_eq(name, "none")
}

/// What is said of a driver that is not supported.
pub open spec fn unsupported_driver(driver: Seq<char>) -> Seq<char> {
    "Unsupported network driver '"@ + driver + "'. Only 'bridge' is currently supported"@
}

/// Only `bridge` networks are supported.
pub fn validate_network_driver(driver: &str) -> (r: Result<(), String>)
    ensures
        match r {
            Ok(_) => driver@ == "bridge"@,
            Err(e) => driver@ != "bridge"@ && e@ == unsupported_driver(driver@),
        },
{
    if str_eq(driver, "bridge") {
        Ok(())
    } else {
        Err(
            cat3(
                "Unsupported network driver '",
                driver,
                "'. Only 'bridge' is currently supported",
            ),
        )
    }
}

/// Why a network cannot have boxes, where it cannot: its driver, then its
/// isolation policy.
pub open spec fn attach_error(driver: Seq<char>, policy: Result<(), String>) -> Option<Seq<char>> {
    if driver != "bridge"@ {
        Some(unsupported_driver(driver))
    } else {
        match policy {
            Ok(_) => None,
            Err(e) => Some("Unsupported network isolation mode: "@ + e@),
        }
    }
}

/// Whether boxes can be attached to a network. `policy` tells whether the
/// runtime supports the isolation policy of the network.
pub fn validate_attachable_network(config: &NetworkConfig, policy: &Result<(), String>) -> (r:
    Result<(), String>)
    ensures
        match r {
            Ok(_) => attach_error(config.driver@, *policy) is None,
            Err(e) => attach_error(config.driver@, *policy) == Some(e@),
        },
{
    match validate_network_driver(config.driver.as_str()) {
        Err(e) => Err(e),
        Ok(_) => match policy {
            Ok(_) => Ok(()),
            Err(e) => Err(cat2("Unsupported network isolation mode: ", e.as_str())),
        },
    }
}

/// What is said of a network that is not there.
pub open spec fn network_missing(name: Seq<char>) -> Seq<char> {
    "network '"@ + name + "' not found"@
}

/// The network of that name has to be there. `found` is what was looked up.
pub fn require_network(name: &str, found: Option<NetworkConfig>) -> (r: Result<
    NetworkConfig,
    String,
>)
    ensures
        match r {
            Ok(c) => found == Some(c),
            Err(e) => found is None && e@ == network_missing(name@),
        },
{
    match found {
        Some(c) => Ok(c),
        None => Err(cat3("network '", name, "' not found")),
    }
}

/// The network of that name has to be there, and boxes can be attached to it.
pub fn require_attachable(name: &str, found: Option<NetworkConfig>, policy: &Result<(), String>) -> (r:
    Result<NetworkConfig, String>)
    ensures
        match r {
            Ok(c) => found == Some(c) && attach_error(c.driver@, *policy) is None,
            Err(e) => match found {
                None => e@ == network_missing(name@),
                Some(c) => attach_error(c.driver@, *policy) == Some(e@),
            },
        },
{
    match require_network(name, found) {
        Err(e) => Err(e),
        Ok(c) => match validate_attachable_network(&c, policy) {
            Err(e) => Err(e),
            Ok(_) => Ok(c),
        },
    }
}

/// Puts a new endpoint for a box into a network. `allocated` is the endpoint
/// that the runtime has allocated for it.
pub fn attach_box(
    config: &mut NetworkConfig,
    box_id: &str,
    allocated: Result<NetworkEndpoint, String>,
) -> (r: Result<NetworkEndpoint, String>)
    ensures
        *final(config) == (NetworkConfig {
            endpoints: final(config).endpoints,
            ..*old(config)
        }),
        match r {
            Ok(e) => allocated == Ok::<NetworkEndpoint, String>(e) && final(config).endpoints@
                == old(config).endpoints@.insert(box_id@, e),
            Err(e) => allocated is Err && e@ == "Failed to connect to network: "@
                + allocated->Err_0@ && final(config).endpoints@ == old(config).endpoints@,
        },
{
    match allocated {
        Err(e) => Err(cat2("Failed to connect to network: ", e.as_str())),
        Ok(endpoint) => {
            config.endpoints.insert(box_id.to_string(), endpoint.clone());
            Ok(endpoint)
        },
    }
}

// ---------------------------------------------------------------------------
// network create
// ---------------------------------------------------------------------------

/// The isolation mode of that name.
pub open spec fn isolation_of(s: Seq<char>) -> Option<IsolationMode> {
    if s == "none"@ {
        Some(IsolationMode::Open)
    } else if s == "strict"@ {
        Some(IsolationMode::Strict)
    } else if s == "custom"@ {
        Some(IsolationMode::Custom)
    } else {
        None
    }
}

/// What is said of a text that names no isolation mode.
pub open spec fn unknown_isolation(s: Seq<char>) -> Seq<char> {
    "Unknown isolation mode '"@ + s + "'. Use: none, strict, custom"@
}

/// The isolation mode of that name.
pub fn parse_isolation(s: &str) -> (r: Result<IsolationMode, String>)
    ensures
        match r {
            Ok(m) => isolation_of(s@) == Some(m),
            Err(e) => isolation_of(s@) is None && e@ == unknown_isolation(s@),
        },
{
    if str_eq(s, "none") {
        Ok(IsolationMode::Open)
    } else if str_eq(s, "strict") {
        Ok(IsolationMode::Strict)
    } else if str_eq(s, "custom") {
        Ok(IsolationMode::Custom)
    } else {
        Err(cat3("Unknown isolation mode '", s, "'. Use: none, strict, custom"))
    }
}

/// Adds the labels to a map.
pub fn add_labels(map: &mut StrMap<String>, labels: &Vec<String>) -> (r: Result<(), String>)
    ensures
        match r {
            Ok(_) => common::with_pairs(strmap::texts(old(map)@), text::strs(labels@)) == Some(
                strmap::texts(final(map)@),
            ),
            Err(e) => common::with_pairs(strmap::texts(old(map)@), text::strs(labels@)) is None && exists|
                i: int,
            |
                common::first_without_equals(text::strs(labels@), i) && e@
                    == "Invalid label (expected KEY=VALUE): "@ + text::strs(labels@)[i],
        },
{
    match insert_pairs(map, labels) {
        Ok(_) => Ok(()),
        Err(label) => Err(cat2("Invalid label (expected KEY=VALUE): ", label.as_str())),
    }
}

/// The network that `network create` makes, before its labels: `base` is what
/// the runtime makes of the name and the subnet.
pub fn begin_create(args: &CreateArgs, base: Result<NetworkConfig, String>) -> (r: Result<
    NetworkConfig,
    String,
>)
    ensures
        match r {
            Ok(c) => {
                &&& args.driver@ == "bridge"@
                &&& base is Ok
                &&& isolation_of(args.isolation@) == Some(c.isolation)
                &&& c == (NetworkConfig {
                    driver: args.driver,
                    isolation: c.isolation,
                    ..base->Ok_0
                })
            },
            Err(e) => if args.driver@ != "bridge"@ {
                e@ == unsupported_driver(args.driver@)
            } else if base is Err {
                e@ == "Invalid network configuration: "@ + base->Err_0@
            } else {
                isolation_of(args.isolation@) is None && e@ == unknown_isolation(args.isolation@)
            },
        },
{
    match validate_network_driver(args.driver.as_str()) {
        Err(e) => {
            return Err(e);
        },
        Ok(_) => {},
    }
    match base {
        Err(e) => Err(cat2("Invalid network configuration: ", e.as_str())),
        Ok(config) => match parse_isolation(args.isolation.as_str()) {
            Err(e) => Err(e),
            Ok(isolation) => {
                let mut config = config;
                config.driver = args.driver.clone();
                config.isolation = isolation;
                Ok(config)
            },
        },
    }
}

/// The network that `network create` stores: one that boxes can be attached
/// to, with the labels added.
pub fn finish_create(
    config: NetworkConfig,
    policy: &Result<(), String>,
    labels: &Vec<String>,
) -> (r: Result<NetworkConfig, String>)
    ensures
        match r {
            Ok(c) => {
                &&& attach_error(config.driver@, *policy) is None
                &&& common::with_pairs(strmap::texts(config.labels@), text::strs(labels@)) == Some(
                    strmap::texts(c.labels@),
                )
                &&& c == (NetworkConfig { labels: c.labels, ..config })
            },
            Err(e) => match attach_error(config.driver@, *policy) {
                Some(msg) => e@ == msg,
                None => common::with_pairs(strmap::texts(config.labels@), text::strs(labels@)) is None
                    && exists|i: int|
                    common::first_without_equals(text::strs(labels@), i) && e@
                        == "Invalid label (expected KEY=VALUE): "@ + text::strs(labels@)[i],
            },
        },
{
    match validate_attachable_network(&config, policy) {
        Err(e) => Err(e),
        Ok(_) => {
            let NetworkConfig { name, driver, subnet, gateway, isolation, labels: own, endpoints } =
                config;
            let mut own = own;
            match add_labels(&mut own, labels) {
                Err(e) => Err(e),
                Ok(_) => Ok(
                    NetworkConfig { name, driver, subnet, gateway, isolation, labels: own, endpoints },
                ),
            }
        },
    }
}

// ---------------------------------------------------------------------------
// network prune and network ls
// ---------------------------------------------------------------------------

/// Whether a record, of a running box or not, is configured for the network.
pub open spec fn referenced(records: Seq<RecordView>, name: Seq<char>) -> bool {
    exists|i: int|
        0 <= i < records.len() && cleanup::network_of(#[trigger] records[i]) == Some(name)
}

/// Whether a record is configured for the network.
pub fn is_referenced(state: &StateFile, name: &str) -> (r: bool)
    ensures
        r == referenced(state@, name@),
{
    let mut i: usize = 0;
    while i < state.len()
        invariant
            i <= state@.len(),
            forall|j: int|
                0 <= j < i ==> cleanup::network_of(#[trigger] state@[j]) != Some(name@),
        decreases state@.len() - i,
    {
        let record: &BoxRecord = state.get(i);
        match record_network_name(record) {
            Some(n) => if str_eq(n.as_str(), name) {
                assert(cleanup::network_of(state@[i as int]) == Some(name@));
                return true;
            },
            None => {},
        }
        i = i + 1;
    }
    false
}

/// Whether a network has no attachments: no live endpoints and no box record
/// (running or stopped) configured for it.
pub fn network_is_unused(config: &NetworkConfig, state: &StateFile) -> (r: bool)
    ensures
        r == (config.endpoints@ == Map::<Seq<char>, NetworkEndpoint>::empty() && !referenced(
            state@,
            config.name@,
        )),
{
    config.endpoints.is_empty() && !is_referenced(state, config.name.as_str())
}

/// Whether `network prune` removes the network.
pub open spec fn prunable(c: NetworkConfig, records: Seq<RecordView>) -> bool {
    !predefined(c.name@) && c.endpoints@ == Map::<Seq<char>, NetworkEndpoint>::empty()
        && !referenced(records, c.name@)
}

/// The names of networks.
pub open spec fn network_names(v: Seq<NetworkConfig>) -> Seq<Seq<char>> {
    v.map_values(|c: NetworkConfig| c.name@)
}

/// The names of the networks that `network prune` removes, in their order.
pub open spec fn prune_list(
    networks: Seq<NetworkConfig>,
    order: Seq<usize>,
    records: Seq<RecordView>,
) -> Seq<Seq<char>> {
    network_names(
        order.map_values(|i: usize| networks[i as int]).filter(
            |c: NetworkConfig| prunable(c, records),
        ),
    )
}

/// The names of the networks.
pub fn names_of(networks: &Vec<NetworkConfig>) -> (r: Vec<String>)
    ensures
        text::strs(r@) == network_names(networks@),
{
    broadcast use crate::text::lemma_strs_push;

    let mut out: Vec<String> = Vec::new();
    let mut i: usize = 0;
    while i < networks.len()
        invariant
            i <= networks.len(),
            text::strs(out@) =~= network_names(networks@).take(i as int),
        decreases networks.len() - i,
    {
        proof {
            let all = network_names(networks@);
            assert(all.take(i + 1) =~= all.take(i as int).push(networks@[i as int].name@));
        }
        out.push(networks[i].name.clone());
        i = i + 1;
    }
    out
}

/// The networks that a prune removes, by name: every unused network that is
/// not predefined, in the order of their names. `network prune` and
/// `system prune` share it.
pub fn prune_unused_networks(networks: &Vec<NetworkConfig>, state: &StateFile) -> (r: Vec<String>)
    ensures
        exists|order: Seq<usize>| #[trigger]
            sort::is_order(network_names(networks@), order) && text::strs(r@) == prune_list(
                networks@,
                order,
                state@,
            ),
{
    broadcast use crate::text::lemma_strs_push;

    let keys: Vec<String> = names_of(networks);
    let order: Vec<usize> = sorted_order(&keys);
    let ghost all = order@.map_values(|i: usize| networks@[i as int]);
    let ghost p = |c: NetworkConfig| prunable(c, state@);
    let mut out: Vec<String> = Vec::new();
    let mut i: usize = 0;
    proof {
        seqs::lemma_filter_none(all, p);
        assert(text::strs(out@) =~= network_names(all.take(0).filter(p)));
    }
    while i < order.len()
        invariant
            i <= order.len(),
            order.len() == networks.len(),
            forall|j: int| 0 <= j < order.len() ==> (#[trigger] order@[j]) < networks.len(),
            all == order@.map_values(|i: usize| networks@[i as int]),
            p == (|c: NetworkConfig| prunable(c, state@)),
            text::strs(out@) == network_names(all.take(i as int).filter(p)),
        decreases order.len() - i,
    {
        let net: &NetworkConfig = &networks[order[i]];
        proof {
            seqs::lemma_filter_step(all, p, i as int);
            let f = all.take(i as int).filter(p);
            assert(network_names(f.push(*net)) =~= network_names(f).push(net.name@));
        }
        if !is_predefined_network(net.name.as_str()) && network_is_unused(net, state) {
            out.push(net.name.clone());
        }
        i = i + 1;
    }
    proof {
        assert(all.take(i as int) =~= all);
        assert(text::strs(out@) == prune_list(networks@, order@, state@));
    }
    out
}

/// A prune keeps what is predefined, has an endpoint or is configured on a
/// box, running or stopped, and removes nothing that is not there.
pub proof fn lemma_prune_keeps(
    networks: Seq<NetworkConfig>,
    order: Seq<usize>,
    records: Seq<RecordView>,
    name: Seq<char>,
)
    requires
        sort::is_order(network_names(networks), order),
        prune_list(networks, order, records).contains(name),
    ensures
        exists|i: int|
            0 <= i < networks.len() && (#[trigger] networks[i]).name@ == name && prunable(
                networks[i],
                records,
            ),
{
    let all = order.map_values(|i: usize| networks[i as int]);
    let p = |c: NetworkConfig| prunable(c, records);
    let kept = all.filter(p);
    let k = choose|k: int| 0 <= k < network_names(kept).len() && network_names(kept)[k] == name;
    let c = kept[k];
    assert(kept.contains(c));
    seqs::lemma_filter_contains(all, p, c);
    let j = choose|j: int| 0 <= j < all.len() && all[j] == c;
    assert(networks[order[j] as int] == c);
}

/// The outcome of removing networks one by one: the names of those that went,
/// and a line for each that did not.
pub fn removal_report(names: &Vec<String>, outcomes: &Vec<Result<(), String>>) -> (r: (
    Vec<String>,
    Vec<String>,
))
    requires
        names.len() == outcomes.len(),
    ensures
        text::strs(r.0@) == removed_names(text::strs(names@), outcomes@),
        text::strs(r.1@) == removal_errors(text::strs(names@), outcomes@),
{
    broadcast use crate::text::lemma_strs_push;

    let ghost ns = text::strs(names@);
    let mut removed: Vec<String> = Vec::new();
    let mut errors: Vec<String> = Vec::new();
    let mut i: usize = 0;
    proof {
        assert(text::strs(removed@) =~= Seq::empty());
        assert(text::strs(errors@) =~= Seq::empty());
    }
    while i < names.len()
        invariant
            i <= names.len() == outcomes.len(),
            ns == text::strs(names@),
            text::strs(removed@) == removed_names(ns.take(i as int), outcomes@.take(i as int)),
            text::strs(errors@) == removal_errors(ns.take(i as int), outcomes@.take(i as int)),
        decreases names.len() - i,
    {
        proof {
            assert(ns.take(i + 1).drop_last() =~= ns.take(i as int));
            assert(outcomes@.take(i + 1).drop_last() =~= outcomes@.take(i as int));
            assert(ns.take(i + 1).last() == names@[i as int]@);
            assert(outcomes@.take(i + 1).last() == outcomes@[i as int]);
        }
        match &outcomes[i] {
            Ok(_) => {
                removed.push(names[i].clone());
            },
            Err(e) => {
                errors.push(cat3(names[i].as_str(), ": ", e.as_str()));
            },
        }
        i = i + 1;
    }
    proof {
        assert(ns.take(i as int) =~= ns);
        assert(outcomes@.take(i as int) =~= outcomes@);
    }
    (removed, errors)
}

/// The names whose removal succeeded.
pub open spec fn removed_names(
    names: Seq<Seq<char>>,
    outcomes: Seq<Result<(), String>>,
) -> Seq<Seq<char>>
    decreases names.len(),
{
    if names.len() == 0 {
        seq![]
    } else {
        let before = removed_names(names.drop_last(), outcomes.drop_last());
        if outcomes.last() is Ok {
            before.push(names.last())
        } else {
            before
        }
    }
}

/// A line for each name whose removal failed.
pub open spec fn removal_errors(
    names: Seq<Seq<char>>,
    outcomes: Seq<Result<(), String>>,
) -> Seq<Seq<char>>
    decreases names.len(),
{
    if names.len() == 0 {
        seq![]
    } else {
        let before = removal_errors(names.drop_last(), outcomes.drop_last());
        match outcomes.last() {
            Ok(_) => before,
            Err(e) => before.push(names.last() + ": "@ + e@),
        }
    }
}

/// The name of an isolation mode in a listing.
pub open spec fn isolation_label(m: IsolationMode) -> Seq<char> {
    match m {
        IsolationMode::Open => "none"@,
        IsolationMode::Strict => "strict"@,
        IsolationMode::Custom => "custom"@,
    }
}

/// A listing shows a mode under the name by which `network create` knows it.
pub proof fn lemma_isolation_label(m: IsolationMode)
    ensures
        isolation_of(isolation_label(m)) == Some(m),
{
    reveal_strlit("none");
    reveal_strlit("strict");
    reveal_strlit("custom");
    assert("none"@.len() == 4 && "strict"@.len() == 6 && "custom"@.len() == 6);
    assert("strict"@[0] == 's' && "custom"@[0] == 'c');
}

/// The row of a network in `network ls`: name, driver, subnet, gateway,
/// isolation and number of endpoints.
pub fn ls_row(config: &NetworkConfig) -> (r: Vec<String>)
    ensures
        text::strs(r@) == seq![
            config.name@,
            config.driver@,
            config.subnet@,
            config.gateway@,
            isolation_label(config.isolation),
            number::decimal(config.endpoints@.dom().len()),
        ],
{
    let isolation: &str = match config.isolation {
        IsolationMode::Open => "none",
        IsolationMode::Strict => "strict",
        IsolationMode::Custom => "custom",
    };
    let r: Vec<String> = vec![
        config.name.clone(),
        config.driver.clone(),
        config.subnet.clone(),
        config.gateway.clone(),
        isolation.to_string(),
        usize_text(config.endpoints.len()),
    ];
    assert(text::strs(r@) =~= seq![
        config.name@,
        config.driver@,
        config.subnet@,
        config.gateway@,
        isolation_label(config.isolation),
        number::decimal(config.endpoints@.dom().len()),
    ]);
    r
}

// ---------------------------------------------------------------------------
// network rm
// ---------------------------------------------------------------------------

/// The first record with that identifier belongs to a box that runs.
pub open spec fn id_active(records: Seq<RecordView>, id: Seq<char>, i: int) -> bool {
    state::first_with_id(records, id, i) && state::active(records[i].status)
}

/// An endpoint of the network belongs to a box that runs, under that name.
pub open spec fn endpoint_blocks(
    endpoints: Map<Seq<char>, NetworkEndpoint>,
    records: Seq<RecordView>,
    name: Seq<char>,
) -> bool {
    exists|k: Seq<char>, i: int| #[trigger]
        endpoints.dom().contains(k) && #[trigger] id_active(records, endpoints[k].box_id@, i)
            && records[i].name == name
}

/// A record that is configured for the network belongs to a box that runs,
/// under that name.
pub open spec fn record_blocks(
    records: Seq<RecordView>,
    network: Seq<char>,
    name: Seq<char>,
) -> bool {
    exists|j: int, i: int|
        0 <= j < records.len() && cleanup::network_of(#[trigger] records[j]) == Some(network)
            && #[trigger] id_active(records, records[j].id, i) && records[i].name == name
}

/// Whether a record loses its network when the network is removed by force: it
/// is the first with its identifier, and one with that identifier is
/// configured for the network.
pub open spec fn loses_network(
    records: Seq<RecordView>,
    ids: Seq<Seq<char>>,
    i: int,
) -> bool {
    ids.contains(records[i].id) && state::first_with_id(records, records[i].id, i)
}

/// A record without its network.
pub open spec fn without_network(r: RecordView) -> RecordView {
    RecordView { network_mode: NetworkModeView::Tsi, network_name: None, ..r }
}

/// The identifiers of the records that are configured for the network.
pub open spec fn configured_ids(records: Seq<RecordView>, network: Seq<char>) -> Seq<Seq<char>> {
    records.filter(configured_for(network)).map_values(record_id())
}

/// Whether a record is configured for the network.
pub open spec fn configured_for(network: Seq<char>) -> spec_fn(RecordView) -> bool {
    |r: RecordView| cleanup::network_of(r) == Some(network)
}

/// The identifier of a record.
pub open spec fn record_id() -> spec_fn(RecordView) -> Seq<char> {
    |r: RecordView| r.id
}

/// A record that is configured for the network stands behind every identifier.
proof fn lemma_configured_at(records: Seq<RecordView>, network: Seq<char>, k: int) -> (j: int)
    requires
        0 <= k < configured_ids(records, network).len(),
    ensures
        0 <= j < records.len(),
        cleanup::network_of(records[j]) == Some(network),
        records[j].id == configured_ids(records, network)[k],
{
    let f = records.filter(configured_for(network));
    assert(f.contains(f[k]));
    seqs::lemma_filter_contains(records, configured_for(network), f[k]);
    choose|j: int| 0 <= j < records.len() && records[j] == f[k]
}

/// Every record that is configured for the network has its identifier listed.
proof fn lemma_configured_listed(records: Seq<RecordView>, network: Seq<char>, j: int) -> (k: int)
    requires
        0 <= j < records.len(),
        cleanup::network_of(records[j]) == Some(network),
    ensures
        0 <= k < configured_ids(records, network).len(),
        configured_ids(records, network)[k] == records[j].id,
{
    let f = records.filter(configured_for(network));
    assert(records.contains(records[j]));
    seqs::lemma_filter_contains(records, configured_for(network), records[j]);
    choose|k: int| 0 <= k < f.len() && f[k] == records[j]
}

/// The identifiers of the records that are configured for the network.
fn collect_configured(state: &StateFile, network: &str) -> (r: Vec<String>)
    ensures
        text::strs(r@) == configured_ids(state@, network@),
{
    broadcast use crate::text::lemma_strs_push;

    let ghost p = configured_for(network@);
    let ghost id = record_id();
    let mut out: Vec<String> = Vec::new();
    let mut i: usize = 0;
    proof {
        seqs::lemma_filter_none(state@, p);
        assert(text::strs(out@) =~= state@.take(0).filter(p).map_values(id));
    }
    while i < state.len()
        invariant
            i <= state@.len(),
            p == configured_for(network@),
            id == record_id(),
            text::strs(out@) == state@.take(i as int).filter(p).map_values(id),
        decreases state@.len() - i,
    {
        let record: &BoxRecord = state.get(i);
        proof {
            seqs::lemma_filter_step(state@, p, i as int);
            let f = state@.take(i as int).filter(p);
            assert(f.push(record@).map_values(id) =~= f.map_values(id).push(record@.id));
        }
        let configured: bool = match record_network_name(record) {
            Some(n) => str_eq(n.as_str(), network),
            None => false,
        };
        if configured {
            out.push(record.id.clone());
        }
        i = i + 1;
    }
    assert(state@.take(i as int) =~= state@);
    out
}

/// Takes every endpoint out of a network that is removed by force, and the
/// network out of every record that is configured for it. Refuses where a box
/// of the network runs; then nothing changes. Tells whether a record changed.
pub fn force_disconnect_network_endpoints(
    state: &mut StateFile,
    network_name: &str,
    config: &mut NetworkConfig,
) -> (r: Result<bool, String>)
    ensures
        match r {
            Ok(changed) => {
                let ids = configured_ids(old(state)@, network_name@);
                &&& forall|n: Seq<char>| !endpoint_blocks(old(config).endpoints@, old(state)@, n)
                &&& forall|n: Seq<char>| !record_blocks(old(state)@, network_name@, n)
                &&& changed == (ids.len() > 0)
                &&& *final(config) == (NetworkConfig {
                    endpoints: final(config).endpoints,
                    ..*old(config)
                })
                &&& final(config).endpoints@ == Map::<Seq<char>, NetworkEndpoint>::empty()
                &&& final(state)@.len() == old(state)@.len()
                &&& forall|i: int|
                    0 <= i < old(state)@.len() ==> #[trigger] final(state)@[i] == if loses_network(
                        old(state)@,
                        ids,
                        i,
                    ) {
                        without_network(old(state)@[i])
                    } else {
                        old(state)@[i]
                    }
            },
            Err(e) => {
                &&& *final(config) == *old(config)
                &&& final(state)@ == old(state)@
                &&& (exists|n: Seq<char>| #[trigger]
                    endpoint_blocks(old(config).endpoints@, old(state)@, n) && e@ == "network '"@
                        + network_name@ + "' has active box "@ + n
                        + ". Stop it before force-removing the network because network hot-plug is not supported yet."@)
                    || (exists|n: Seq<char>| #[trigger]
                    record_blocks(old(state)@, network_name@, n) && (forall|m: Seq<char>|
                        !endpoint_blocks(old(config).endpoints@, old(state)@, m)) && e@
                        == "network '"@ + network_name@ + "' is configured on active box "@ + n
                        + ". Stop it before force-removing the network because network hot-plug is not supported yet."@)
            },
        },
{
    let ids: Vec<String> = collect_configured(state, network_name);
    let ghost before = state@;
    let ghost ends = config.endpoints@;
    let ghost wanted = configured_ids(before, network_name@);
    let count: usize = config.endpoints.len();
    let mut i: usize = 0;
    while i < count
        invariant
            i <= count,
            *config == *old(config),
            *state == *old(state),
            before == state@,
            ends == config.endpoints@,
            count == config.endpoints.key_list().len(),
            forall|j: int, a: int|
                0 <= j < i ==> !(#[trigger] id_active(
                    before,
                    ends[config.endpoints.key_list()[j]].box_id@,
                    a,
                )),
        decreases count - i,
    {
        let (key, endpoint) = config.endpoints.entry(i);
        match state.find_by_id(endpoint.box_id.as_str()) {
            Some(record) => {
                if is_active(record) {
                    proof {
                        let w = choose|w: int|
                            state::first_with_id(before, endpoint.box_id@, w) && record@
                                == before[w];
                        assert(id_active(before, ends[key@].box_id@, w));
                        assert(endpoint_blocks(ends, before, record@.name));
                    }
                    return Err(
                        cat5(
                            "network '",
                            network_name,
                            "' has active box ",
                            record.name.as_str(),
                            ". Stop it before force-removing the network because network hot-plug is not supported yet.",
                        ),
                    );
                }
            },
            None => {},
        }
        i = i + 1;
    }
    proof {
        assert forall|n: Seq<char>| !endpoint_blocks(ends, before, n) by {
            if endpoint_blocks(ends, before, n) {
                let (k, a) = choose|k: Seq<char>, a: int| #[trigger]
                    ends.dom().contains(k) && #[trigger] id_active(before, ends[k].box_id@, a)
                        && before[a].name == n;
                strmap::lemma_keys(&config.endpoints, k);
                let j = choose|j: int|
                    0 <= j < config.endpoints.key_list().len() && config.endpoints.key_list()[j]
                        == k;
                assert(!id_active(before, ends[config.endpoints.key_list()[j]].box_id@, a));
            }
        }
    }
    let mut i: usize = 0;
    while i < ids.len()
        invariant
            i <= ids.len(),
            *config == *old(config),
            *state == *old(state),
            before == state@,
            ends == old(config).endpoints@,
            wanted == configured_ids(before, network_name@),
            text::strs(ids@) == wanted,
            forall|n: Seq<char>| !endpoint_blocks(ends, before, n),
            forall|j: int, a: int|
                0 <= j < i ==> !(#[trigger] id_active(before, wanted[j], a)),
        decreases ids.len() - i,
    {
        assert(wanted[i as int] == ids@[i as int]@);
        match state.find_by_id(ids[i].as_str()) {
            Some(record) => {
                if is_active(record) {
                    proof {
                        let w = choose|w: int|
                            state::first_with_id(before, ids@[i as int]@, w) && record@
                                == before[w];
                        let j = lemma_configured_at(before, network_name@, i as int);
                        assert(id_active(before, before[j].id, w));
                        assert(record_blocks(before, network_name@, record@.name));
                    }
                    return Err(
                        cat5(
                            "network '",
                            network_name,
                            "' is configured on active box ",
                            record.name.as_str(),
                            ". Stop it before force-removing the network because network hot-plug is not supported yet.",
                        ),
                    );
                }
            },
            None => {},
        }
        i = i + 1;
    }
    proof {
        assert forall|n: Seq<char>| !record_blocks(before, network_name@, n) by {
            if record_blocks(before, network_name@, n) {
                let (j, a) = choose|j: int, a: int|
                    0 <= j < before.len() && cleanup::network_of(#[trigger] before[j]) == Some(
                        network_name@,
                    ) && #[trigger] id_active(before, before[j].id, a) && before[a].name == n;
                let k = lemma_configured_listed(before, network_name@, j);
                assert(!id_active(before, wanted[k], a));
            }
        }
    }
    config.endpoints = StrMap::new();
    let mut i: usize = 0;
    assert(wanted.take(0) =~= Seq::<Seq<char>>::empty());
    while i < ids.len()
        invariant
            i <= ids.len(),
            text::strs(ids@) == wanted,
            state@.len() == before.len(),
            forall|k: int|
                0 <= k < before.len() ==> #[trigger] state@[k] == if loses_network(
                    before,
                    wanted.take(i as int),
                    k,
                ) {
                    without_network(before[k])
                } else {
                    before[k]
                },
        decreases ids.len() - i,
    {
        assert(wanted[i as int] == ids@[i as int]@);
        let ghost now = state@;
        proof {
            let t = wanted.take(i as int);
            let u = wanted.take(i + 1);
            assert(u =~= t.push(wanted[i as int]));
            assert forall|x: Seq<char>| u.contains(x) <==> t.contains(x) || x == wanted[i as int] by {
                if t.contains(x) {
                    let w = choose|w: int| 0 <= w < t.len() && t[w] == x;
                    assert(u[w] == x);
                }
                if x == wanted[i as int] {
                    assert(u[i as int] == x);
                }
            }
        }
        match state.position(ids[i].as_str()) {
            Some(at) => {
                let mut record: BoxRecord = state.get(at).clone();
                clear_record_network(&mut record);
                state.set(at, record);
                proof {
                    assert(state::first_with_id(now, wanted[i as int], at as int));
                    assert forall|k: int| 0 <= k < now.len() implies now[k].id == before[k].id by {
                        assert(now[k] == now[k]);
                    }
                    assert(state::first_with_id(before, wanted[i as int], at as int));
                    assert forall|k: int| 0 <= k < before.len() implies #[trigger] state@[k]
                        == if loses_network(before, wanted.take(i + 1), k) {
                        without_network(before[k])
                    } else {
                        before[k]
                    } by {
                        if before[k].id == wanted[i as int] && state::first_with_id(
                            before,
                            before[k].id,
                            k,
                        ) {
                            assert(k == at);
                        }
                    }
                }
            },
            None => {
                assert forall|k: int| 0 <= k < now.len() implies now[k].id == before[k].id by {
                    assert(now[k] == now[k]);
                }
            },
        }
        i = i + 1;
    }
    assert(wanted.take(i as int) =~= wanted);
    Ok(ids.len() > 0)
}

// ---------------------------------------------------------------------------
// network connect and network disconnect
// ---------------------------------------------------------------------------

/// What is said where a change of network would hit a running box.
pub open spec fn hot_plug_error(action: Seq<char>, name: Seq<char>) -> Seq<char> {
    "Cannot "@ + action + " box "@ + name
        + " because network hot-plug is not supported yet. Stop it first, run the network command, then start it again."@
}

/// The network of a box changes only while the box does not run.
pub fn require_inactive_for_network_change(record: &BoxRecord, action: &str) -> (r: Result<
    (),
    String,
>)
    ensures
        match r {
            Ok(_) => !state::active(record@.status),
            Err(e) => state::active(record@.status) && e@ == hot_plug_error(
                action@,
                record@.name,
            ),
        },
{
    if !is_active(record) {
        Ok(())
    } else {
        Err(
            cat5(
                "Cannot ",
                action,
                " box ",
                record.name.as_str(),
                " because network hot-plug is not supported yet. Stop it first, run the network command, then start it again.",
            ),
        )
    }
}

/// Puts the box into the network.
pub fn set_record_network(record: &mut BoxRecord, network: &str)
    ensures
        final(record)@ == (RecordView {
            network_mode: NetworkModeView::Bridge { network: network@ },
            network_name: Some(network@),
            ..old(record)@
        }),
{
    record.network_mode = NetworkMode::Bridge { network: network.to_string() };
    record.network_name = Some(network.to_string());
}

/// Takes the box out of its network.
pub fn clear_record_network(record: &mut BoxRecord)
    ensures
        final(record)@ == (RecordView {
            network_mode: NetworkModeView::Tsi,
            network_name: None,
            ..old(record)@
        }),
{
    record.network_mode = NetworkMode::Tsi;
    record.network_name = None;
}

/// A box that was put into a network belongs to it, and one that was taken out
/// belongs to none.
pub proof fn lemma_set_and_clear(r: RecordView, network: Seq<char>)
    ensures
        cleanup::network_of(
            RecordView {
                network_mode: NetworkModeView::Bridge { network },
                network_name: Some(network),
                ..r
            },
        ) == Some(network),
        cleanup::network_of(
            RecordView { network_mode: NetworkModeView::Tsi, network_name: None, ..r },
        ) is None,
{
}

/// Why `network connect` refuses a box, where it does: it runs, or it belongs
/// to another network.
pub open spec fn connect_error(r: RecordView, network: Seq<char>) -> Option<Seq<char>> {
    if state::active(r.status) {
        Some(hot_plug_error("connect to a network"@, r.name))
    } else {
        match cleanup::network_of(r) {
            Some(existing) => if existing != network {
                Some(
                    "Box "@ + r.name + " is already configured for network '"@ + existing
                        + "'. Disconnect it before connecting to '"@ + network + "'."@,
                )
            } else {
                None
            },
            None => None,
        }
    }
}

/// Whether a box can be connected to the network.
pub fn check_connect(record: &BoxRecord, network: &str) -> (r: Result<(), String>)
    ensures
        match r {
            Ok(_) => connect_error(record@, network@) is None,
            Err(e) => connect_error(record@, network@) == Some(e@),
        },
{
    match require_inactive_for_network_change(record, "connect to a network") {
        Err(e) => {
            return Err(e);
        },
        Ok(_) => {},
    }
    match record_network_name(record) {
        Some(existing) => if !str_eq(existing.as_str(), network) {
            return Err(
                cat7(
                    "Box ",
                    record.name.as_str(),
                    " is already configured for network '",
                    existing.as_str(),
                    "'. Disconnect it before connecting to '",
                    network,
                    "'.",
                ),
            );
        },
        None => {},
    }
    Ok(())
}

/// The endpoint of a box in a network: the one it has, under the box's present
/// name, else the one that the runtime has allocated for it.
pub fn ensure_endpoint(
    config: &mut NetworkConfig,
    box_id: &str,
    box_name: &str,
    allocated: Result<NetworkEndpoint, String>,
) -> (r: Result<NetworkEndpoint, String>)
    ensures
        ({
            let before = old(config).endpoints@;
            let after = final(config).endpoints@;
            if before.dom().contains(box_id@) {
                &&& r is Ok
                &&& r->Ok_0@ == (EndpointView { box_name: box_name@, ..before[box_id@]@ })
                &&& after == before.insert(box_id@, r->Ok_0)
            } else {
                &&& r == allocated
                &&& r is Ok ==> after == before.insert(box_id@, r->Ok_0)
                &&& r is Err ==> after == before
            }
        }),
        *final(config) == (NetworkConfig {
            endpoints: final(config).endpoints,
            ..*old(config)
        }),
{
    let endpoint: NetworkEndpoint = match config.endpoints.get(box_id) {
        Some(e) => NetworkEndpoint {
            box_id: e.box_id.clone(),
            box_name: box_name.to_string(),
            ip_address: e.ip_address.clone(),
        },
        None => match allocated {
            Ok(e) => e,
            Err(e) => {
                return Err(e);
            },
        },
    };
    let kept: NetworkEndpoint = endpoint.clone();
    config.endpoints.insert(box_id.to_string(), kept);
    Ok(endpoint)
}

/// What `network disconnect` changes.
#[derive(Clone, Copy, Debug, PartialEq, Eq, Structural)]
pub struct DisconnectPlan {
    /// The endpoint leaves the network, and the network is stored.
    pub drop_endpoint: bool,
    /// The box no longer belongs to the network, and the state is stored.
    pub clear_record: bool,
}

/// Why `network disconnect` refuses, where it does. `endpoints` are the boxes
/// of the network, where there is one of that name.
pub open spec fn disconnect_error(
    r: RecordView,
    network: Seq<char>,
    force: bool,
    endpoints: Option<Set<Seq<char>>>,
) -> Option<Seq<char>> {
    if state::active(r.status) {
        Some(hot_plug_error("disconnect from a network"@, r.name))
    } else if cleanup::network_of(r) != Some(network) && !force {
        Some(
            "Box "@ + r.name + " is not configured for network '"@ + network
                + "'. Use --force to remove a stale endpoint only."@,
        )
    } else if endpoints is None && !force {
        Some("network '"@ + network + "' not found"@)
    } else {
        None
    }
}

/// The boxes of a network, where there is one.
pub open spec fn endpoint_ids(config: Option<&NetworkConfig>) -> Option<Set<Seq<char>>> {
    match config {
        Some(c) => Some(c.endpoints@.dom()),
        None => None,
    }
}

/// What `network disconnect` does with a box. `config` is the network, where
/// there is one of that name.
pub fn plan_disconnect(
    record: &BoxRecord,
    network: &str,
    force: bool,
    config: Option<&NetworkConfig>,
) -> (r: Result<DisconnectPlan, String>)
    ensures
        match r {
            Ok(plan) => {
                &&& disconnect_error(record@, network@, force, endpoint_ids(config)) is None
                &&& plan.drop_endpoint == (config is Some && config->0.endpoints@.dom().contains(
                    record@.id,
                ))
                &&& plan.clear_record == (cleanup::network_of(record@) == Some(network@))
            },
            Err(e) => disconnect_error(record@, network@, force, endpoint_ids(config)) == Some(e@),
        },
{
    match require_inactive_for_network_change(record, "disconnect from a network") {
        Err(e) => {
            return Err(e);
        },
        Ok(_) => {},
    }
    let configured: bool = match record_network_name(record) {
        Some(n) => str_eq(n.as_str(), network),
        None => false,
    };
    if !configured && !force {
        return Err(
            cat5(
                "Box ",
                record.name.as_str(),
                " is not configured for network '",
                network,
                "'. Use --force to remove a stale endpoint only.",
            ),
        );
    }
    match config {
        Some(c) => Ok(
            DisconnectPlan {
                drop_endpoint: c.endpoints.contains_key(record.id.as_str()),
                clear_record: configured,
            },
        ),
        None => if !force {
            Err(cat3("network '", network, "' not found"))
        } else {
            Ok(DisconnectPlan { drop_endpoint: false, clear_record: configured })
        },
    }
}

// ---------------------------------------------------------------------------
// What changes on a network
// ---------------------------------------------------------------------------

/// The networks that are always there are these three.
pub proof fn lemma_predefined_networks(name: &str, r: bool)
    requires
        call_ensures(is_predefined_network, (name,), r),
    ensures
        r <==> name@ == "bridge"@ || name@ == "host"@ || name@ == "none"@,
{
}

/// A network may be attached to exactly where it is a bridge whose isolation is
/// accepted, and one that is not there may not.
pub proof fn lemma_attachable(
    name: &str,
    found: Option<NetworkConfig>,
    policy: Result<(), String>,
    r: Result<NetworkConfig, String>,
    driver: &str,
    accepted: Result<(), String>,
)
    requires
        call_ensures(require_attachable, (name, found, &policy), r),
        call_ensures(validate_network_driver, (driver,), accepted),
    ensures
        r is Ok <==> found is Some && found->0.driver@ == "bridge"@ && policy is Ok,
        r is Ok ==> r->Ok_0 == found->0,
        accepted is Ok <==> driver@ == "bridge"@,
{
}

/// A network that is created has the driver, the isolation and the labels that were
/// asked for, and the rest of the configuration it was given.
pub proof fn lemma_created_as_asked(
    args: CreateArgs,
    base: Result<NetworkConfig, String>,
    policy: Result<(), String>,
    first: Result<NetworkConfig, String>,
    c: NetworkConfig,
)
    requires
        call_ensures(begin_create, (&args, base), first),
        first is Ok,
        call_ensures(finish_create, (first->Ok_0, &policy, &args.labels), Ok::<NetworkConfig, String>(c)),
    ensures
        base is Ok,
        c.driver@ == args.driver@ && c.driver@ == "bridge"@,
        args.isolation@ == "none"@ ==> c.isolation is Open,
        args.isolation@ == "strict"@ ==> c.isolation is Strict,
        args.isolation@ == "custom"@ ==> c.isolation is Custom,
        c.name == base->Ok_0.name && c.subnet == base->Ok_0.subnet && c.gateway == base->Ok_0.gateway,
        c.endpoints == base->Ok_0.endpoints,
        policy is Ok,
        args.labels@.len() == 0 ==> strmap::texts(c.labels@) == strmap::texts(base->Ok_0.labels@),
{
    reveal_strlit("none");
    reveal_strlit("strict");
    reveal_strlit("custom");
    assert("none"@.len() == 4 && "strict"@.len() == 6 && "custom"@.len() == 6);
    assert("strict"@[0] == 's' && "custom"@[0] == 'c');
    assert(text::strs(args.labels@).len() == args.labels@.len());
}

/// A network counts as referenced exactly where some box is set up for it.
pub proof fn lemma_referenced_by_a_box(state: StateFile, name: &str, i: int, r: bool)
    requires
        call_ensures(is_referenced, (&state, name), r),
        0 <= i < state@.len(),
    ensures
        state@[i].network_name == Some(name@) ==> r,
        state@[i].network_name is None && state@[i].network_mode == (NetworkModeView::Bridge {
            network: name@,
        }) ==> r,
        (forall|k: int|
            0 <= k < state@.len() ==> (#[trigger] state@[k]).network_name != Some(name@)
                && state@[k].network_mode != (NetworkModeView::Bridge { network: name@ })) ==> !r,
{
    assert(cleanup::network_of(state@[i]) == Some(name@) ==> referenced(state@, name@));
}

/// A network is pruned only where no box is on it or set up for it, and never one of
/// those that are always there; and each such network is.
pub proof fn lemma_pruned_is_unused(
    networks: Vec<NetworkConfig>,
    state: StateFile,
    r: Vec<String>,
    k: int,
)
    requires
        call_ensures(prune_unused_networks, (&networks, &state), r),
        0 <= k < r@.len(),
    ensures
        r@[k]@ != "bridge"@ && r@[k]@ != "host"@ && r@[k]@ != "none"@,
        forall|i: int|
            0 <= i < state@.len() ==> cleanup::network_of(#[trigger] state@[i]) != Some(r@[k]@),
        exists|i: int|
            0 <= i < networks@.len() && (#[trigger] networks@[i]).name@ == r@[k]@
                && networks@[i].endpoints@ == Map::<Seq<char>, NetworkEndpoint>::empty(),
{
    let order = choose|order: Seq<usize>| #[trigger]
        sort::is_order(network_names(networks@), order) && text::strs(r@) == prune_list(
            networks@,
            order,
            state@,
        );
    let name = r@[k]@;
    assert(text::strs(r@)[k] == name);
    assert(text::strs(r@).contains(name));
    lemma_prune_keeps(networks@, order, state@, name);
    let n = choose|n: int|
        0 <= n < networks@.len() && (#[trigger] networks@[n]).name@ == name && prunable(
            networks@[n],
            state@,
        );
    assert forall|i: int| 0 <= i < state@.len() implies cleanup::network_of(#[trigger] state@[i]) != Some(
        name,
    ) by {
        if cleanup::network_of(state@[i]) == Some(name) {
            assert(referenced(state@, name));
        }
    }
}

/// What was removed and what could not be are told, each name on one of the two
/// lists.
pub proof fn lemma_removals_told(
    names: Vec<String>,
    outcomes: Vec<Result<(), String>>,
    r: (Vec<String>, Vec<String>),
    i: int,
)
    requires
        names@.len() == outcomes@.len(),
        call_ensures(removal_report, (&names, &outcomes), r),
        0 <= i < names@.len(),
    ensures
        r.0@.len() + r.1@.len() == names@.len(),
        outcomes@[i] is Ok ==> text::strs(r.0@).contains(names@[i]@),
        outcomes@[i] is Err ==> text::strs(r.1@).contains(names@[i]@ + ": "@ + outcomes@[i]->Err_0@),
{
    lemma_report(text::strs(names@), outcomes@, i);
    assert(text::strs(r.0@).len() == r.0@.len() && text::strs(r.1@).len() == r.1@.len());
    assert(text::strs(names@)[i] == names@[i]@);
}

/// Each name is on one of the two lists.
proof fn lemma_report(names: Seq<Seq<char>>, outcomes: Seq<Result<(), String>>, i: int)
    requires
        names.len() == outcomes.len(),
        0 <= i < names.len(),
    ensures
        removed_names(names, outcomes).len() + removal_errors(names, outcomes).len() == names.len(),
        outcomes[i] is Ok ==> removed_names(names, outcomes).contains(names[i]),
        outcomes[i] is Err ==> removal_errors(names, outcomes).contains(
            names[i] + ": "@ + outcomes[i]->Err_0@,
        ),
    decreases names.len(),
{
    let n = names.drop_last();
    let o = outcomes.drop_last();
    if n.len() > 0 {
        lemma_report(
            n,
            o,
            if i < n.len() {
                i
            } else {
                0
            },
        );
    } else {
        assert(removed_names(n, o).len() == 0 && removal_errors(n, o).len() == 0);
    }
    let a = removed_names(names, outcomes);
    let b = removal_errors(names, outcomes);
    if i < n.len() {
        assert(n[i] == names[i] && o[i] == outcomes[i]);
        if outcomes[i] is Ok {
            let k = choose|k: int|
                0 <= k < removed_names(n, o).len() && removed_names(n, o)[k] == names[i];
            assert(a[k] == names[i]);
        } else {
            let line = names[i] + ": "@ + outcomes[i]->Err_0@;
            let k = choose|k: int| 0 <= k < removal_errors(n, o).len() && removal_errors(n, o)[k] == line;
            assert(b[k] == line);
        }
    } else {
        if outcomes[i] is Ok {
            assert(a[a.len() - 1] == names[i]);
        } else {
            assert(b[b.len() - 1] == names[i] + ": "@ + outcomes[i]->Err_0@);
        }
    }
}

/// A row shows the network's own name, driver, addresses and isolation, and how many
/// boxes are on it.
pub proof fn lemma_row_of_network(config: NetworkConfig, r: Vec<String>)
    requires
        call_ensures(ls_row, (&config,), r),
    ensures
        r@.len() == 6,
        r@[0]@ == config.name@ && r@[1]@ == config.driver@ && r@[2]@ == config.subnet@ && r@[3]@
            == config.gateway@,
        config.isolation is Open ==> r@[4]@ == "none"@,
        config.isolation is Strict ==> r@[4]@ == "strict"@,
        config.isolation is Custom ==> r@[4]@ == "custom"@,
        r@[5]@ == number::decimal(config.endpoints@.dom().len()),
{
    let s = text::strs(r@);
    assert(s.len() == r@.len());
    assert(s[0] == r@[0]@ && s[1] == r@[1]@ && s[2] == r@[2]@ && s[3] == r@[3]@ && s[4] == r@[4]@
        && s[5] == r@[5]@);
}

/// A box is set up for a network, or for none, and nothing else of it changes.
pub proof fn lemma_record_network_set(
    joins: &mut BoxRecord,
    leaves: &mut BoxRecord,
    network: &str,
)
    requires
        call_ensures(set_record_network, (joins, network), ()),
        call_ensures(clear_record_network, (leaves,), ()),
    ensures
        cleanup::network_of(final(joins)@) == Some(network@),
        cleanup::network_of(final(leaves)@) is None,
        final(joins)@.id == old(joins)@.id && final(joins)@.status == old(joins)@.status,
        final(joins)@.name == old(joins)@.name && final(joins)@.port_map == old(joins)@.port_map,
        final(leaves)@.id == old(leaves)@.id && final(leaves)@.status == old(leaves)@.status,
        final(leaves)@.name == old(leaves)@.name && final(leaves)@.port_map == old(leaves)@.port_map,
{
}

/// A box may be connected to a network exactly where it is not active and is on no
/// other one. It may be disconnected only where it is not active; and then, but by
/// force, only from a network that is there and that it is set up for.
pub proof fn lemma_connects_at_rest(
    record: BoxRecord,
    network: &str,
    force: bool,
    config: Option<&NetworkConfig>,
    connect: Result<(), String>,
    disconnect: Result<DisconnectPlan, String>,
)
    requires
        call_ensures(check_connect, (&record, network), connect),
        call_ensures(plan_disconnect, (&record, network, force, config), disconnect),
    ensures
        ({
            let active = record.status@ == "running"@ || record.status@ == "paused"@;
            let own = cleanup::network_of(record@);
            &&& connect is Ok <==> !active && (own is None || own == Some(network@))
            &&& disconnect is Ok <==> !active && (force || (own == Some(network@) && config is Some))
            &&& disconnect is Ok ==> disconnect->Ok_0.clear_record == (own == Some(network@))
            &&& disconnect is Ok ==> disconnect->Ok_0.drop_endpoint == (config is Some
                && config->0.endpoints@.contains_key(record.id@))
        }),
{
}

/// The network of a box may be changed exactly where the box is not active.
pub proof fn lemma_no_hot_plug(record: BoxRecord, action: &str, r: Result<(), String>)
    requires
        call_ensures(require_inactive_for_network_change, (&record, action), r),
    ensures
        r is Err <==> record.status@ == "running"@ || record.status@ == "paused"@,
{
}

/// A box has one place on a network: it keeps the address it has, under its present
/// name, or gets the one that is given out; and every other box keeps its own.
pub proof fn lemma_one_endpoint(
    config: &mut NetworkConfig,
    box_id: &str,
    box_name: &str,
    allocated: Result<NetworkEndpoint, String>,
    other: Seq<char>,
    r: Result<NetworkEndpoint, String>,
)
    requires
        call_ensures(ensure_endpoint, (config, box_id, box_name, allocated), r),
        other != box_id@,
    ensures
        r is Ok ==> final(config).endpoints@.contains_key(box_id@) && final(config).endpoints@[box_id@]
            == r->Ok_0,
        old(config).endpoints@.contains_key(box_id@) ==> r is Ok && r->Ok_0.ip_address@
            == old(config).endpoints@[box_id@].ip_address@ && r->Ok_0.box_name@ == box_name@,
        !old(config).endpoints@.contains_key(box_id@) ==> r == allocated,
        r is Err ==> final(config).endpoints@ == old(config).endpoints@,
        final(config).endpoints@.contains_key(other) <==> old(config).endpoints@.contains_key(other),
        old(config).endpoints@.contains_key(other) ==> final(config).endpoints@[other]
            == old(config).endpoints@[other],
        final(config).name == old(config).name && final(config).subnet == old(config).subnet,
{
}

/// A box that is attached has the address that was given out, and every other box
/// keeps its own; without one nothing changes.
pub proof fn lemma_attached(
    config: &mut NetworkConfig,
    box_id: &str,
    allocated: Result<NetworkEndpoint, String>,
    other: Seq<char>,
    r: Result<NetworkEndpoint, String>,
)
    requires
        call_ensures(attach_box, (config, box_id, allocated), r),
        other != box_id@,
    ensures
        r is Ok <==> allocated is Ok,
        r is Ok ==> final(config).endpoints@.contains_key(box_id@) && final(config).endpoints@[box_id@]
            == allocated->Ok_0 && r->Ok_0 == allocated->Ok_0,
        r is Err ==> final(config).endpoints@ == old(config).endpoints@,
        old(config).endpoints@.contains_key(other) <==> final(config).endpoints@.contains_key(other),
        old(config).endpoints@.contains_key(other) ==> final(config).endpoints@[other]
            == old(config).endpoints@[other],
        final(config).name == old(config).name && final(config).subnet == old(config).subnet,
{
}

/// A network that is emptied by force has no box on it any more, and no box is set up
/// for it but those that another goes before; no active box is ever taken off, and a
/// refusal changes nothing.
pub proof fn lemma_emptied_by_force(
    state: &mut StateFile,
    network: &str,
    config: &mut NetworkConfig,
    r: Result<bool, String>,
    i: int,
)
    requires
        call_ensures(force_disconnect_network_endpoints, (state, network, config), r),
        0 <= i < old(state)@.len(),
    ensures
        r is Err ==> final(state)@ == old(state)@ && *final(config) == *old(config),
        r is Ok ==> final(config).endpoints@ == Map::<Seq<char>, NetworkEndpoint>::empty(),
        r is Ok ==> final(config).name == old(config).name,
        r is Ok ==> final(state)@.len() == old(state)@.len(),
        r is Ok ==> final(state)@[i] == old(state)@[i] || cleanup::network_of(final(state)@[i]) is None,
        r is Ok ==> final(state)@[i].id == old(state)@[i].id && final(state)@[i].status
            == old(state)@[i].status,
        r is Ok && cleanup::network_of(old(state)@[i]) == Some(network@) && state::first_with_id(
            old(state)@,
            old(state)@[i].id,
            i,
        ) ==> cleanup::network_of(final(state)@[i]) is None && !state::active(old(state)@[i].status),
{
    if r is Ok && cleanup::network_of(old(state)@[i]) == Some(network@) && state::first_with_id(
        old(state)@,
        old(state)@[i].id,
        i,
    ) {
        let x = old(state)@[i];
        let p = configured_for(network@);
        let kept = old(state)@.filter(p);
        let ids = configured_ids(old(state)@, network@);
        seqs::lemma_filter_contains(old(state)@, p, x);
        assert(old(state)@.contains(x));
        let n = choose|n: int| 0 <= n < kept.len() && kept[n] == x;
        assert(ids[n] == x.id);
        assert(ids.contains(x.id));
        assert(loses_network(old(state)@, ids, i));
        if state::active(x.status) {
            assert(id_active(old(state)@, old(state)@[i].id, i));
            assert(record_blocks(old(state)@, network@, x.name));
        }
    }
}

/// The ways of isolation go by their names, and no other is known.
pub proof fn lemma_isolation_read(s: &str, r: Result<IsolationMode, String>)
    requires
        call_ensures(parse_isolation, (s,), r),
    ensures
        s@ == "none"@ ==> r is Ok && r->Ok_0 is Open,
        s@ == "strict"@ ==> r is Ok && r->Ok_0 is Strict,
        s@ == "custom"@ ==> r is Ok && r->Ok_0 is Custom,
        r is Ok ==> s@ == "none"@ || s@ == "strict"@ || s@ == "custom"@,
{
    reveal_strlit("none");
    reveal_strlit("strict");
    reveal_strlit("custom");
    assert("none"@.len() == 4 && "strict"@.len() == 6 && "custom"@.len() == 6);
    assert("strict"@[0] == 's' && "custom"@[0] == 'c');
}

/// A network is unused exactly where no box is on it and none is set up for it.
pub proof fn lemma_network_unused(config: NetworkConfig, state: StateFile, referenced: bool, name: &str, r: bool)
    requires
        name@ == config.name@,
        call_ensures(is_referenced, (&state, name), referenced),
        call_ensures(network_is_unused, (&config, &state), r),
    ensures
        r <==> config.endpoints@ == Map::<Seq<char>, NetworkEndpoint>::empty() && !referenced,
{
}

/// No active box is taken off a network by force, whether the network lists it or the
/// box is set up for it.
pub proof fn lemma_active_box_keeps_network(
    state: &mut StateFile,
    network: &str,
    config: &mut NetworkConfig,
    k: Seq<char>,
    i: int,
    r: Result<bool, String>,
)
    requires
        call_ensures(force_disconnect_network_endpoints, (state, network, config), r),
        old(config).endpoints@.contains_key(k),
        state::first_with_id(old(state)@, old(config).endpoints@[k].box_id@, i),
        old(state)@[i].status == "running"@ || old(state)@[i].status == "paused"@,
    ensures
        r is Err,
        final(state)@ == old(state)@,
        *final(config) == *old(config),
{
    let ids = old(config).endpoints@;
    assert(id_active(old(state)@, ids[k].box_id@, i));
    assert(ids.dom().contains(k));
    assert(endpoint_blocks(ids, old(state)@, old(state)@[i].name));
}

/// Labels are put beside those that are there, and one that is no pair is refused.
pub proof fn lemma_labels_added(
    map: &mut StrMap<String>,
    labels: Vec<String>,
    read: Result<StrMap<String>, String>,
    r: Result<(), String>,
)
    requires
        old(map)@ == Map::<Seq<char>, String>::empty(),
        call_ensures(common::parse_env_vars, (&labels,), read),
        call_ensures(add_labels, (map, &labels), r),
    ensures
        r is Ok <==> read is Ok,
        r is Ok ==> strmap::texts(final(map)@) == strmap::texts((read->Ok_0)@),
{
    assert(strmap::texts(old(map)@) =~= Map::<Seq<char>, Seq<char>>::empty());
}

} // verus!
