//! Options shared by the commands that create boxes.

use vstd::prelude::*;

use crate::case;
use crate::case::to_lowercase;
use crate::number;
use crate::number::{parse_u64, u32_text};
use crate::split;
use crate::split::{lines, replace, split_once, split_whitespace, trim, trim_end_matches};
use crate::state;
use crate::state::{HealthCheck, HealthCheckView, ResourceLimits, ResourceLimitsView};
use crate::strmap;
use crate::strmap::StrMap;
use crate::text;
use crate::text::{cat2, cat3, cat4, clone_strings, ends_with, starts_with, str_eq};

verus! {

/// Common arguments shared between `run` and `create` commands.
#[derive(Debug)]
pub struct CommonBoxArgs {
    /// OCI image reference
    pub image: String,
    /// Assign a name to the box
    pub name: Option<String>,
    /// Number of CPUs
    pub cpus: u32,
    /// Memory (e.g., "512m", "2g")
    pub memory: String,
    /// Volume mount (host:guest)
    pub volumes: Vec<String>,
    /// Environment variable (KEY=VALUE)
    pub env: Vec<String>,
    /// Publish a port (host_port:guest_port)
    pub publish: Vec<String>,
    /// Custom DNS servers
    pub dns: Vec<String>,
    /// Override the image entrypoint
    pub entrypoint: Option<String>,
    /// The box hostname
    pub hostname: Option<String>,
    /// Run as a specific user (e.g., "root", "1000:1000")
    pub user: Option<String>,
    /// Working directory inside the box
    pub workdir: Option<String>,
    /// Restart policy: no, always, on-failure, unless-stopped
    pub restart: String,
    /// Metadata labels (KEY=VALUE)
    pub labels: Vec<String>,
    /// Mount a tmpfs (e.g., "/tmp" or "/tmp:size=100m")
    pub tmpfs: Vec<String>,
    /// Connect to a network (e.g., "mynet")
    pub network: Option<String>,
    /// Health check command (e.g., "curl -f http://localhost/health")
    pub health_cmd: Option<String>,
    /// Health check interval in seconds
    pub health_interval: u64,
    /// Health check timeout in seconds
    pub health_timeout: u64,
    /// Health check retries before unhealthy
    pub health_retries: u32,
    /// Health check start period in seconds
    pub health_start_period: u64,
    /// Limit PIDs inside the box
    pub pids_limit: Option<u64>,
    /// Pin to specific CPUs (e.g., "0,1,3" or "0-3")
    pub cpuset_cpus: Option<String>,
    /// Set ulimit (e.g., "nofile=1024:4096")
    pub ulimits: Vec<String>,
    /// CPU shares (relative weight, 2-262144)
    pub cpu_shares: Option<u64>,
    /// CPU quota in microseconds per cpu-period
    pub cpu_quota: Option<i64>,
    /// CPU period in microseconds
    pub cpu_period: Option<u64>,
    /// Memory reservation/soft limit (e.g., "256m", "1g")
    pub memory_reservation: Option<String>,
    /// Memory+swap limit (e.g., "1g", "-1" for unlimited)
    pub memory_swap: Option<String>,
    /// Read environment variables from a file
    pub env_file: Vec<String>,
    /// Add a custom host-to-IP mapping (host:ip)
    pub add_host: Vec<String>,
    /// Target platform (e.g., "linux/amd64", "linux/arm64")
    pub platform: Option<String>,
    /// Run an init process as PID 1
    pub init: bool,
    /// Mount the root filesystem as read-only
    pub read_only: bool,
    /// Add a Linux capability
    pub cap_add: Vec<String>,
    /// Drop a Linux capability
    pub cap_drop: Vec<String>,
    /// Security options (e.g., "seccomp=unconfined")
    pub security_opt: Vec<String>,
    /// Give extended privileges to the box
    pub privileged: bool,
    /// Add a host device to the box (host_path[:guest_path[:perms]])
    pub device: Vec<String>,
    /// GPU devices to add (e.g., "all", "0,1")
    pub gpus: Option<String>,
    /// Size of /dev/shm (e.g., "64m", "1g")
    pub shm_size: Option<String>,
    /// Override the default signal to stop the box
    pub stop_signal: Option<String>,
    /// Timeout (in seconds) to stop the box before killing
    pub stop_timeout: Option<u64>,
    /// Disable any healthcheck defined in the image
    pub no_healthcheck: bool,
    /// Disable OOM Killer for the box
    pub oom_kill_disable: bool,
    /// Tune the host OOM score adjustment (-1000 to 1000)
    pub oom_score_adj: Option<i32>,
    /// Preserve filesystem changes across stop/start cycles
    pub persistent: bool,
}

/// A platform, such as `linux/amd64`.
#[derive(Debug)]
pub struct Platform {
    /// Operating system.
    pub os: String,
    /// CPU architecture.
    pub architecture: String,
    /// The platform in words.
    pub label: String,
}

// ---------------------------------------------------------------------------
// Validation
// ---------------------------------------------------------------------------

/// Why boxes cannot run on the platform, where they cannot.
pub open spec fn platform_error(p: Platform, host_arch: Seq<char>) -> Option<Seq<char>> {
    if p.os@ != "linux"@ {
        Some(
            "runtime platform '"@ + p.label@
                + "' is not supported: a3s-box runs Linux guests only"@,
        )
    } else if p.architecture@ != host_arch {
        Some(
            "runtime platform '"@ + p.label@
                + "' requires CPU emulation, which is not implemented; host architecture is "@
                + host_arch,
        )
    } else {
        None
    }
}

/// Whether boxes can run on the platform: it is Linux on the host's own
/// architecture. `platform` is what the text of it was read as.
pub fn validate_runtime_platform(platform: &Result<Platform, String>, host_arch: &str) -> (r:
    Result<(), String>)
    ensures
        match r {
            Ok(_) => platform is Ok && platform_error(platform->Ok_0, host_arch@) is None,
            Err(e) => match *platform {
                Ok(p) => platform_error(p, host_arch@) == Some(e@),
                Err(msg) => e@ == msg@,
            },
        },
{
    match platform {
        Err(e) => Err(e.clone()),
        Ok(p) => if !str_eq(p.os.as_str(), "linux") {
            Err(
                cat3(
                    "runtime platform '",
                    p.label.as_str(),
                    "' is not supported: a3s-box runs Linux guests only",
                ),
            )
        } else if !str_eq(p.architecture.as_str(), host_arch) {
            Err(
                cat4(
                    "runtime platform '",
                    p.label.as_str(),
                    "' requires CPU emulation, which is not implemented; host architecture is ",
                    host_arch,
                ),
            )
        } else {
            Ok(())
        },
    }
}

/// Why the options cannot be met, where they cannot. `security` tells whether
/// the runtime supports the security options, `platform` is what the text of
/// the platform was read as.
pub open spec fn common_args_error(
    args: CommonBoxArgs,
    security: Result<(), String>,
    platform: Result<Platform, String>,
    host_arch: Seq<char>,
) -> Option<Seq<char>> {
    if args.cpus == 0 {
        Some("--cpus must be greater than 0"@)
    } else if args.cpus > 255 {
        Some(
            "--cpus="@ + number::decimal(args.cpus as nat)
                + " exceeds the libkrun backend limit of 255"@,
        )
    } else if args.device@.len() > 0 {
        Some(
            "--device is not supported by the libkrun backend yet; remove it or use a runtime with device passthrough"@,
        )
    } else if args.gpus is Some {
        Some("--gpus is not supported by a3s-box yet"@)
    } else if security is Err {
        Some(security->Err_0@)
    } else if args.platform is Some {
        match platform {
            Ok(p) => platform_error(p, host_arch),
            Err(e) => Some(e@),
        }
    } else {
        None
    }
}

/// Validate options shared by create/run before any state is persisted or a VM
/// is booted.
pub fn validate_common_args(
    args: &CommonBoxArgs,
    security: &Result<(), String>,
    platform: &Result<Platform, String>,
    host_arch: &str,
) -> (r: Result<(), String>)
    ensures
        match r {
            Ok(_) => common_args_error(*args, *security, *platform, host_arch@) is None,
            Err(e) => common_args_error(*args, *security, *platform, host_arch@) == Some(e@),
        },
{
    if args.cpus == 0 {
        return Err("--cpus must be greater than 0".to_string());
    }
    if args.cpus > 255 {
        let n: String = u32_text(args.cpus);
        return Err(cat3("--cpus=", n.as_str(), " exceeds the libkrun backend limit of 255"));
    }
    if args.device.len() > 0 {
        return Err(
            "--device is not supported by the libkrun backend yet; remove it or use a runtime with device passthrough".to_string(),
        );
    }
    if args.gpus.is_some() {
        return Err("--gpus is not supported by a3s-box yet".to_string());
    }
    match security {
        Err(e) => {
            return Err(e.clone());
        },
        Ok(_) => {},
    }
    if args.platform.is_some() {
        return validate_runtime_platform(platform, host_arch);
    }
    Ok(())
}

// ---------------------------------------------------------------------------
// KEY=VALUE
// ---------------------------------------------------------------------------

/// What the texts add to `m`, each of the form KEY=VALUE; `None` where one is
/// not. A later value takes the place of an earlier one.
pub open spec fn with_pairs(m: Map<Seq<char>, Seq<char>>, vars: Seq<Seq<char>>) -> Option<
    Map<Seq<char>, Seq<char>>,
>
    decreases vars.len(),
{
    if vars.len() == 0 {
        Some(m)
    } else {
        match split::cut(vars.first(), '=') {
            Some((k, v)) => with_pairs(m.insert(k, v), vars.drop_first()),
            None => None,
        }
    }
}

/// The first text that is not of the form KEY=VALUE.
pub open spec fn first_without_equals(vars: Seq<Seq<char>>, i: int) -> bool {
    &&& 0 <= i < vars.len()
    &&& !vars[i].contains('=')
    &&& forall|j: int| 0 <= j < i ==> (#[trigger] vars[j]).contains('=')
}

/// Adds the pairs to a map; where one is of another form, what that one is.
pub fn insert_pairs(map: &mut StrMap<String>, vars: &Vec<String>) -> (r: Result<(), String>)
    ensures
        match r {
            Ok(_) => with_pairs(strmap::texts(old(map)@), text::strs(vars@)) == Some(
                strmap::texts(final(map)@),
            ),
            Err(v) => {
                &&& with_pairs(strmap::texts(old(map)@), text::strs(vars@)) is None
                &&& exists|i: int|
                    first_without_equals(text::strs(vars@), i) && v@ == text::strs(vars@)[i]
            },
        },
{
    let ghost start = strmap::texts(map@);
    let ghost vs = text::strs(vars@);
    let mut i: usize = 0;
    assert(vs.skip(0) =~= vs);
    while i < vars.len()
        invariant
            i <= vars.len(),
            vs == text::strs(vars@),
            start == strmap::texts(old(map)@),
            with_pairs(start, vs) == with_pairs(strmap::texts(map@), vs.skip(i as int)),
            forall|j: int| 0 <= j < i ==> (#[trigger] vs[j]).contains('='),
        decreases vars.len() - i,
    {
        let var: &String = &vars[i];
        proof {
            split::lemma_cut(var@, '=');
            assert(vs.skip(i as int).first() == var@);
            assert(vs.skip(i as int).drop_first() =~= vs.skip(i + 1));
        }
        match split_once(var.as_str(), '=') {
            Some((k, v)) => {
                let ghost was = strmap::texts(map@);
                let key: String = k.to_string();
                let value: String = v.to_string();
                map.insert(key, value);
                assert(strmap::texts(map@) =~= was.insert(k@, v@));
            },
            None => {
                assert(first_without_equals(vs, i as int));
                assert(vs[i as int] == var@);
                return Err(var.clone());
            },
        }
        i = i + 1;
    }
    Ok(())
}

/// What is said of a variable that is not of the form KEY=VALUE.
pub open spec fn env_error(var: Seq<char>) -> Seq<char> {
    "Invalid environment variable (expected KEY=VALUE): "@ + var
}

/// Parse KEY=VALUE pairs into a map.
pub fn parse_env_vars(vars: &Vec<String>) -> (r: Result<StrMap<String>, String>)
    ensures
        match r {
            Ok(map) => with_pairs(Map::empty(), text::strs(vars@)) == Some(strmap::texts(map@)),
            Err(e) => {
                &&& with_pairs(Map::empty(), text::strs(vars@)) is None
                &&& exists|i: int|
                    first_without_equals(text::strs(vars@), i) && e@ == env_error(
                        text::strs(vars@)[i],
                    )
            },
        },
{
    let mut map: StrMap<String> = StrMap::new();
    assert(strmap::texts(map@) =~= Map::empty());
    match insert_pairs(&mut map, vars) {
        Ok(_) => Ok(map),
        Err(v) => Err(cat2("Invalid environment variable (expected KEY=VALUE): ", v.as_str())),
    }
}

/// What the variables of several files come to: a later file takes the place of
/// an earlier one.
pub open spec fn merged_files(files: Seq<StrMap<String>>) -> Map<Seq<char>, Seq<char>>
    decreases files.len(),
{
    if files.len() == 0 {
        Map::empty()
    } else {
        merged_files(files.drop_last()).union_prefer_right(strmap::texts(files.last()@))
    }
}

/// Adds the variables of a file to a map.
fn insert_all(map: &mut StrMap<String>, file: &StrMap<String>)
    ensures
        strmap::texts(final(map)@) == strmap::texts(old(map)@).union_prefer_right(strmap::texts(file@)),
{
    let ghost start = strmap::texts(map@);
    let ghost keys = file.key_list();
    let ghost all = strmap::texts(file@);
    let n: usize = file.len();
    assert(start.union_prefer_right(all.restrict(keys.take(0).to_set())) =~= start);
    for i in 0..n
        invariant
            n == keys.len(),
            keys == file.key_list(),
            all == strmap::texts(file@),
            strmap::texts(map@) == start.union_prefer_right(all.restrict(keys.take(i as int).to_set())),
    {
        let (key, value) = file.entry(i);
        let ghost was = strmap::texts(map@);
        map.insert(key.clone(), value.clone());
        proof {
            assert(strmap::texts(map@) =~= was.insert(key@, value@));
            assert(all.contains_key(key@) && all[key@] == value@);
            let (done, more) = (keys.take(i as int), keys.take(i + 1));
            assert(more =~= done.push(key@));
            assert forall|k: Seq<char>| #[trigger] more.contains(k) <==> done.contains(k) || k == key@ by {
                if done.contains(k) {
                    let j = choose|j: int| 0 <= j < i && done[j] == k;
                    assert(more[j] == k);
                }
                assert(more[i as int] == key@);
            }
            assert(was.insert(key@, value@) =~= start.union_prefer_right(all.restrict(more.to_set())));
        }
    }
    proof {
        assert(keys.take(n as int) =~= keys);
        assert forall|k: Seq<char>| #[trigger] all.contains_key(k) implies keys.contains(k) by {
            strmap::lemma_keys(file, k);
        }
        assert(all.restrict(keys.to_set()) =~= all);
    }
}

/// The environment of a box: the variables of the files, one file after the
/// other, and then those of the command. A later value takes the place of an
/// earlier one.
pub fn merge_env(files: &Vec<StrMap<String>>, vars: &Vec<String>) -> (r: Result<StrMap<String>, String>)
    ensures
        match r {
            Ok(map) => with_pairs(merged_files(files@), text::strs(vars@)) == Some(strmap::texts(map@)),
            Err(e) => {
                &&& with_pairs(merged_files(files@), text::strs(vars@)) is None
                &&& exists|i: int|
                    first_without_equals(text::strs(vars@), i) && e@ == env_error(text::strs(vars@)[i])
            },
        },
{
    let mut map: StrMap<String> = StrMap::new();
    assert(strmap::texts(map@) =~= Map::empty());
    assert(files@.take(0) =~= Seq::empty());
    for i in 0..files.len()
        invariant
            strmap::texts(map@) == merged_files(files@.take(i as int)),
    {
        insert_all(&mut map, &files[i]);
        assert(files@.take(i + 1).drop_last() =~= files@.take(i as int));
    }
    assert(files@.take(files@.len() as int) =~= files@);
    match insert_pairs(&mut map, vars) {
        Ok(_) => Ok(map),
        Err(v) => Err(cat2("Invalid environment variable (expected KEY=VALUE): ", v.as_str())),
    }
}

/// Parse KEY=VALUE pairs of another kind, such as labels, into a map: the
/// message of a failure names that kind.
pub fn parse_pairs_as(vars: &Vec<String>, what: &str) -> (r: Result<StrMap<String>, String>)
    ensures
        match r {
            Ok(map) => with_pairs(Map::empty(), text::strs(vars@)) == Some(strmap::texts(map@)),
            Err(e) => {
                &&& with_pairs(Map::empty(), text::strs(vars@)) is None
                &&& exists|i: int|
                    first_without_equals(text::strs(vars@), i) && e@ == split::replaced(
                        env_error(text::strs(vars@)[i]),
                        "environment variable"@,
                        what@,
                    )
            },
        },
{
    match parse_env_vars(vars) {
        Ok(map) => Ok(map),
        Err(e) => {
            proof {
                reveal_strlit("environment variable");
            }
            Err(replace(e.as_str(), "environment variable", what))
        },
    }
}

/// What one line of an environment file adds: nothing where it is blank or a
/// comment, else a variable, with an empty value where it has none.
pub open spec fn env_line(m: Map<Seq<char>, Seq<char>>, line: Seq<char>) -> Map<
    Seq<char>,
    Seq<char>,
> {
    let t = split::trimmed(line);
    if t.len() == 0 || t[0] == '#' {
        m
    } else {
        match split::cut(t, '=') {
            Some((k, v)) => m.insert(split::trimmed(k), split::trimmed(v)),
            None => m.insert(t, Seq::empty()),
        }
    }
}

/// What the lines of an environment file define.
pub open spec fn env_file_map(lines: Seq<Seq<char>>) -> Map<Seq<char>, Seq<char>>
    decreases lines.len(),
{
    if lines.len() == 0 {
        Map::empty()
    } else {
        env_line(env_file_map(lines.drop_last()), lines.last())
    }
}

/// Load environment variables from a file.
///
/// Each line should be KEY=VALUE. Empty lines and lines starting with '#' are
/// skipped. `content` is what reading the file gave.
pub fn parse_env_file(path: &str, content: &Result<String, String>) -> (r: Result<
    StrMap<String>,
    String,
>)
    ensures
        match r {
            Ok(map) => content is Ok && strmap::texts(map@) == env_file_map(
                split::line_list(content->Ok_0@),
            ),
            Err(e) => content is Err && e@ == "Failed to read env file '"@ + path@ + "': "@
                + content->Err_0@,
        },
{
    let content: &String = match content {
        Ok(c) => c,
        Err(e) => {
            return Err(cat4("Failed to read env file '", path, "': ", e.as_str()));
        },
    };
    let all: Vec<String> = lines(content.as_str());
    let ghost ls = text::strs(all@);
    let mut map: StrMap<String> = StrMap::new();
    let mut i: usize = 0;
    proof {
        assert(ls.take(0) =~= Seq::<Seq<char>>::empty());
        assert(strmap::texts(map@) =~= env_file_map(ls.take(0)));
        reveal_strlit("#");
        assert("#"@ =~= seq!['#']);
    }
    while i < all.len()
        invariant
            i <= all.len(),
            ls == text::strs(all@),
            "#"@ == seq!['#'],
            strmap::texts(map@) == env_file_map(ls.take(i as int)),
        decreases all.len() - i,
    {
        let ghost was = strmap::texts(map@);
        proof {
            assert(ls.take(i + 1).drop_last() =~= ls.take(i as int));
            assert(ls.take(i + 1).last() == all@[i as int]@);
        }
        let trimmed: &str = trim(all[i].as_str());
        proof {
            if trimmed@.len() > 0 {
                assert(trimmed@.take(1)[0] == trimmed@[0]);
                if trimmed@[0] == '#' {
                    assert(trimmed@.take(1) =~= "#"@);
                }
            }
        }
        if !trimmed.is_empty() && !starts_with(trimmed, "#") {
            match split_once(trimmed, '=') {
                Some((k, v)) => {
                    let key: String = trim(k).to_string();
                    let value: String = trim(v).to_string();
                    map.insert(key, value);
                    assert(strmap::texts(map@) =~= was.insert(
                        split::trimmed(k@),
                        split::trimmed(v@),
                    ));
                },
                None => {
                    map.insert(trimmed.to_string(), String::new());
                    assert(strmap::texts(map@) =~= was.insert(trimmed@, Seq::empty()));
                },
            }
        }
        i = i + 1;
    }
    assert(ls.take(i as int) =~= ls);
    Ok(map)
}

// ---------------------------------------------------------------------------
// Memory sizes
// ---------------------------------------------------------------------------

/// The digits of a size and the number of bytes of its unit, by the suffix of
/// a text in small letters; `None` where it has no known suffix.
pub open spec fn size_parts(s: Seq<char>) -> Option<(Seq<char>, nat)> {
    if text::has_suffix(s, "gb"@) || text::has_suffix(s, "g"@) {
        Some((split::without_suffixes(split::without_suffixes(s, "gb"@), "g"@), 1073741824))
    } else if text::has_suffix(s, "mb"@) || text::has_suffix(s, "m"@) {
        Some((split::without_suffixes(split::without_suffixes(s, "mb"@), "m"@), 1048576))
    } else if text::has_suffix(s, "kb"@) || text::has_suffix(s, "k"@) {
        Some((split::without_suffixes(split::without_suffixes(s, "kb"@), "k"@), 1024))
    } else if text::has_suffix(s, "b"@) {
        Some((split::without_suffixes(s, "b"@), 1))
    } else {
        None
    }
}

/// The number of bytes that a text in small letters stands for, or what is said
/// of a text that stands for none.
pub open spec fn size_of(s: Seq<char>) -> Result<nat, Seq<char>> {
    if s.len() == 0 {
        Err("empty value"@)
    } else {
        match number::parsed_u64(s) {
            Some(n) => Ok(n as nat),
            None => match size_parts(s) {
                None => Err("unrecognized memory format: "@ + s),
                Some((digits, unit)) => match number::parsed_u64(digits) {
                    Some(n) => Ok(n as nat * unit),
                    None => Err("invalid number: "@ + digits),
                },
            },
        }
    }
}

/// Whether the number of bytes, where there is one, fits into 64 bits.
pub open spec fn size_fits(s: Seq<char>) -> bool {
    size_of(s) is Ok ==> size_of(s)->Ok_0 <= u64::MAX
}

/// Whether a result is the number of bytes, or what is said where there is none.
pub open spec fn is_size(s: Seq<char>, r: Result<u64, String>) -> bool {
    match r {
        Ok(n) => size_of(s) == Ok::<nat, Seq<char>>(n as nat),
        Err(e) => size_of(s) == Err::<nat, Seq<char>>(e@),
    }
}

/// The number of bytes that a text in small letters stands for; `None` where
/// it does not fit into 64 bits.
pub fn size_in_bytes(s: &str) -> (r: Option<Result<u64, String>>)
    ensures
        match r {
            Some(size) => size_fits(s@) && is_size(s@, size),
            None => !size_fits(s@),
        },
{
    if s.is_empty() {
        return Some(Err("empty value".to_string()));
    }
    match parse_u64(s) {
        Some(n) => {
            return Some(Ok(n));
        },
        None => {},
    }
    proof {
        reveal_strlit("gb");
        reveal_strlit("g");
        reveal_strlit("mb");
        reveal_strlit("m");
        reveal_strlit("kb");
        reveal_strlit("k");
        reveal_strlit("b");
    }
    let (digits, unit): (&str, u64) = if ends_with(s, "gb") || ends_with(s, "g") {
        (trim_end_matches(trim_end_matches(s, "gb"), "g"), 1073741824)
    } else if ends_with(s, "mb") || ends_with(s, "m") {
        (trim_end_matches(trim_end_matches(s, "mb"), "m"), 1048576)
    } else if ends_with(s, "kb") || ends_with(s, "k") {
        (trim_end_matches(trim_end_matches(s, "kb"), "k"), 1024)
    } else if ends_with(s, "b") {
        (trim_end_matches(s, "b"), 1)
    } else {
        return Some(Err(cat2("unrecognized memory format: ", s)));
    };
    match parse_u64(digits) {
        Some(n) => match n.checked_mul(unit) {
            Some(bytes) => Some(Ok(bytes)),
            None => None,
        },
        None => Some(Err(cat2("invalid number: ", digits))),
    }
}

/// The text by which a size is read: without white space around it, and in
/// small letters.
pub open spec fn size_text(s: Seq<char>) -> Seq<char> {
    case::lowercase_of(split::trimmed(s))
}

/// Parse a memory size string (e.g., "256m", "1g", "1073741824") into bytes;
/// `None` where the number does not fit into 64 bits.
pub fn checked_memory_bytes(s: &str) -> (r: Option<Result<u64, String>>)
    ensures
        match r {
            Some(size) => size_fits(size_text(s@)) && is_size(size_text(s@), size),
            None => !size_fits(size_text(s@)),
        },
        case::plain(split::trimmed(s@)) ==> size_text(s@) == split::lowered(split::trimmed(s@)),
{
    let t: String = to_lowercase(trim(s));
    if size_in_bytes(t.as_str()).is_none() {
        return None;
    }
    Some(parse_memory_bytes(s))
}

/// Parse a memory size string (e.g., "256m", "1g", "1073741824") into bytes.
pub fn parse_memory_bytes(s: &str) -> (r: Result<u64, String>)
    requires
        size_fits(size_text(s@)),
    ensures
        is_size(size_text(s@), r),
        case::plain(split::trimmed(s@)) ==> is_size(split::lowered(split::trimmed(s@)), r),
{
    let t: String = to_lowercase(trim(s));
    size_in_bytes(t.as_str()).unwrap()
}

// ---------------------------------------------------------------------------
// Resource limits
// ---------------------------------------------------------------------------

/// Whether an optional size fits into 64 bits.
pub open spec fn opt_size_fits(o: Option<String>) -> bool {
    o is Some ==> size_fits(size_text(o->0@))
}

/// Whether the sizes among the options fit into 64 bits.
pub open spec fn limits_fit(args: CommonBoxArgs) -> bool {
    &&& opt_size_fits(args.memory_reservation)
    &&& args.memory_swap is Some && args.memory_swap->0@ != "-1"@ ==> opt_size_fits(
        args.memory_swap,
    )
}

/// The number that has the same 64 bits and a sign.
pub open spec fn as_signed(n: nat) -> int {
    if n <= i64::MAX {
        n as int
    } else {
        n - 0x1_0000_0000_0000_0000
    }
}

/// The size that an optional text stands for, or what is said of the option
/// where it stands for none.
pub open spec fn opt_size(o: Option<Seq<char>>, flag: Seq<char>) -> Result<Option<nat>, Seq<char>> {
    match o {
        None => Ok(None),
        Some(s) => match size_of(size_text(s)) {
            Ok(n) => Ok(Some(n)),
            Err(e) => Err("Invalid "@ + flag + ": "@ + e),
        },
    }
}

/// The limit of memory and swap, or what is said where there is none.
pub open spec fn swap_limit(o: Option<Seq<char>>) -> Result<Option<int>, Seq<char>> {
    if o == Some("-1"@) {
        Ok(Some(-1))
    } else {
        match opt_size(o, "--memory-swap"@) {
            Ok(Some(n)) => Ok(Some(as_signed(n))),
            Ok(None) => Ok(None),
            Err(e) => Err(e),
        }
    }
}

/// The resource limits that the options ask for, or what is said where they
/// cannot be read.
pub open spec fn limits_of(args: CommonBoxArgs) -> Result<ResourceLimitsView, Seq<char>> {
    match opt_size(text::opt_str(args.memory_reservation), "--memory-reservation"@) {
        Err(e) => Err(e),
        Ok(reservation) => match swap_limit(text::opt_str(args.memory_swap)) {
            Err(e) => Err(e),
            Ok(swap) => Ok(
                ResourceLimitsView {
                    pids_limit: args.pids_limit,
                    cpuset_cpus: text::opt_str(args.cpuset_cpus),
                    ulimits: text::strs(args.ulimits@),
                    cpu_shares: args.cpu_shares,
                    cpu_quota: args.cpu_quota,
                    cpu_period: args.cpu_period,
                    memory_reservation: match reservation {
                        Some(n) => Some(n as u64),
                        None => None,
                    },
                    memory_swap: match swap {
                        Some(n) => Some(n as i64),
                        None => None,
                    },
                },
            ),
        },
    }
}

/// Whether a result is the resource limits that the options ask for.
pub open spec fn is_limits(args: CommonBoxArgs, r: Result<ResourceLimits, String>) -> bool {
    match r {
        Ok(l) => limits_of(args) == Ok::<ResourceLimitsView, Seq<char>>(l@),
        Err(e) => limits_of(args) == Err::<ResourceLimitsView, Seq<char>>(e@),
    }
}

/// The size of an optional text.
pub fn parse_opt_size(o: &Option<String>, flag: &str) -> (r: Result<Option<u64>, String>)
    requires
        opt_size_fits(*o),
    ensures
        match r {
            Ok(Some(n)) => opt_size(text::opt_str(*o), flag@) == Ok::<Option<nat>, Seq<char>>(
                Some(n as nat),
            ),
            Ok(None) => o is None,
            Err(e) => opt_size(text::opt_str(*o), flag@) == Err::<Option<nat>, Seq<char>>(e@),
        },
{
    match o {
        None => Ok(None),
        Some(s) => match parse_memory_bytes(s.as_str()) {
            Ok(n) => Ok(Some(n)),
            Err(e) => Err(cat4("Invalid ", flag, ": ", e.as_str())),
        },
    }
}

/// Whether an optional size fits into 64 bits.
pub fn check_opt_size(o: &Option<String>) -> (r: bool)
    ensures
        r == opt_size_fits(*o),
{
    match o {
        None => true,
        Some(s) => checked_memory_bytes(s.as_str()).is_some(),
    }
}

/// The number that has the same 64 bits and a sign.
pub fn signed(n: u64) -> (r: i64)
    ensures
        r == as_signed(n as nat),
{
    let r: i64 = n as i64;
    proof {
        assert(n <= 0x7fff_ffff_ffff_ffff ==> (n as i64) as int == n as int) by (bit_vector);
        assert(n > 0x7fff_ffff_ffff_ffff ==> (n as i64) as int == n as int
            - 0x1_0000_0000_0000_0000) by (bit_vector);
    }
    r
}

/// Build the resource limits from common box args.
pub fn build_resource_limits(args: &CommonBoxArgs) -> (r: Result<ResourceLimits, String>)
    requires
        limits_fit(*args),
    ensures
        is_limits(*args, r),
{
    let memory_reservation: Option<u64> = match parse_opt_size(
        &args.memory_reservation,
        "--memory-reservation",
    ) {
        Ok(n) => n,
        Err(e) => {
            return Err(e);
        },
    };
    let unlimited: bool = match &args.memory_swap {
        Some(s) => str_eq(s.as_str(), "-1"),
        None => false,
    };
    let memory_swap: Option<i64> = if unlimited {
        Some(-1)
    } else {
        match parse_opt_size(&args.memory_swap, "--memory-swap") {
            Ok(Some(n)) => Some(signed(n)),
            Ok(None) => None,
            Err(e) => {
                return Err(e);
            },
        }
    };
    Ok(
        ResourceLimits {
            pids_limit: args.pids_limit,
            cpuset_cpus: args.cpuset_cpus.clone(),
            ulimits: clone_strings(&args.ulimits),
            cpu_shares: args.cpu_shares,
            cpu_quota: args.cpu_quota,
            cpu_period: args.cpu_period,
            memory_reservation,
            memory_swap,
        },
    )
}

/// Whether the sizes among the options fit into 64 bits.
pub fn check_limits_fit(args: &CommonBoxArgs) -> (r: bool)
    ensures
        r == limits_fit(*args),
{
    if !check_opt_size(&args.memory_reservation) {
        return false;
    }
    match &args.memory_swap {
        Some(s) => str_eq(s.as_str(), "-1") || check_opt_size(&args.memory_swap),
        None => true,
    }
}

/// Build the resource limits from common box args; `None` where a size does
/// not fit into 64 bits.
pub fn checked_resource_limits(args: &CommonBoxArgs) -> (r: Option<Result<ResourceLimits, String>>)
    ensures
        match r {
            Some(limits) => limits_fit(*args) && is_limits(*args, limits),
            None => !limits_fit(*args),
        },
{
    if check_limits_fit(args) {
        Some(build_resource_limits(args))
    } else {
        None
    }
}

// ---------------------------------------------------------------------------
// Health checks and stop signals
// ---------------------------------------------------------------------------

/// The health check that the options ask for.
pub open spec fn declared_health(args: CommonBoxArgs) -> Option<HealthCheckView> {
    match args.health_cmd {
        Some(cmd) => Some(
            HealthCheckView {
                cmd: seq!["sh"@, "-c"@, cmd@],
                interval_secs: args.health_interval,
                timeout_secs: args.health_timeout,
                retries: args.health_retries,
                start_period_secs: args.health_start_period,
            },
        ),
        None => None,
    }
}

/// The health check of a box: none where it is turned off, else the one that
/// the options ask for, else the image's.
pub open spec fn health_of(args: CommonBoxArgs, image: Option<HealthCheckView>) -> Option<
    HealthCheckView,
> {
    if args.no_healthcheck {
        None
    } else if args.health_cmd is Some {
        declared_health(args)
    } else {
        image
    }
}

/// The health check of a box.
pub fn effective_health_check(args: &CommonBoxArgs, image: &Option<HealthCheck>) -> (r: Option<
    HealthCheck,
>)
    ensures
        state::opt_health(r) == health_of(*args, state::opt_health(*image)),
{
    if args.no_healthcheck {
        return None;
    }
    match &args.health_cmd {
        Some(cmd) => {
            let full: Vec<String> = vec!["sh".to_string(), "-c".to_string(), cmd.clone()];
            assert(text::strs(full@) =~= seq!["sh"@, "-c"@, cmd@]);
            Some(
                HealthCheck {
                    cmd: full,
                    interval_secs: args.health_interval,
                    timeout_secs: args.health_timeout,
                    retries: args.health_retries,
                    start_period_secs: args.health_start_period,
                },
            )
        },
        None => state::clone_health(image),
    }
}

/// The stop signal of a box: the one asked for, else the image's.
pub open spec fn stop_signal_of(asked: Option<Seq<char>>, image: Option<Seq<char>>) -> Option<
    Seq<char>,
> {
    if asked is Some {
        asked
    } else {
        image
    }
}

/// The stop signal of a box.
pub fn effective_stop_signal(asked: &Option<String>, image: &Option<String>) -> (r: Option<String>)
    ensures
        text::opt_str(r) == stop_signal_of(text::opt_str(*asked), text::opt_str(*image)),
{
    match asked {
        Some(s) => Some(s.clone()),
        None => image.clone(),
    }
}

// ---------------------------------------------------------------------------
// Users, ports and entrypoints
// ---------------------------------------------------------------------------

/// The number of a user or a group: `root` is 0, a number is itself, and no
/// other name is known.
pub open spec fn account_of(s: Seq<char>) -> Option<Seq<char>> {
    if s == "root"@ {
        Some("0"@)
    } else if number::parsed_u32(s) is Some {
        Some(s)
    } else {
        None
    }
}

/// A user, with a group behind a colon where there is one, by number.
pub open spec fn user_of(s: Seq<char>) -> Option<Seq<char>> {
    match split::cut(s, ':') {
        None => account_of(s),
        Some((user, group)) => match (account_of(user), account_of(group)) {
            (Some(u), Some(g)) => Some(u + ":"@ + g),
            _ => None,
        },
    }
}

/// What is said of a user that is not known by number.
pub open spec fn user_error(s: Seq<char>) -> Seq<char> {
    "Named user '"@ + s + "' is not supported; use a numeric uid[:gid] or root"@
}

/// The number of a user or a group.
fn account(s: &str) -> (r: Option<String>)
    ensures
        text::opt_str(r) == account_of(s@),
{
    if str_eq(s, "root") {
        Some("0".to_string())
    } else if number::parse_u32(s).is_some() {
        Some(s.to_string())
    } else {
        None
    }
}

/// A user by number.
pub fn normalize_user(s: &str) -> (r: Result<String, String>)
    ensures
        match r {
            Ok(u) => user_of(s@) == Some(u@),
            Err(e) => user_of(s@) is None && e@ == user_error(s@),
        },
{
    let known: Option<String> = match split_once(s, ':') {
        None => account(s),
        Some((user, group)) => match (account(user), account(group)) {
            (Some(u), Some(g)) => Some(cat3(u.as_str(), ":", g.as_str())),
            _ => None,
        },
    };
    match known {
        Some(u) => Ok(u),
        None => Err(
            cat3("Named user '", s, "' is not supported; use a numeric uid[:gid] or root"),
        ),
    }
}

/// A user by number, where one is given.
pub fn normalize_user_option(user: &Option<String>) -> (r: Result<Option<String>, String>)
    ensures
        match r {
            Ok(Some(u)) => user is Some && user_of(user->0@) == Some(u@),
            Ok(None) => user is None,
            Err(e) => user is Some && user_of(user->0@) is None && e@ == user_error(user->0@),
        },
{
    match user {
        None => Ok(None),
        Some(s) => match normalize_user(s.as_str()) {
            Ok(u) => Ok(Some(u)),
            Err(e) => Err(e),
        },
    }
}

/// A published port without its protocol, which can only be TCP; `None` for
/// another protocol.
pub open spec fn port_of(s: Seq<char>) -> Option<Seq<char>> {
    match split::cut(s, '/') {
        None => Some(s),
        Some((ports, protocol)) => if protocol == "tcp"@ {
            Some(ports)
        } else {
            None
        },
    }
}

/// What is said of a published port with another protocol.
pub open spec fn port_error(s: Seq<char>) -> Seq<char> {
    "Invalid port mapping '"@ + s + "': only TCP is supported"@
}

/// The first published port with another protocol.
pub open spec fn first_bad_port(ports: Seq<Seq<char>>, i: int) -> bool {
    &&& 0 <= i < ports.len()
    &&& port_of(ports[i]) is None
    &&& forall|j: int| 0 <= j < i ==> port_of(#[trigger] ports[j]) is Some
}

/// The published ports without their protocol.
pub fn normalize_port_maps(ports: &Vec<String>) -> (r: Result<Vec<String>, String>)
    ensures
        match r {
            Ok(out) => {
                &&& out@.len() == ports@.len()
                &&& forall|i: int|
                    0 <= i < out@.len() ==> port_of(ports@[i]@) == Some((#[trigger] out@[i])@)
            },
            Err(e) => exists|i: int|
                first_bad_port(text::strs(ports@), i) && e@ == port_error(text::strs(ports@)[i]),
        },
{
    let ghost ps = text::strs(ports@);
    let mut out: Vec<String> = Vec::new();
    let mut i: usize = 0;
    while i < ports.len()
        invariant
            i <= ports.len(),
            ps == text::strs(ports@),
            out.len() == i,
            forall|j: int| 0 <= j < i ==> port_of(ports@[j]@) == Some((#[trigger] out@[j])@),
            forall|j: int| 0 <= j < i ==> port_of(#[trigger] ps[j]) is Some,
        decreases ports.len() - i,
    {
        let entry: &str = ports[i].as_str();
        assert(ps[i as int] == ports@[i as int]@);
        match split_once(entry, '/') {
            None => {
                out.push(entry.to_string());
            },
            Some((port, protocol)) => {
                if !str_eq(protocol, "tcp") {
                    assert(first_bad_port(ps, i as int));
                    return Err(cat3("Invalid port mapping '", entry, "': only TCP is supported"));
                }
                out.push(port.to_string());
            },
        }
        i = i + 1;
    }
    Ok(out)
}

/// The words of an entrypoint, where one is given.
pub open spec fn entrypoint_of(o: Option<Seq<char>>) -> Option<Seq<Seq<char>>> {
    match o {
        Some(s) => Some(split::word_list(s)),
        None => None,
    }
}

/// The words of an entrypoint, where one is given.
pub fn split_entrypoint(entrypoint: &Option<String>) -> (r: Option<Vec<String>>)
    ensures
        text::opt_strs(r) == entrypoint_of(text::opt_str(*entrypoint)),
{
    match entrypoint {
        Some(s) => Some(split_whitespace(s.as_str())),
        None => None,
    }
}

// ---------------------------------------------------------------------------
// How the options are read
// ---------------------------------------------------------------------------

/// The text is the pair `KEY=VALUE` of this key.
pub open spec fn sets_key(s: Seq<char>, key: Seq<char>) -> bool {
    text::has_prefix(s, key.push('='))
}

/// A pair is parted behind its key, at the first `=`.
proof fn lemma_pair_key(s: Seq<char>, key: Seq<char>)
    requires
        !key.contains('='),
    ensures
        sets_key(s, key) <==> split::cut(s, '=') is Some && (split::cut(s, '=')->0).0 == key,
        sets_key(s, key) ==> (split::cut(s, '=')->0).1 == s.skip(key.len() as int + 1),
{
    split::lemma_cut(s, '=');
    let n = key.len() as int;
    if sets_key(s, key) {
        assert(s.take(n + 1)[n] == '=');
        assert(s[n] == '=');
        assert forall|j: int| 0 <= j < n implies s[j] != '=' by {
            assert(s.take(n + 1)[j] == key.push('=')[j]);
            assert(key.contains(key[j]));
        }
        split::lemma_cut_at(s, '=', n);
        assert(s.take(n) =~= key) by {
            assert forall|j: int| 0 <= j < n implies s[j] == key[j] by {
                assert(s.take(n + 1)[j] == key.push('=')[j]);
            }
        }
        assert(s.contains('='));
    }
    if split::cut(s, '=') is Some && (split::cut(s, '=')->0).0 == key {
        assert(s.take(n + 1) =~= key.push('='));
    }
}

/// A key that no pair sets keeps its value, or stays away.
proof fn lemma_pairs_leave(
    m: Map<Seq<char>, Seq<char>>,
    vars: Seq<Seq<char>>,
    key: Seq<char>,
)
    requires
        with_pairs(m, vars) is Some,
        !key.contains('='),
        forall|j: int| 0 <= j < vars.len() ==> !sets_key(#[trigger] vars[j], key),
    ensures
        with_pairs(m, vars)->0.contains_key(key) <==> m.contains_key(key),
        m.contains_key(key) ==> with_pairs(m, vars)->0[key] == m[key],
    decreases vars.len(),
{
    if vars.len() > 0 {
        lemma_pair_key(vars.first(), key);
        assert(vars[0] == vars.first());
        let (k, v) = split::cut(vars.first(), '=')->0;
        let rest = vars.drop_first();
        assert forall|j: int| 0 <= j < rest.len() implies !sets_key(#[trigger] rest[j], key) by {
            assert(rest[j] == vars[j + 1]);
        }
        lemma_pairs_leave(m.insert(k, v), rest, key);
    }
}

/// The last pair of a key gives its value.
proof fn lemma_pairs_last(
    m: Map<Seq<char>, Seq<char>>,
    vars: Seq<Seq<char>>,
    key: Seq<char>,
    i: int,
)
    requires
        with_pairs(m, vars) is Some,
        !key.contains('='),
        0 <= i < vars.len(),
        sets_key(vars[i], key),
        forall|j: int| i < j < vars.len() ==> !sets_key(#[trigger] vars[j], key),
    ensures
        with_pairs(m, vars)->0.contains_key(key),
        with_pairs(m, vars)->0[key] == vars[i].skip(key.len() as int + 1),
    decreases vars.len(),
{
    lemma_pair_key(vars.first(), key);
    let (k, v) = split::cut(vars.first(), '=')->0;
    let rest = vars.drop_first();
    if i == 0 {
        assert forall|j: int| 0 <= j < rest.len() implies !sets_key(#[trigger] rest[j], key) by {
            assert(rest[j] == vars[j + 1]);
        }
        lemma_pairs_leave(m.insert(k, v), rest, key);
    } else {
        assert(rest[i - 1] == vars[i]);
        assert forall|j: int| i - 1 < j < rest.len() implies !sets_key(#[trigger] rest[j], key) by {
            assert(rest[j] == vars[j + 1]);
        }
        lemma_pairs_last(m.insert(k, v), rest, key, i - 1);
    }
}

/// Pairs are read exactly where each of them has an `=`.
proof fn lemma_pairs_read(m: Map<Seq<char>, Seq<char>>, vars: Seq<Seq<char>>)
    ensures
        with_pairs(m, vars) is Some <==> forall|j: int|
            0 <= j < vars.len() ==> (#[trigger] vars[j]).contains('='),
    decreases vars.len(),
{
    if vars.len() > 0 {
        split::lemma_cut(vars.first(), '=');
        let rest = vars.drop_first();
        if vars.first().contains('=') {
            let (k, v) = split::cut(vars.first(), '=')->0;
            lemma_pairs_read(m.insert(k, v), rest);
            if forall|j: int| 0 <= j < vars.len() ==> (#[trigger] vars[j]).contains('=') {
                assert forall|j: int| 0 <= j < rest.len() implies (#[trigger] rest[j]).contains('=') by {
                    assert(rest[j] == vars[j + 1]);
                }
            }
            if forall|j: int| 0 <= j < rest.len() ==> (#[trigger] rest[j]).contains('=') {
                assert forall|j: int| 0 <= j < vars.len() implies (#[trigger] vars[j]).contains('=') by {
                    if j > 0 {
                        assert(rest[j - 1] == vars[j]);
                    }
                }
            }
        } else {
            assert(!vars[0].contains('='));
        }
    }
}

/// A variable has the value that its last `KEY=VALUE` gives it, which may hold `=`
/// itself; a variable that is not given is not set; and each must have an `=`.
pub proof fn lemma_variables_read(
    vars: Vec<String>,
    key: Seq<char>,
    i: int,
    r: Result<StrMap<String>, String>,
)
    requires
        call_ensures(parse_env_vars, (&vars,), r),
        !key.contains('='),
    ensures
        r is Ok <==> forall|j: int| 0 <= j < vars@.len() ==> (#[trigger] vars@[j])@.contains('='),
        r is Ok && 0 <= i < vars@.len() && sets_key(vars@[i]@, key) && (forall|j: int|
            i < j < vars@.len() ==> !sets_key((#[trigger] vars@[j])@, key)) ==> (
        r->Ok_0)@.contains_key(key) && vars@[i]@ == key.push('=') + (r->Ok_0)@[key]@,
        r is Ok && (forall|j: int| 0 <= j < vars@.len() ==> !sets_key((#[trigger] vars@[j])@, key))
            ==> !(r->Ok_0)@.contains_key(key),
{
    let texts = text::strs(vars@);
    let none = Map::<Seq<char>, Seq<char>>::empty();
    lemma_pairs_read(none, texts);
    assert forall|j: int| 0 <= j < vars@.len() implies (#[trigger] vars@[j])@ == texts[j] by {}
    if r is Ok {
        let out = strmap::texts((r->Ok_0)@);
        assert forall|j: int| 0 <= j < vars@.len() implies (#[trigger] vars@[j])@.contains('=') by {
            assert(texts[j].contains('='));
        }
        if 0 <= i < vars@.len() && sets_key(vars@[i]@, key) && (forall|j: int|
            i < j < vars@.len() ==> !sets_key((#[trigger] vars@[j])@, key)) {
            assert forall|j: int| i < j < texts.len() implies !sets_key(#[trigger] texts[j], key) by {
                assert(texts[j] == vars@[j]@);
            }
            lemma_pairs_last(none, texts, key, i);
            let s = vars@[i]@;
            assert(s =~= s.take(key.len() as int + 1) + s.skip(key.len() as int + 1));
            assert(out.contains_key(key));
            assert(out[key] == (r->Ok_0)@[key]@);
        }
        if forall|j: int| 0 <= j < vars@.len() ==> !sets_key((#[trigger] vars@[j])@, key) {
            assert forall|j: int| 0 <= j < texts.len() implies !sets_key(#[trigger] texts[j], key) by {
                assert(texts[j] == vars@[j]@);
            }
            lemma_pairs_leave(none, texts, key);
            assert(!out.contains_key(key));
        }
    } else {
        if forall|j: int| 0 <= j < vars@.len() ==> (#[trigger] vars@[j])@.contains('=') {
            assert forall|j: int| 0 <= j < texts.len() implies (#[trigger] texts[j]).contains('=') by {
                assert(texts[j] == vars@[j]@);
            }
        }
    }
}

/// A variable of the last file goes before those of the files before it, and one
/// that is given goes before them all.
pub proof fn lemma_given_before_files(
    files: Vec<StrMap<String>>,
    vars: Vec<String>,
    key: Seq<char>,
    i: int,
    r: StrMap<String>,
)
    requires
        call_ensures(merge_env, (&files, &vars), Ok::<StrMap<String>, String>(r)),
        !key.contains('='),
    ensures
        0 <= i < vars@.len() && sets_key(vars@[i]@, key) && (forall|j: int|
            i < j < vars@.len() ==> !sets_key((#[trigger] vars@[j])@, key)) ==> r@.contains_key(key)
            && vars@[i]@ == key.push('=') + r@[key]@,
        (forall|j: int| 0 <= j < vars@.len() ==> !sets_key((#[trigger] vars@[j])@, key)) && 0 <= i
            < files@.len() && files@[i]@.contains_key(key) && (forall|j: int|
            i < j < files@.len() ==> !(#[trigger] files@[j])@.contains_key(key)) ==> r@.contains_key(key)
            && r@[key]@ == files@[i]@[key]@,
        (forall|j: int| 0 <= j < vars@.len() ==> !sets_key((#[trigger] vars@[j])@, key)) && (forall|
            j: int,
        |
            0 <= j < files@.len() ==> !(#[trigger] files@[j])@.contains_key(key)) ==> !r@.contains_key(
            key,
        ),
{
    let texts = text::strs(vars@);
    let from = merged_files(files@);
    let out = strmap::texts(r@);
    assert(out.contains_key(key) <==> r@.contains_key(key));
    assert(r@.contains_key(key) ==> out[key] == r@[key]@);
    if 0 <= i < vars@.len() && sets_key(vars@[i]@, key) && (forall|j: int|
        i < j < vars@.len() ==> !sets_key((#[trigger] vars@[j])@, key)) {
        assert forall|j: int| i < j < texts.len() implies !sets_key(#[trigger] texts[j], key) by {
            assert(texts[j] == vars@[j]@);
        }
        lemma_pairs_last(from, texts, key, i);
        let s = vars@[i]@;
        assert(s =~= s.take(key.len() as int + 1) + s.skip(key.len() as int + 1));
    }
    if forall|j: int| 0 <= j < vars@.len() ==> !sets_key((#[trigger] vars@[j])@, key) {
        assert forall|j: int| 0 <= j < texts.len() implies !sets_key(#[trigger] texts[j], key) by {
            assert(texts[j] == vars@[j]@);
        }
        lemma_pairs_leave(from, texts, key);
        lemma_files_merged(files@, key, i);
    }
}

/// The last file with a variable gives its value.
proof fn lemma_files_merged(files: Seq<StrMap<String>>, key: Seq<char>, i: int)
    ensures
        0 <= i < files.len() && files[i]@.contains_key(key) && (forall|j: int|
            i < j < files.len() ==> !(#[trigger] files[j])@.contains_key(key)) ==> merged_files(
            files,
        ).contains_key(key) && merged_files(files)[key] == files[i]@[key]@,
        (forall|j: int| 0 <= j < files.len() ==> !(#[trigger] files[j])@.contains_key(key))
            ==> !merged_files(files).contains_key(key),
    decreases files.len(),
{
    if files.len() > 0 {
        let before = files.drop_last();
        lemma_files_merged(before, key, i);
        assert forall|j: int| 0 <= j < before.len() implies #[trigger] before[j] == files[j] by {}
        let last = files[files.len() - 1];
        assert(last == files.last());
        assert(strmap::texts(last@).contains_key(key) <==> last@.contains_key(key));
        if last@.contains_key(key) {
            assert(strmap::texts(last@)[key] == last@[key]@);
        }
    }
}

/// A line of a file of variables sets the variable before its `=` to what is behind
/// it, without the white space around either. An empty line and a comment set
/// nothing.
pub proof fn lemma_env_line(
    m: Map<Seq<char>, Seq<char>>,
    line: Seq<char>,
    key: Seq<char>,
    value: Seq<char>,
)
    ensures
        split::trimmed(line).len() == 0 ==> env_line(m, line) == m,
        split::trimmed(line).len() > 0 && split::trimmed(line)[0] == '#' ==> env_line(m, line) == m,
        split::trimmed(line) == key + seq!['='] + value && !key.contains('=') && split::trimmed(line)[0]
            != '#' ==> {
            let out = env_line(m, line);
            &&& out.contains_key(split::trimmed(key))
            &&& out[split::trimmed(key)] == split::trimmed(value)
            &&& forall|k: Seq<char>|
                k != split::trimmed(key) ==> (#[trigger] out.contains_key(k) <==> m.contains_key(k)) && (
                m.contains_key(k) ==> out[k] == m[k])
        },
{
    let t = split::trimmed(line);
    if t == key + seq!['='] + value && !key.contains('=') {
        let n = key.len() as int;
        assert(t[n] == '=');
        assert forall|j: int| 0 <= j < n implies t[j] != '=' by {
            assert(t[j] == key[j]);
            assert(key.contains(key[j]));
        }
        split::lemma_cut_at(t, '=', n);
        assert(t.contains('='));
        assert(t.take(n) =~= key);
        assert(t.skip(n + 1) =~= value);
    }
}

/// A size is so many bytes, and with a unit behind it so many of the unit, each of
/// 1024 of the one before: `k`, `m` and `g`, with or without `b`.
pub proof fn lemma_size_units(n: u32, s: &str, r: Option<Result<u64, String>>)
    requires
        call_ensures(size_in_bytes, (s,), r),
    ensures
        s@ == number::decimal(n as nat) ==> (r matches Some(Ok(v)) && v == n),
        s@ == number::decimal(n as nat).push('b') ==> (r matches Some(Ok(v)) && v == n),
        s@ == number::decimal(n as nat).push('k') || s@ == number::decimal(n as nat).push('k').push('b')
            ==> (r matches Some(Ok(v)) && v == n * 1024),
        s@ == number::decimal(n as nat).push('m') || s@ == number::decimal(n as nat).push('m').push('b')
            ==> (r matches Some(Ok(v)) && v == n * (1024 * 1024)),
        s@ == number::decimal(n as nat).push('g') || s@ == number::decimal(n as nat).push('g').push('b')
            ==> (r matches Some(Ok(v)) && v == n * (1024 * 1024 * 1024)),
        s@.len() == 0 ==> r is Some && r->0 is Err,
{
    let d = number::decimal(n as nat);
    number::lemma_decimal_value(n as nat);
    number::lemma_u64_round_trip(n as u64);
    lemma_unit_suffixes(d, s@);
    assert(d.push('b').take(d.len() as int) =~= d);
    assert(d.push('k').take(d.len() as int) =~= d);
    assert(d.push('m').take(d.len() as int) =~= d);
    assert(d.push('g').take(d.len() as int) =~= d);
    assert(d.push('k').push('b').take(d.len() as int) =~= d);
    assert(d.push('m').push('b').take(d.len() as int) =~= d);
    assert(d.push('g').push('b').take(d.len() as int) =~= d);
    if s@.len() > d.len() && s@.take(d.len() as int) == d && !number::is_digit(s@.last()) {
        assert(number::unsigned_value(s@) is None) by {
            assert(s@.first() == d[0]);
            assert(number::is_digit(d[0]));
            assert(!number::is_digit(s@[s@.len() - 1]));
        }
        assert(number::parsed_u64(s@) is None);
        if size_parts(s@) is Some && (size_parts(s@)->0).0 == d {
            let unit = (size_parts(s@)->0).1;
            assert(size_of(s@) == Ok::<nat, Seq<char>>(n as nat * unit));
        }
    }
    assert(n as nat * 1nat == n);
    assert(n as nat * 1048576nat <= u64::MAX);
    assert(n as nat * 1073741824nat <= u64::MAX);
}

/// What is left of a size without its unit, and the unit.
#[verifier::rlimit(50)]
proof fn lemma_unit_suffixes(d: Seq<char>, s: Seq<char>)
    requires
        d.len() > 0,
        number::all_digits(d),
    ensures
        s == d.push('b') ==> size_parts(s) == Some((d, 1nat)),
        s == d.push('k') || s == d.push('k').push('b') ==> size_parts(s) == Some((d, 1024nat)),
        s == d.push('m') || s == d.push('m').push('b') ==> size_parts(s) == Some((d, 1048576nat)),
        s == d.push('g') || s == d.push('g').push('b') ==> size_parts(s) == Some((d, 1073741824nat)),
{
    reveal_strlit("b");
    reveal_strlit("k");
    reveal_strlit("m");
    reveal_strlit("g");
    reveal_strlit("kb");
    reveal_strlit("mb");
    reveal_strlit("gb");
    assert(number::is_digit(d[d.len() - 1]));
    if s.len() > 0 {
        lemma_ends(s);
    }
    lemma_ends(d);
    if s == d.push('b') {
        assert(s[s.len() - 2] == d[d.len() - 1]);
        lemma_strip_one(d, 'b');
        assert("b"@ =~= seq!['b']);
    }
    if s == d.push('k') {
        lemma_strip_one(d, 'k');
        assert("k"@ =~= seq!['k']);
        assert(s[s.len() - 2] == d[d.len() - 1]);
    }
    if s == d.push('m') {
        lemma_strip_one(d, 'm');
        assert("m"@ =~= seq!['m']);
        assert(s[s.len() - 2] == d[d.len() - 1]);
    }
    if s == d.push('g') {
        lemma_strip_one(d, 'g');
        assert("g"@ =~= seq!['g']);
        assert(s[s.len() - 2] == d[d.len() - 1]);
    }
    if s == d.push('k').push('b') {
        assert(s.take(s.len() - 2) =~= d);
        assert(split::without_suffixes(d, "kb"@) == d);
        assert(split::without_suffixes(s, "kb"@) == d);
        assert(split::without_suffixes(d, "k"@) == d);
    }
    if s == d.push('m').push('b') {
        assert(s.take(s.len() - 2) =~= d);
        assert(split::without_suffixes(d, "mb"@) == d);
        assert(split::without_suffixes(s, "mb"@) == d);
        assert(split::without_suffixes(d, "m"@) == d);
    }
    if s == d.push('g').push('b') {
        assert(s.take(s.len() - 2) =~= d);
        assert(split::without_suffixes(d, "gb"@) == d);
        assert(split::without_suffixes(s, "gb"@) == d);
        assert(split::without_suffixes(d, "g"@) == d);
    }
}

/// A text ends in a unit where its last characters are those of the unit.
proof fn lemma_ends(s: Seq<char>)
    requires
        s.len() > 0,
    ensures
        text::has_suffix(s, "b"@) <==> s.last() == 'b',
        text::has_suffix(s, "k"@) <==> s.last() == 'k',
        text::has_suffix(s, "m"@) <==> s.last() == 'm',
        text::has_suffix(s, "g"@) <==> s.last() == 'g',
        text::has_suffix(s, "kb"@) <==> s.len() > 1 && s.last() == 'b' && s[s.len() - 2] == 'k',
        text::has_suffix(s, "mb"@) <==> s.len() > 1 && s.last() == 'b' && s[s.len() - 2] == 'm',
        text::has_suffix(s, "gb"@) <==> s.len() > 1 && s.last() == 'b' && s[s.len() - 2] == 'g',
{
    reveal_strlit("b");
    reveal_strlit("k");
    reveal_strlit("m");
    reveal_strlit("g");
    reveal_strlit("kb");
    reveal_strlit("mb");
    reveal_strlit("gb");
    let one = s.skip(s.len() - 1);
    assert(one.len() == 1 && one[0] == s.last());
    assert(one == "b"@ <==> one =~= "b"@);
    assert(one == "k"@ <==> one =~= "k"@);
    assert(one == "m"@ <==> one =~= "m"@);
    assert(one == "g"@ <==> one =~= "g"@);
    if s.len() > 1 {
        let two = s.skip(s.len() - 2);
        assert(two.len() == 2 && two[0] == s[s.len() - 2] && two[1] == s.last());
        assert(two == "kb"@ <==> two =~= "kb"@);
        assert(two == "mb"@ <==> two =~= "mb"@);
        assert(two == "gb"@ <==> two =~= "gb"@);
    }
}

/// One unit at the end of a number is taken off.
proof fn lemma_strip_one(d: Seq<char>, c: char)
    requires
        d.len() > 0,
        number::all_digits(d),
        c == 'b' || c == 'k' || c == 'm' || c == 'g',
    ensures
        split::without_suffixes(d.push(c), seq![c]) == d,
{
    let s = d.push(c);
    assert(number::is_digit(d[d.len() - 1]));
    assert(s.skip(s.len() - 1) =~= seq![c]);
    assert(s.take(s.len() - 1) =~= d);
    assert(d.skip(d.len() - 1)[0] == d.last());
    assert(!text::has_suffix(d, seq![c]));
    reveal_with_fuel(split::without_suffixes, 3);
}

/// A platform is accepted exactly where it is that of the host, with Linux in it.
pub proof fn lemma_only_the_hosts_platform(
    platform: Result<Platform, String>,
    host_arch: &str,
    r: Result<(), String>,
)
    requires
        call_ensures(validate_runtime_platform, (&platform, host_arch), r),
    ensures
        r is Ok <==> platform is Ok && platform->Ok_0.os@ == "linux"@ && platform->Ok_0.architecture@
            == host_arch@,
        platform is Err ==> r->Err_0@ == platform->Err_0@,
{
}

/// The options are accepted exactly where there is a CPU and no more than 255, no
/// device and no GPU, nothing against the security options, and no platform but the
/// host's. What comes first in this order is what is complained of.
pub proof fn lemma_options_accepted(
    args: CommonBoxArgs,
    security: Result<(), String>,
    platform: Result<Platform, String>,
    host_arch: &str,
    r: Result<(), String>,
)
    requires
        call_ensures(validate_common_args, (&args, &security, &platform, host_arch), r),
    ensures
        r is Ok <==> 1 <= args.cpus <= 255 && args.device@.len() == 0 && args.gpus is None && security
            is Ok && (args.platform is Some ==> platform is Ok && platform->Ok_0.os@ == "linux"@
            && platform->Ok_0.architecture@ == host_arch@),
        1 <= args.cpus <= 255 && args.device@.len() == 0 && args.gpus is None && security is Err
            ==> r->Err_0@ == security->Err_0@,
{
}

/// A limit is what it was asked to be, and is not set where none was asked for.
/// Swap without limit is asked for by `-1`.
pub proof fn lemma_limits_as_asked(args: CommonBoxArgs, r: Option<Result<ResourceLimits, String>>)
    requires
        call_ensures(checked_resource_limits, (&args,), r),
    ensures
        r matches Some(Ok(l)) ==> {
            &&& l.pids_limit == args.pids_limit
            &&& l.cpu_shares == args.cpu_shares
            &&& l.cpu_quota == args.cpu_quota
            &&& l.cpu_period == args.cpu_period
            &&& text::opt_str(l.cpuset_cpus) == text::opt_str(args.cpuset_cpus)
            &&& text::same_texts(l.ulimits@, args.ulimits@)
            &&& l.memory_reservation is Some <==> args.memory_reservation is Some
            &&& l.memory_swap is Some <==> args.memory_swap is Some
            &&& args.memory_swap is Some && args.memory_swap->0@ == "-1"@ ==> l.memory_swap == Some(
                -1i64,
            )
        },
        args.memory_reservation is None && args.memory_swap is None ==> r is Some && r->0 is Ok,
{
    if r is Some && r->0 is Ok {
        let l = r->0->Ok_0;
        text::lemma_same_texts(l.ulimits@, args.ulimits@);
        assert(limits_of(args) == Ok::<ResourceLimitsView, Seq<char>>(l@));
        assert(l@.ulimits == text::strs(args.ulimits@));
    }
}

/// A reservation of memory is read as a size: so many of the unit, in bytes.
pub proof fn lemma_reservation_is_a_size(
    args: CommonBoxArgs,
    l: ResourceLimits,
    size: Option<Result<u64, String>>,
    s: &str,
)
    requires
        call_ensures(checked_resource_limits, (&args,), Some(Ok::<ResourceLimits, String>(l))),
        args.memory_reservation is Some,
        args.memory_reservation->0@ == s@,
        call_ensures(checked_memory_bytes, (s,), size),
    ensures
        size is Some && size->0 is Ok,
        l.memory_reservation == Some(size->0->Ok_0),
{
    assert(limits_of(args) == Ok::<ResourceLimitsView, Seq<char>>(l@));
}

/// A size may have white space around it and capitals in its unit.
pub proof fn lemma_size_text_plain(
    s: &str,
    bare: &str,
    r: Option<Result<u64, String>>,
    same: Option<Result<u64, String>>,
)
    requires
        case::plain(split::trimmed(s@)),
        bare@ == split::lowered(split::trimmed(s@)),
        call_ensures(checked_memory_bytes, (s,), r),
        call_ensures(size_in_bytes, (bare,), same),
    ensures
        r is Some <==> same is Some,
        r is Some ==> (r->0 is Ok <==> same->0 is Ok),
        r is Some && r->0 is Ok ==> r->0->Ok_0 == same->0->Ok_0,
{
}

/// A check that is declared is run by a shell, as often and as long as was said, and
/// goes before that of the image; where checks are off there is none.
pub proof fn lemma_health_check_chosen(
    args: CommonBoxArgs,
    image: Option<HealthCheck>,
    r: Option<HealthCheck>,
)
    requires
        call_ensures(effective_health_check, (&args, &image), r),
    ensures
        args.no_healthcheck ==> r is None,
        !args.no_healthcheck && args.health_cmd is Some ==> {
            &&& r is Some
            &&& r->0.cmd@.len() == 3 && r->0.cmd@[0]@ == "sh"@ && r->0.cmd@[1]@ == "-c"@
            &&& r->0.cmd@[2]@ == args.health_cmd->0@
            &&& r->0.interval_secs == args.health_interval && r->0.timeout_secs == args.health_timeout
            &&& r->0.retries == args.health_retries && r->0.start_period_secs
                == args.health_start_period
        },
        !args.no_healthcheck && args.health_cmd is None ==> state::opt_health(r) == state::opt_health(
            image,
        ),
{
    if !args.no_healthcheck && args.health_cmd is Some {
        let c = r->0.cmd@;
        assert(state::opt_health(r) == Some(r->0@));
        assert(text::strs(c).len() == c.len());
        assert(text::strs(c)[0] == c[0]@ && text::strs(c)[1] == c[1]@ && text::strs(c)[2] == c[2]@);
    }
}

/// The signal that is asked for goes before that of the image.
pub proof fn lemma_stop_signal_chosen(asked: Option<String>, image: Option<String>, r: Option<String>)
    requires
        call_ensures(effective_stop_signal, (&asked, &image), r),
    ensures
        asked is Some ==> r is Some && r->0@ == asked->0@,
        asked is None ==> text::opt_str(r) == text::opt_str(image),
{
}

/// A user is known by number, as it is written; `root` is number 0; a group behind a
/// colon is read in the same way; and any other name is refused.
pub proof fn lemma_user_by_number(s: &str, n: u32, g: u32, r: Result<String, String>)
    requires
        call_ensures(normalize_user, (s,), r),
    ensures
        s@ == "root"@ ==> r is Ok && r->Ok_0@ == "0"@,
        s@ == number::decimal(n as nat) ==> r is Ok && r->Ok_0@ == s@,
        s@ == number::decimal(n as nat) + ":"@ + number::decimal(g as nat) ==> r is Ok && r->Ok_0@ == s@,
        s@ == "root:root"@ ==> r is Ok && r->Ok_0@ == "0"@ + ":"@ + "0"@,
        s@.len() == 0 ==> r is Err,
        r is Ok && s@ != "root"@ && !s@.contains(':') ==> r->Ok_0@ == s@ && number::parsed_u32(s@) is Some,
{
    lemma_account_number(n);
    lemma_account_number(g);
    let d = number::decimal(n as nat);
    let e = number::decimal(g as nat);
    split::lemma_cut(s@, ':');
    if s@ == "root"@ {
        assert(!s@.contains(':')) by {
            reveal_strlit("root");
        }
    }
    if s@ == d {
        assert(!s@.contains(':')) by {
            if s@.contains(':') {
                let k = choose|k: int| 0 <= k < s@.len() && s@[k] == ':';
                assert(number::is_digit(d[k]));
            }
        }
    }
    if s@ == d + ":"@ + e {
        lemma_user_and_group(d, e);
    }
    if s@ == "root:root"@ {
        assert("root:root"@ == "root"@ + ":"@ + "root"@ && !"root"@.contains(':')) by {
            reveal_strlit("root");
            reveal_strlit(":");
            reveal_strlit("root:root");
            assert("root:root"@ =~= "root"@ + ":"@ + "root"@);
        }
        lemma_user_and_group("root"@, "root"@);
    }
    if s@.len() == 0 {
        assert(account_of(s@) is None) by {
            reveal_strlit("root");
        }
    }
}

/// A user and a group are parted at the colon.
proof fn lemma_user_and_group(user: Seq<char>, group: Seq<char>)
    requires
        number::all_digits(user) || !user.contains(':'),
    ensures
        split::cut(user + ":"@ + group, ':') == Some((user, group)),
{
    reveal_strlit(":");
    let s = user + ":"@ + group;
    let k = user.len() as int;
    assert(s[k] == ':');
    assert forall|j: int| 0 <= j < k implies s[j] != ':' by {
        assert(s[j] == user[j]);
        assert(user.contains(user[j]));
        if number::all_digits(user) {
            assert(number::is_digit(user[j]));
        }
    }
    split::lemma_cut_at(s, ':', k);
    assert(s.contains(':'));
    assert(s.take(k) =~= user);
    assert(s.skip(k + 1) =~= group);
}

/// A number is an account as it is written.
proof fn lemma_account_number(n: u32)
    ensures
        account_of(number::decimal(n as nat)) == Some(number::decimal(n as nat)),
        number::all_digits(number::decimal(n as nat)),
{
    reveal_strlit("root");
    let d = number::decimal(n as nat);
    number::lemma_decimal_value(n as nat);
    assert(number::is_digit(d[0]));
    assert("root"@[0] == 'r');
    assert(number::parsed_u32(d) == Some(n));
}

/// A port is kept as it is written, in its place, without the `/tcp` at its end; any
/// other protocol is refused.
pub proof fn lemma_ports_kept(ports: Vec<String>, i: int, r: Result<Vec<String>, String>)
    requires
        call_ensures(normalize_port_maps, (&ports,), r),
        0 <= i < ports@.len(),
    ensures
        r is Ok ==> (r->Ok_0)@.len() == ports@.len(),
        r is Ok && !ports@[i]@.contains('/') ==> (r->Ok_0)@[i]@ == ports@[i]@,
        r is Ok && ports@[i]@.contains('/') ==> ports@[i]@ == (r->Ok_0)@[i]@ + "/tcp"@,
        (forall|j: int| 0 <= j < ports@.len() ==> !(#[trigger] ports@[j])@.contains('/')) ==> r is Ok,
        text::has_suffix(ports@[i]@, "/udp"@) ==> r is Err,
{
    let s = ports@[i]@;
    split::lemma_cut(s, '/');
    reveal_strlit("tcp");
    reveal_strlit("/tcp");
    reveal_strlit("/udp");
    if r is Ok {
        let out = (r->Ok_0)@[i]@;
        assert(port_of(s) == Some(out));
        if s.contains('/') {
            assert(out.push('/') + "tcp"@ =~= out + "/tcp"@);
            if text::has_suffix(s, "/udp"@) {
                assert(s.skip(s.len() - 4)[1] == s[s.len() - 3]);
                assert(s[s.len() - 3] == 't');
            }
        } else if text::has_suffix(s, "/udp"@) {
            assert(s.skip(s.len() - 4)[0] == s[s.len() - 4]);
            assert(s.contains(s[s.len() - 4]));
        }
    } else if forall|j: int| 0 <= j < ports@.len() ==> !(#[trigger] ports@[j])@.contains('/') {
        let texts = text::strs(ports@);
        let k = choose|k: int| first_bad_port(texts, k) && (r->Err_0)@ == port_error(texts[k]);
        assert(texts[k] == ports@[k]@);
        split::lemma_cut(texts[k], '/');
    }
}

/// The words of an entrypoint are its parts, and there is none without one.
pub proof fn lemma_entrypoint_split(
    entrypoint: Option<String>,
    s: &str,
    words: Vec<String>,
    r: Option<Vec<String>>,
)
    requires
        entrypoint is Some ==> entrypoint->0@ == s@,
        call_ensures(split::split_whitespace, (s,), words),
        call_ensures(split_entrypoint, (&entrypoint,), r),
    ensures
        r is Some <==> entrypoint is Some,
        r is Some ==> text::same_texts(r->0@, words@),
{
    if r is Some {
        text::lemma_same_texts(r->0@, words@);
        assert(text::opt_strs(r) == Some(text::strs(r->0@)));
    }
}

/// A file that cannot be read is told of; one that can gives what its lines set, and a
/// file of nothing sets nothing.
pub proof fn lemma_env_file_read(
    path: &str,
    content: Result<String, String>,
    key: Seq<char>,
    value: Seq<char>,
    r: Result<StrMap<String>, String>,
)
    requires
        call_ensures(parse_env_file, (path, &content), r),
    ensures
        r is Ok <==> content is Ok,
        content is Ok && content->Ok_0@.len() == 0 ==> (r->Ok_0)@.dom() =~= Set::<Seq<char>>::empty(),
        content is Ok && content->Ok_0@ == key + seq!['='] + value && !key.contains('=')
            && !content->Ok_0@.contains('\n') && split::trimmed(content->Ok_0@) == content->Ok_0@
            && content->Ok_0@[0] != '#' ==> (r->Ok_0)@.contains_key(split::trimmed(key))
            && (r->Ok_0)@[split::trimmed(key)]@ == split::trimmed(value),
{
    if content is Ok {
        let s = content->Ok_0@;
        let m = strmap::texts((r->Ok_0)@);
        if s.len() == 0 {
            assert(split::line_list(s).len() == 0);
            assert(m =~= Map::<Seq<char>, Seq<char>>::empty());
            assert((r->Ok_0)@.dom() =~= m.dom());
        }
        if s == key + seq!['='] + value && !key.contains('=') && !s.contains('\n') && split::trimmed(s) == s
            && s[0] != '#' {
            split::lemma_cut(s, '\n');
            let lines = split::line_list(s);
            assert(lines =~= seq![s]);
            let none = Map::<Seq<char>, Seq<char>>::empty();
            assert(lines.drop_last().len() == 0);
            assert(env_file_map(lines.drop_last()) == none);
            lemma_env_line(none, s, key, value);
            assert(m.contains_key(split::trimmed(key)));
        }
    }
}

/// A number is the same with a sign, as long as it fits.
pub proof fn lemma_signed(n: u64, r: i64)
    requires
        call_ensures(signed, (n,), r),
    ensures
        n <= i64::MAX ==> r == n,
        n > i64::MAX ==> r < 0,
{
}

/// A size that is not given is none, and one that is given is read or refused with the
/// name of its option.
pub proof fn lemma_optional_size(o: Option<String>, flag: &str, r: Result<Option<u64>, String>)
    requires
        opt_size_fits(o),
        call_ensures(parse_opt_size, (&o, flag), r),
    ensures
        o is None ==> r is Ok && r->Ok_0 is None,
        o is Some && r is Ok ==> r->Ok_0 is Some,
{
}

/// A user that is not given is none, and one that is given is known by number or
/// refused.
pub proof fn lemma_optional_user(
    user: Option<String>,
    s: &str,
    read: Result<String, String>,
    r: Result<Option<String>, String>,
)
    requires
        user is Some ==> user->0@ == s@,
        call_ensures(normalize_user, (s,), read),
        call_ensures(normalize_user_option, (&user,), r),
    ensures
        user is None ==> r is Ok && r->Ok_0 is None,
        user is Some ==> (r is Ok <==> read is Ok),
        user is Some && r is Ok ==> r->Ok_0 is Some && r->Ok_0->0@ == read->Ok_0@,
{
}

/// Pairs are read in the same way whatever they are called.
pub proof fn lemma_pairs_read_alike(
    vars: Vec<String>,
    what: &str,
    map: &mut StrMap<String>,
    read: Result<StrMap<String>, String>,
    named: Result<StrMap<String>, String>,
    put: Result<(), String>,
)
    requires
        old(map)@ == Map::<Seq<char>, String>::empty(),
        call_ensures(parse_env_vars, (&vars,), read),
        call_ensures(parse_pairs_as, (&vars, what), named),
        call_ensures(insert_pairs, (map, &vars), put),
    ensures
        named is Ok <==> read is Ok,
        put is Ok <==> read is Ok,
        read is Ok ==> strmap::texts((named->Ok_0)@) == strmap::texts((read->Ok_0)@),
        read is Ok ==> strmap::texts(final(map)@) == strmap::texts((read->Ok_0)@),
{
    assert(strmap::texts(old(map)@) =~= Map::<Seq<char>, Seq<char>>::empty());
}

/// A limit of swap is a size, but for `-1`, and is kept as it is read.
pub proof fn lemma_swap_is_a_size(
    args: CommonBoxArgs,
    l: ResourceLimits,
    size: Option<Result<u64, String>>,
    s: &str,
)
    requires
        call_ensures(checked_resource_limits, (&args,), Some(Ok::<ResourceLimits, String>(l))),
        args.memory_swap is Some,
        args.memory_swap->0@ == s@,
        s@ != "-1"@,
        call_ensures(checked_memory_bytes, (s,), size),
    ensures
        size is Some && size->0 is Ok,
        l.memory_swap is Some,
        size->0->Ok_0 <= i64::MAX ==> l.memory_swap->0 == size->0->Ok_0,
{
    assert(limits_of(args) == Ok::<ResourceLimitsView, Seq<char>>(l@));
}

} // verus!
