//! `compose ps`, `compose config` and `compose logs`.

use vstd::prelude::*;

use crate::commands::compose;
use crate::commands::compose::{ServiceConfig, LABEL_PROJECT, LABEL_SERVICE};
use crate::layout;
use crate::layout::{pad, repeat_char, tail_prefixed};
use crate::number;
use crate::number::{u32_text, usize_text};
use crate::seqs;
use crate::split;
use crate::split::{join, lines};
use crate::state;
use crate::state::{BoxRecord, RecordView, StateFile};
use crate::strmap::StrMap;
use crate::text;
use crate::text::{cat2, cat3, cat4, cat5, str_eq};

verus! {

/// The records of a project's boxes.
pub open spec fn project_records(records: Seq<RecordView>, project: Seq<char>) -> Seq<RecordView> {
    records.filter(|r: RecordView| state::label(r, LABEL_PROJECT@) == Some(project))
}

/// What is said of a project without boxes.
pub open spec fn no_services(project: Seq<char>) -> Seq<char> {
    "No services found for project '"@ + project + "'."@
}

/// The name of a box's service, or a question mark.
pub open spec fn shown_service(r: RecordView) -> Seq<char> {
    match state::label(r, LABEL_SERVICE@) {
        Some(name) => name,
        None => "?"@,
    }
}

/// The name of a box's service, or a question mark.
pub fn service_label(record: &BoxRecord) -> (r: String)
    ensures
        r@ == shown_service(record@),
{
    match record.label(LABEL_SERVICE) {
        Some(name) => name.clone(),
        None => "?".to_string(),
    }
}

// ---------------------------------------------------------------------------
// compose ps
// ---------------------------------------------------------------------------

/// A line of `compose ps`.
pub open spec fn ps_columns(
    service: Seq<char>,
    image: Seq<char>,
    status: Seq<char>,
    health: Seq<char>,
    pid: Seq<char>,
) -> Seq<char> {
    layout::padded(service, 20) + " "@ + layout::padded(image, 30) + " "@ + layout::padded(
        status,
        12,
    ) + " "@ + layout::padded(health, 12) + " "@ + layout::padded(pid, 10)
}

/// A line of `compose ps`.
fn ps_line(service: &str, image: &str, status: &str, health: &str, pid: &str) -> (r: String)
    ensures
        r@ == ps_columns(service@, image@, status@, health@, pid@),
{
    let mut s: String = pad(service, 20);
    s.append(" ");
    s.append(pad(image, 30).as_str());
    s.append(" ");
    s.append(pad(status, 12).as_str());
    s.append(" ");
    s.append(pad(health, 12).as_str());
    s.append(" ");
    s.append(pad(pid, 10).as_str());
    s
}

/// The process of a box, or a dash.
pub open spec fn shown_pid(pid: Option<u32>) -> Seq<char> {
    match pid {
        Some(p) => number::decimal(p as nat),
        None => "-"@,
    }
}

/// The line of a box in `compose ps`.
pub open spec fn ps_row(r: RecordView) -> Seq<char> {
    ps_columns(shown_service(r), r.image, r.status, r.health_status, shown_pid(r.pid))
}

/// What `compose ps` shows of the boxes of a project.
pub open spec fn ps_output(project: Seq<char>, boxes: Seq<RecordView>) -> Seq<Seq<char>> {
    if boxes.len() == 0 {
        seq![no_services(project)]
    } else {
        seq![
            ps_columns("SERVICE"@, "IMAGE"@, "STATUS"@, "HEALTH"@, "PID"@),
            layout::repeated('-', 84),
        ] + boxes.map_values(|r: RecordView| ps_row(r))
    }
}

/// The lines that `compose ps` prints.
pub fn execute_ps(project_name: &str, state: &StateFile) -> (r: Vec<String>)
    ensures
        text::strs(r@) == ps_output(project_name@, project_records(state@, project_name@)),
{
    broadcast use crate::text::lemma_strs_push;

    let boxes: Vec<&BoxRecord> = state.find_by_label(LABEL_PROJECT, project_name);
    let ghost views = project_records(state@, project_name@);
    assert(state::ref_views(boxes@) == views);
    let mut out: Vec<String> = Vec::new();
    assert(text::strs(out@) =~= seq![]);
    if boxes.len() == 0 {
        out.push(cat3("No services found for project '", project_name, "'."));
        assert(text::strs(out@) =~= seq![no_services(project_name@)]);
        return out;
    }
    out.push(ps_line("SERVICE", "IMAGE", "STATUS", "HEALTH", "PID"));
    out.push(repeat_char('-', 84));
    let ghost head = text::strs(out@);
    let ghost rows = views.map_values(|r: RecordView| ps_row(r));
    proof {
        assert(head =~= seq![
            ps_columns("SERVICE"@, "IMAGE"@, "STATUS"@, "HEALTH"@, "PID"@),
            layout::repeated('-', 84),
        ]);
        assert(text::strs(out@) =~= head + rows.take(0));
    }
    let mut i: usize = 0;
    while i < boxes.len()
        invariant
            i <= boxes.len(),
            state::ref_views(boxes@) == views,
            rows == views.map_values(|r: RecordView| ps_row(r)),
            text::strs(out@) =~= head + rows.take(i as int),
        decreases boxes.len() - i,
    {
        let record: &BoxRecord = boxes[i];
        assert(views[i as int] == record@);
        let service: String = service_label(record);
        let pid: String = match record.pid {
            Some(p) => u32_text(p),
            None => "-".to_string(),
        };
        proof {
            assert(head + rows.take(i + 1) =~= (head + rows.take(i as int)).push(ps_row(record@)));
        }
        out.push(
            ps_line(
                service.as_str(),
                record.image.as_str(),
                record.status.as_str(),
                record.health_status.as_str(),
                pid.as_str(),
            ),
        );
        i = i + 1;
    }
    assert(rows.take(i as int) =~= rows);
    out
}

// ---------------------------------------------------------------------------
// compose config
// ---------------------------------------------------------------------------

/// A line for a list, where the list holds something.
pub open spec fn list_line(head: Seq<char>, items: Seq<Seq<char>>) -> Seq<Seq<char>> {
    if items.len() == 0 {
        seq![]
    } else {
        seq![head + split::joined(items, ", "@)]
    }
}

/// A line for each environment variable.
pub open spec fn env_lines(env: Seq<(String, String)>) -> Seq<Seq<char>> {
    env.map_values(|e: (String, String)| "    "@ + e.0@ + "="@ + e.1@)
}

/// The line on a service's image, where it names one.
pub open spec fn image_line(image: Option<Seq<char>>) -> Seq<Seq<char>> {
    match image {
        Some(i) => seq!["  image: "@ + i],
        None => seq![],
    }
}

/// The lines on a service.
pub open spec fn service_lines(name: Seq<char>, svc: ServiceConfig) -> Seq<Seq<char>> {
    seq!["\n["@ + name + "]"@] + image_line(text::opt_str(svc.image)) + list_line("  ports: "@, text::strs(svc.ports@)) + list_line(
        "  volumes: "@,
        text::strs(svc.volumes@),
    ) + list_line("  depends_on: "@, text::strs(svc.depends_on@)) + (
    if svc.environment@.len() == 0 {
        seq![]
    } else {
        seq!["  environment:"@] + env_lines(svc.environment@)
    })
}

/// The first service of that name.
pub open spec fn is_service(services: Seq<(String, ServiceConfig)>, name: Seq<char>, i: int) -> bool {
    &&& 0 <= i < services.len()
    &&& services[i].0@ == name
    &&& forall|j: int| 0 <= j < i ==> (#[trigger] services[j]).0@ != name
}

/// The service of that name.
pub open spec fn service_named(services: Seq<(String, ServiceConfig)>, name: Seq<char>) -> Option<
    ServiceConfig,
> {
    if exists|i: int| is_service(services, name, i) {
        Some(services[choose|i: int| is_service(services, name, i)].1)
    } else {
        None
    }
}

/// The service of that name.
pub fn find_service<'a>(services: &'a Vec<(String, ServiceConfig)>, name: &str) -> (r: Option<
    &'a ServiceConfig,
>)
    ensures
        match r {
            Some(s) => service_named(services@, name@) == Some(*s),
            None => service_named(services@, name@) is None,
        },
{
    let mut i: usize = 0;
    while i < services.len()
        invariant
            i <= services.len(),
            forall|j: int| 0 <= j < i ==> (#[trigger] services@[j]).0@ != name@,
        decreases services.len() - i,
    {
        if str_eq(services[i].0.as_str(), name) {
            proof {
                assert(is_service(services@, name@, i as int));
                let k = choose|k: int| is_service(services@, name@, k);
                assert(is_service(services@, name@, k));
                assert(k == i);
            }
            return Some(&services[i].1);
        }
        i = i + 1;
    }
    None
}

/// The lines on the services, in the given order; a name without a service is
/// passed over.
pub open spec fn all_service_lines(
    services: Seq<(String, ServiceConfig)>,
    order: Seq<Seq<char>>,
) -> Seq<Seq<char>>
    decreases order.len(),
{
    if order.len() == 0 {
        seq![]
    } else {
        all_service_lines(services, order.drop_last()) + (match service_named(
            services,
            order.last(),
        ) {
            Some(svc) => service_lines(order.last(), svc),
            None => seq![],
        })
    }
}

/// What `compose config` shows of a valid configuration.
pub open spec fn config_output(
    project: Seq<char>,
    services: Seq<(String, ServiceConfig)>,
    order: Seq<Seq<char>>,
    networks: nat,
    volumes: nat,
) -> Seq<Seq<char>> {
    seq![
        "Project: "@ + project,
        "Services: "@ + number::decimal(services.len()),
        "Networks: "@ + number::decimal(networks),
        "Volumes: "@ + number::decimal(volumes),
        "\nBoot order: "@ + split::joined(order, " → "@),
    ] + all_service_lines(services, order) + seq!["\nConfiguration is valid."@]
}

/// Adds a line for a list, where the list holds something.
fn push_list(out: &mut Vec<String>, head: &str, items: &Vec<String>)
    ensures
        text::strs(final(out)@) == text::strs(old(out)@) + list_line(head@, text::strs(items@)),
{
    broadcast use crate::text::lemma_strs_push;

    if items.len() > 0 {
        let all: String = join(items, ", ");
        let ghost was = text::strs(out@);
        out.push(cat2(head, all.as_str()));
        assert(text::strs(out@) =~= was + list_line(head@, text::strs(items@)));
    } else {
        assert(text::strs(out@) =~= text::strs(out@) + list_line(head@, text::strs(items@)));
    }
}

/// Adds the lines on a service.
fn push_service(out: &mut Vec<String>, name: &str, svc: &ServiceConfig)
    ensures
        text::strs(final(out)@) == text::strs(old(out)@) + service_lines(name@, *svc),
{
    broadcast use crate::text::lemma_strs_push;

    let ghost start = text::strs(out@);
    out.push(cat3("\n[", name, "]"));
    let ghost a: Seq<Seq<char>> = seq!["\n["@ + name@ + "]"@];
    assert(text::strs(out@) =~= start + a);
    let ghost b = image_line(text::opt_str(svc.image));
    match &svc.image {
        Some(image) => {
            out.push(cat2("  image: ", image.as_str()));
        },
        None => {},
    }
    assert(text::strs(out@) =~= start + (a + b));
    push_list(out, "  ports: ", &svc.ports);
    push_list(out, "  volumes: ", &svc.volumes);
    push_list(out, "  depends_on: ", &svc.depends_on);
    let ghost c = list_line("  ports: "@, text::strs(svc.ports@));
    let ghost d = list_line("  volumes: "@, text::strs(svc.volumes@));
    let ghost e = list_line("  depends_on: "@, text::strs(svc.depends_on@));
    assert(text::strs(out@) =~= start + (a + b + c + d + e));
    if svc.environment.len() > 0 {
        out.push("  environment:".to_string());
        let ghost head = text::strs(out@);
        let ghost rows = env_lines(svc.environment@);
        assert(head =~= start + (a + b + c + d + e + seq!["  environment:"@]));
        assert(head =~= head + rows.take(0));
        let mut i: usize = 0;
        while i < svc.environment.len()
            invariant
                i <= svc.environment.len(),
                rows == env_lines(svc.environment@),
                text::strs(out@) =~= head + rows.take(i as int),
            decreases svc.environment.len() - i,
        {
            let pair: &(String, String) = &svc.environment[i];
            assert(head + rows.take(i + 1) =~= (head + rows.take(i as int)).push(
                "    "@ + pair.0@ + "="@ + pair.1@,
            ));
            out.push(cat4("    ", pair.0.as_str(), "=", pair.1.as_str()));
            i = i + 1;
        }
        assert(rows.take(i as int) =~= rows);
        assert(text::strs(out@) =~= start + (a + b + c + d + e + (seq!["  environment:"@] + rows)));
    } else {
        assert(text::strs(out@) =~= start + (a + b + c + d + e + seq![]));
    }
}

/// The lines that `compose config` prints. The boot order and the networks are
/// those of the project that the runtime has made of the file. A service with
/// an invalid restart policy makes the configuration invalid.
pub fn execute_config(
    project_name: &str,
    services: &Vec<(String, ServiceConfig)>,
    order: &Vec<String>,
    networks: usize,
    volumes: usize,
) -> (r: Result<Vec<String>, String>)
    ensures
        match r {
            Ok(out) => {
                &&& forall|j: int|
                    0 <= j < services@.len() ==> compose::service_policy(
                        text::opt_str((#[trigger] services@[j]).1.restart),
                    ) is Some
                &&& text::strs(out@) == config_output(
                    project_name@,
                    services@,
                    text::strs(order@),
                    networks as nat,
                    volumes as nat,
                )
            },
            Err(e) => exists|i: int|
                compose::first_invalid(services@, i) && e@ == compose::service_policy_error(
                    services@[i].0@,
                    text::opt_str(services@[i].1.restart)->0,
                ),
        },
{
    broadcast use crate::text::lemma_strs_push;

    match compose::validate_compose_restart_policies(services) {
        Err(e) => {
            return Err(e);
        },
        Ok(_) => {},
    }
    let boot: String = join(order, " → ");
    let mut out: Vec<String> = Vec::new();
    out.push(cat2("Project: ", project_name));
    out.push(cat2("Services: ", usize_text(services.len()).as_str()));
    out.push(cat2("Networks: ", usize_text(networks).as_str()));
    out.push(cat2("Volumes: ", usize_text(volumes).as_str()));
    out.push(cat2("\nBoot order: ", boot.as_str()));
    let ghost head: Seq<Seq<char>> = text::strs(out@);
    let ghost names = text::strs(order@);
    proof {
        assert(head =~= seq![
            "Project: "@ + project_name@,
            "Services: "@ + number::decimal(services@.len()),
            "Networks: "@ + number::decimal(networks as nat),
            "Volumes: "@ + number::decimal(volumes as nat),
            "\nBoot order: "@ + split::joined(names, " → "@),
        ]);
        assert(names.take(0) =~= seq![]);
        assert(head =~= head + all_service_lines(services@, names.take(0)));
    }
    let mut i: usize = 0;
    while i < order.len()
        invariant
            i <= order.len(),
            names == text::strs(order@),
            text::strs(out@) == head + all_service_lines(services@, names.take(i as int)),
        decreases order.len() - i,
    {
        let ghost was = text::strs(out@);
        proof {
            let t = names.take(i + 1);
            assert(t.drop_last() =~= names.take(i as int));
            assert(t.last() == order@[i as int]@);
        }
        match find_service(services, order[i].as_str()) {
            Some(svc) => {
                push_service(&mut out, order[i].as_str(), svc);
                assert(text::strs(out@) =~= head + all_service_lines(services@, names.take(i + 1)));
            },
            None => {
                assert(text::strs(out@) =~= head + all_service_lines(services@, names.take(i + 1)));
            },
        }
        i = i + 1;
    }
    assert(names.take(i as int) =~= names);
    let ghost was = text::strs(out@);
    out.push("\nConfiguration is valid.".to_string());
    assert(text::strs(out@) =~= was + seq!["\nConfiguration is valid."@]);
    Ok(out)
}

// ---------------------------------------------------------------------------
// compose logs
// ---------------------------------------------------------------------------

/// The records whose logs are shown: those of the project, or of the one
/// service of it.
pub open spec fn log_targets(boxes: Seq<RecordView>, service: Option<Seq<char>>) -> Seq<RecordView> {
    match service {
        Some(svc) => boxes.filter(|r: RecordView| state::label(r, LABEL_SERVICE@) == Some(svc)),
        None => boxes,
    }
}

/// What `compose logs` does first.
pub enum LogsPlan<'a> {
    /// The project has no boxes.
    Empty {
        /// What the user is told.
        message: String,
    },
    /// The logs of these boxes are shown.
    Show {
        /// The boxes.
        targets: Vec<&'a BoxRecord>,
    },
}

/// Whose logs `compose logs` shows.
pub fn plan_logs<'a>(project_name: &str, service: &Option<String>, state: &'a StateFile) -> (r:
    Result<LogsPlan<'a>, String>)
    ensures
        ({
            let boxes = project_records(state@, project_name@);
            let targets = log_targets(boxes, text::opt_str(*service));
            match r {
                Ok(LogsPlan::Empty { message }) => boxes.len() == 0 && message@ == no_services(
                    project_name@,
                ),
                Ok(LogsPlan::Show { targets: t }) => boxes.len() > 0 && targets.len() > 0
                    && state::ref_views(t@) == targets,
                Err(e) => boxes.len() > 0 && targets.len() == 0 && service is Some && e@
                    == "Service '"@ + service->0@ + "' not found in project '"@ + project_name@
                    + "'."@,
            }
        }),
{
    broadcast use crate::state::lemma_ref_views_push;

    let boxes: Vec<&'a BoxRecord> = state.find_by_label(LABEL_PROJECT, project_name);
    let ghost views = project_records(state@, project_name@);
    assert(state::ref_views(boxes@) == views);
    if boxes.len() == 0 {
        return Ok(
            LogsPlan::Empty { message: cat3("No services found for project '", project_name, "'.") },
        );
    }
    match service {
        None => Ok(LogsPlan::Show { targets: boxes }),
        Some(svc) => {
            let ghost p = |r: RecordView| state::label(r, LABEL_SERVICE@) == Some(svc@);
            let mut targets: Vec<&'a BoxRecord> = Vec::new();
            let mut i: usize = 0;
            proof {
                seqs::lemma_filter_none(views, p);
                assert(state::ref_views(targets@) =~= Seq::empty());
            }
            while i < boxes.len()
                invariant
                    i <= boxes.len(),
                    state::ref_views(boxes@) == views,
                    p == (|r: RecordView| state::label(r, LABEL_SERVICE@) == Some(svc@)),
                    state::ref_views(targets@) == views.take(i as int).filter(p),
                decreases boxes.len() - i,
            {
                proof {
                    seqs::lemma_filter_step(views, p, i as int);
                }
                let record: &'a BoxRecord = boxes[i];
                assert(views[i as int] == record@);
                if record.has_label(LABEL_SERVICE, svc.as_str()) {
                    targets.push(record);
                }
                i = i + 1;
            }
            assert(views.take(i as int) =~= views);
            if targets.len() == 0 {
                assert(state::ref_views(targets@).len() == 0);
                Err(
                    cat5(
                        "Service '",
                        svc.as_str(),
                        "' not found in project '",
                        project_name,
                        "'.",
                    ),
                )
            } else {
                assert(state::ref_views(targets@).len() > 0);
                Ok(LogsPlan::Show { targets })
            }
        },
    }
}

/// What stands in front of each line: the service, where several are shown.
pub open spec fn log_prefix_of(service: Seq<char>, targets: nat) -> Seq<char> {
    if targets > 1 {
        service + " | "@
    } else {
        Seq::empty()
    }
}

/// What stands in front of each line: the service, where several are shown.
pub fn log_prefix(record: &BoxRecord, targets: usize) -> (r: String)
    ensures
        r@ == log_prefix_of(shown_service(record@), targets as nat),
{
    if targets > 1 {
        let service: String = service_label(record);
        cat2(service.as_str(), " | ")
    } else {
        String::new()
    }
}

/// What is shown of a box's log at first: the last lines of it. `content` is
/// what the log holds, where there is one.
pub open spec fn log_output(
    r: RecordView,
    content: Option<Seq<char>>,
    tail: nat,
    targets: nat,
) -> Seq<Seq<char>> {
    match content {
        None => seq!["["@ + shown_service(r) + "] (no logs)"@],
        Some(text) => layout::prefixed(
            log_prefix_of(shown_service(r), targets),
            layout::last_lines(split::line_list(text), tail),
        ),
    }
}

/// What is shown of a box's log at first.
pub fn box_log_lines(
    record: &BoxRecord,
    content: &Option<String>,
    tail: usize,
    targets: usize,
) -> (r: Vec<String>)
    ensures
        text::strs(r@) == log_output(
            record@,
            text::opt_str(*content),
            tail as nat,
            targets as nat,
        ),
{
    match content {
        None => {
            let service: String = service_label(record);
            let r: Vec<String> = vec![cat3("[", service.as_str(), "] (no logs)")];
            assert(text::strs(r@) =~= seq!["["@ + shown_service(record@) + "] (no logs)"@]);
            r
        },
        Some(text) => {
            let prefix: String = log_prefix(record, targets);
            let all: Vec<String> = lines(text.as_str());
            tail_prefixed(prefix.as_str(), &all, tail)
        },
    }
}

/// What is said of a log that cannot be read.
pub fn log_unreadable(record: &BoxRecord, error: &str) -> (r: String)
    ensures
        r@ == "Failed to read logs for "@ + shown_service(record@) + ": "@ + error@,
{
    let service: String = service_label(record);
    cat4("Failed to read logs for ", service.as_str(), ": ", error)
}

/// What is shown of what a box's log has gained.
pub fn new_log_lines(record: &BoxRecord, gained: &str, targets: usize) -> (r: Vec<String>)
    ensures
        text::strs(r@) == layout::prefixed(
            log_prefix_of(shown_service(record@), targets as nat),
            split::line_list(gained@),
        ),
{
    let prefix: String = log_prefix(record, targets);
    let all: Vec<String> = lines(gained);
    tail_prefixed(prefix.as_str(), &all, all.len())
}

/// How much of a log has been shown; nothing where that is not known.
pub open spec fn shown_size(sizes: Map<Seq<char>, u64>, id: Seq<char>) -> u64 {
    if sizes.dom().contains(id) {
        sizes[id]
    } else {
        0
    }
}

/// Takes note of the present size of a log while it is followed. Where the log
/// has grown, gives the place from which it has to be read.
pub fn follow_step(last_sizes: &mut StrMap<u64>, id: &str, current_size: u64) -> (r: Option<u64>)
    ensures
        ({
            let last = shown_size(old(last_sizes)@, id@);
            if current_size > last {
                &&& r == Some(last)
                &&& final(last_sizes)@ == old(last_sizes)@.insert(id@, current_size)
            } else {
                &&& r is None
                &&& final(last_sizes)@ == old(last_sizes)@
            }
        }),
{
    let last: u64 = match last_sizes.get(id) {
        Some(n) => *n,
        None => 0,
    };
    if current_size > last {
        last_sizes.insert(id.to_string(), current_size);
        Some(last)
    } else {
        None
    }
}

/// Following shows every byte once: what is read next begins where the last
/// read ended.
pub proof fn lemma_follow_contiguous(
    sizes: Map<Seq<char>, u64>,
    id: Seq<char>,
    first: u64,
    second: u64,
)
    requires
        shown_size(sizes, id) < first < second,
    ensures
        shown_size(sizes.insert(id, first), id) == first,
        shown_size(sizes.insert(id, first).insert(id, second), id) == second,
{
}

// ---------------------------------------------------------------------------
// What is shown of a project
// ---------------------------------------------------------------------------

/// The table has a row for each box of the project, in the order of the state, below
/// two lines of heading; and one line says so where there is none.
pub proof fn lemma_ps_rows(project: &str, state: StateFile, i: int, r: Vec<String>)
    requires
        call_ensures(execute_ps, (project, &state), r),
        0 <= i < state@.len(),
    ensures
        r@.len() >= 1,
        state@[i].labels.contains_key(LABEL_PROJECT@) && state@[i].labels[LABEL_PROJECT@] == project@
            ==> r@.len() >= 3 && text::strs(r@).skip(2).contains(ps_row(state@[i])),
        (forall|k: int|
            0 <= k < state@.len() ==> !((#[trigger] state@[k]).labels.contains_key(LABEL_PROJECT@)
                && state@[k].labels[LABEL_PROJECT@] == project@)) ==> r@.len() == 1,
{
    let p = |r: RecordView| state::label(r, LABEL_PROJECT@) == Some(project@);
    let boxes = state@.filter(p);
    assert(project_records(state@, project@) =~= boxes);
    assert(text::strs(r@).len() == r@.len());
    if p(state@[i]) {
        seqs::lemma_filter_contains(state@, p, state@[i]);
        assert(state@.contains(state@[i]));
        let n = choose|n: int| 0 <= n < boxes.len() && boxes[n] == state@[i];
        assert(text::strs(r@).skip(2)[n] == ps_row(state@[i]));
    }
    if boxes.len() > 0 {
        assert(boxes.contains(boxes[0]));
        seqs::lemma_filter_contains(state@, p, boxes[0]);
        let k = choose|k: int| 0 <= k < state@.len() && state@[k] == boxes[0];
        assert(p(state@[k]));
    }
}

/// A row begins with the service and tells the image, the status, the health and the
/// process of its box.
pub proof fn lemma_row_tells(r: RecordView)
    ensures
        text::has_prefix(ps_row(r), shown_service(r)),
        text::has_substring(ps_row(r), r.image),
        text::has_substring(ps_row(r), r.status),
        text::has_substring(ps_row(r), r.health_status),
        r.pid is Some ==> text::has_substring(ps_row(r), number::decimal(r.pid->0 as nat)),
{
    let a = layout::padded(shown_service(r), 20);
    let b = layout::padded(r.image, 30);
    let c = layout::padded(r.status, 12);
    let d = layout::padded(r.health_status, 12);
    let e = layout::padded(shown_pid(r.pid), 10);
    reveal_strlit(" ");
    let row = ps_row(r);
    assert(row == a + " "@ + b + " "@ + c + " "@ + d + " "@ + e);
    assert(row.take(shown_service(r).len() as int) =~= shown_service(r));
    let at_b = (a.len() + 1) as int;
    assert(row.subrange(at_b, at_b + r.image.len()) =~= r.image);
    assert(text::occurs_at(row, r.image, at_b));
    let at_c = at_b + b.len() + 1;
    assert(row.subrange(at_c, at_c + r.status.len()) =~= r.status);
    assert(text::occurs_at(row, r.status, at_c));
    let at_d = at_c + c.len() + 1;
    assert(row.subrange(at_d, at_d + r.health_status.len()) =~= r.health_status);
    assert(text::occurs_at(row, r.health_status, at_d));
    let at_e = at_d + d.len() + 1;
    let pid = shown_pid(r.pid);
    assert(row.subrange(at_e, at_e + pid.len()) =~= pid);
    assert(text::occurs_at(row, pid, at_e));
}

/// The logs of a project are those of its boxes, and with a service those of the
/// service's boxes alone. A service that has none is refused.
pub proof fn lemma_logs_of_the_service(
    project: &str,
    service: Option<String>,
    state: StateFile,
    i: int,
    r: Result<LogsPlan<'_>, String>,
)
    requires
        call_ensures(plan_logs, (project, &service, &state), r),
        0 <= i < state@.len(),
    ensures
        ({
            let wanted = |x: RecordView|
                x.labels.contains_key(LABEL_PROJECT@) && x.labels[LABEL_PROJECT@] == project@ && (
                service is Some ==> x.labels.contains_key(LABEL_SERVICE@) && x.labels[LABEL_SERVICE@]
                    == service->0@);
            &&& wanted(state@[i]) ==> (r matches Ok(LogsPlan::Show { targets }) && state::ref_views(
                targets@,
            ).contains(state@[i]))
            &&& r matches Ok(LogsPlan::Show { targets }) ==> targets@.len() > 0 && forall|k: int|
                0 <= k < targets@.len() ==> wanted((#[trigger] targets@[k])@)
            &&& r is Err ==> service is Some
        }),
{
    let p = |r: RecordView| state::label(r, LABEL_PROJECT@) == Some(project@);
    let boxes = state@.filter(p);
    assert(project_records(state@, project@) =~= boxes);
    let targets = log_targets(boxes, text::opt_str(service));
    if p(state@[i]) {
        seqs::lemma_filter_contains(state@, p, state@[i]);
        assert(state@.contains(state@[i]));
        assert(boxes.contains(state@[i]));
        if service is Some {
            let q = |r: RecordView| state::label(r, LABEL_SERVICE@) == Some(service->0@);
            assert(targets =~= boxes.filter(q));
            seqs::lemma_filter_contains(boxes, q, state@[i]);
        }
    }
    if let Ok(LogsPlan::Show { targets: t }) = r {
        assert(state::ref_views(t@).len() == t@.len());
        assert forall|k: int| 0 <= k < t@.len() implies (#[trigger] t@[k])@.labels.contains_key(
            LABEL_PROJECT@,
        ) && t@[k]@.labels[LABEL_PROJECT@] == project@ && (service is Some
            ==> t@[k]@.labels.contains_key(LABEL_SERVICE@) && t@[k]@.labels[LABEL_SERVICE@]
            == service->0@) by {
            let x = t@[k]@;
            assert(state::ref_views(t@)[k] == x);
            assert(targets.contains(x));
            if service is Some {
                let q = |r: RecordView| state::label(r, LABEL_SERVICE@) == Some(service->0@);
                assert(targets =~= boxes.filter(q));
                seqs::lemma_filter_contains(boxes, q, x);
            }
            seqs::lemma_filter_contains(state@, p, x);
        }
    }
}

/// Of a log that is there the last lines are shown, as many as were asked for, in
/// their order, and all of them where there are no more.
pub proof fn lemma_log_tail(
    record: BoxRecord,
    content: String,
    tail: usize,
    targets: usize,
    i: int,
    r: Vec<String>,
)
    requires
        call_ensures(box_log_lines, (&record, &Some(content), tail, targets), r),
        0 <= i < r@.len(),
    ensures
        ({
            let lines = split::line_list(content@);
            &&& r@.len() == (if tail < lines.len() {
                tail as nat
            } else {
                lines.len()
            })
            &&& targets <= 1 ==> r@[i]@ == lines[lines.len() - r@.len() + i]
            &&& targets > 1 ==> text::has_suffix(r@[i]@, lines[lines.len() - r@.len() + i])
                && text::has_prefix(r@[i]@, shown_service(record@))
        }),
{
    let lines = split::line_list(content@);
    let shown = layout::last_lines(lines, tail as nat);
    let prefix = log_prefix_of(shown_service(record@), targets as nat);
    assert(text::strs(r@).len() == r@.len());
    assert(text::strs(r@)[i] == r@[i]@);
    let line = lines[lines.len() - r@.len() + i];
    assert(shown[i] == line);
    assert(r@[i]@ == prefix + line);
    if targets <= 1 {
        assert(prefix + line =~= line);
    } else {
        assert((prefix + line).skip((prefix + line).len() - line.len()) =~= line);
        assert((prefix + line).take(shown_service(record@).len() as int) =~= shown_service(record@));
    }
}

/// A log that is followed is shown from where it was shown before, and only where it
/// has grown; what was shown of one box changes nothing for another.
pub proof fn lemma_follow_shows_the_new(
    sizes: &mut StrMap<u64>,
    id: &str,
    size: u64,
    other: Seq<char>,
    r: Option<u64>,
)
    requires
        call_ensures(follow_step, (sizes, id, size), r),
        other != id@,
    ensures
        r is Some ==> r->0 < size && final(sizes)@.contains_key(id@) && final(sizes)@[id@] == size,
        old(sizes)@.contains_key(id@) ==> (r is Some <==> old(sizes)@[id@] < size),
        old(sizes)@.contains_key(id@) && r is Some ==> r->0 == old(sizes)@[id@],
        !old(sizes)@.contains_key(id@) ==> (r is Some <==> size > 0) && (r is Some ==> r->0 == 0),
        r is None ==> final(sizes)@ == old(sizes)@,
        final(sizes)@.contains_key(other) <==> old(sizes)@.contains_key(other),
        old(sizes)@.contains_key(other) ==> final(sizes)@[other] == old(sizes)@[other],
{
}

/// A service that is looked for by name is the first that has it.
pub proof fn lemma_service_found(
    services: Vec<(String, ServiceConfig)>,
    name: &str,
    i: int,
    r: Option<&ServiceConfig>,
)
    requires
        call_ensures(find_service, (&services, name), r),
        0 <= i < services@.len(),
    ensures
        services@[i].0@ == name@ && (forall|j: int| 0 <= j < i ==> (#[trigger] services@[j]).0@ != name@)
            ==> r is Some && *(r->0) == services@[i].1,
        (forall|j: int| 0 <= j < services@.len() ==> (#[trigger] services@[j]).0@ != name@) ==> r is None,
{
    if services@[i].0@ == name@ && (forall|j: int| 0 <= j < i ==> (#[trigger] services@[j]).0@ != name@) {
        assert(is_service(services@, name@, i));
        let k = choose|k: int| is_service(services@, name@, k);
        assert(is_service(services@, name@, k));
        assert(k == i) by {
            if k < i {
                assert(services@[k].0@ != name@);
            } else if i < k {
                assert(services@[i].0@ != name@);
            }
        }
    }
}

/// What is shown of a project begins with its name, its numbers and its order, and ends
/// by saying that it is valid, which it is only where every policy is.
pub proof fn lemma_config_shown(
    project: &str,
    services: Vec<(String, ServiceConfig)>,
    order: Vec<String>,
    networks: usize,
    volumes: usize,
    checked: Result<(), String>,
    r: Result<Vec<String>, String>,
)
    requires
        call_ensures(compose::validate_compose_restart_policies, (&services,), checked),
        call_ensures(execute_config, (project, &services, &order, networks, volumes), r),
    ensures
        r is Ok <==> checked is Ok,
        r is Ok ==> {
            let out = r->Ok_0@;
            &&& out.len() >= 6
            &&& text::has_suffix(out[0]@, project@)
            &&& text::has_suffix(out[1]@, number::decimal(services@.len()))
            &&& text::has_suffix(out[2]@, number::decimal(networks as nat))
            &&& text::has_suffix(out[3]@, number::decimal(volumes as nat))
            &&& text::has_suffix(out[4]@, split::joined(text::strs(order@), " → "@))
            &&& out.last()@ == "\nConfiguration is valid."@
        },
{
    if r is Ok {
        let s = text::strs((r->Ok_0)@);
        assert(s.len() == (r->Ok_0)@.len());
        assert(s.len() >= 6);
        assert(s[0] == (r->Ok_0)@[0]@ && s[1] == (r->Ok_0)@[1]@ && s[2] == (r->Ok_0)@[2]@ && s[3]
            == (r->Ok_0)@[3]@ && s[4] == (r->Ok_0)@[4]@);
        assert(s[s.len() - 1] == (r->Ok_0)@.last()@);
        let a = number::decimal(services@.len());
        let b = number::decimal(networks as nat);
        let c = number::decimal(volumes as nat);
        let d = split::joined(text::strs(order@), " → "@);
        text::lemma_cat_holds_both("Project: "@, project@);
        text::lemma_cat_holds_both("Services: "@, a);
        text::lemma_cat_holds_both("Networks: "@, b);
        text::lemma_cat_holds_both("Volumes: "@, c);
        text::lemma_cat_holds_both("\nBoot order: "@, d);
        if checked is Err {
            let i = choose|i: int|
                compose::first_invalid(services@, i) && (checked->Err_0)@ == compose::service_policy_error(
                    services@[i].0@,
                    text::opt_str(services@[i].1.restart)->0,
                );
            assert(compose::service_policy(text::opt_str(services@[i].1.restart)) is None);
        }
    } else if checked is Ok {
        let i = choose|i: int|
            compose::first_invalid(services@, i) && (r->Err_0)@ == compose::service_policy_error(
                services@[i].0@,
                text::opt_str(services@[i].1.restart)->0,
            );
        assert(compose::service_policy(text::opt_str(services@[i].1.restart)) is None);
    }
}

/// What a log has gained is shown line by line, behind the service's name where there
/// are several.
pub proof fn lemma_new_lines_shown(record: BoxRecord, gained: &str, targets: usize, i: int, r: Vec<String>)
    requires
        call_ensures(new_log_lines, (&record, gained, targets), r),
        0 <= i < r@.len(),
    ensures
        r@.len() == split::line_list(gained@).len(),
        targets <= 1 ==> r@[i]@ == split::line_list(gained@)[i],
        targets > 1 ==> text::has_suffix(r@[i]@, split::line_list(gained@)[i]) && text::has_prefix(
            r@[i]@,
            shown_service(record@),
        ),
{
    let line = split::line_list(gained@)[i];
    let prefix = log_prefix_of(shown_service(record@), targets as nat);
    assert(text::strs(r@).len() == r@.len());
    assert(text::strs(r@)[i] == r@[i]@);
    assert(r@[i]@ == prefix + line);
    if targets <= 1 {
        assert(prefix + line =~= line);
    } else {
        text::lemma_cat_holds_both(prefix, line);
        assert((prefix + line).take(shown_service(record@).len() as int) =~= shown_service(record@));
    }
}

/// What is shown of a service begins with its name and tells its image, its ports, its
/// volumes and what it depends on, each where it has it, and each variable.
pub proof fn lemma_service_shown(name: Seq<char>, svc: ServiceConfig, i: int)
    ensures
        ({
            let l = service_lines(name, svc);
            &&& l.len() >= 1 && text::has_substring(l[0], name)
            &&& svc.image is Some ==> l.len() >= 2 && l[1] == "  image: "@ + svc.image->0@
            &&& svc.ports@.len() > 0 ==> l.contains("  ports: "@ + split::joined(text::strs(svc.ports@), ", "@))
            &&& svc.volumes@.len() > 0 ==> l.contains(
                "  volumes: "@ + split::joined(text::strs(svc.volumes@), ", "@),
            )
            &&& svc.depends_on@.len() > 0 ==> l.contains(
                "  depends_on: "@ + split::joined(text::strs(svc.depends_on@), ", "@),
            )
            &&& 0 <= i < svc.environment@.len() ==> l.contains(
                "    "@ + svc.environment@[i].0@ + "="@ + svc.environment@[i].1@,
            )
        }),
{
    let l = service_lines(name, svc);
    reveal_strlit("\n[");
    let head = "\n["@ + name + "]"@;
    assert(l[0] == head);
    assert(head.subrange(2, 2 + name.len() as int) =~= name);
    assert(text::occurs_at(head, name, 2));
    let a = image_line(text::opt_str(svc.image));
    let b = list_line("  ports: "@, text::strs(svc.ports@));
    let c = list_line("  volumes: "@, text::strs(svc.volumes@));
    let d = list_line("  depends_on: "@, text::strs(svc.depends_on@));
    if svc.image is Some {
        assert(l[1] == a[0]);
    }
    if svc.ports@.len() > 0 {
        assert(l[1 + a.len() as int] == b[0]);
    }
    if svc.volumes@.len() > 0 {
        assert(l[1 + a.len() as int + b.len() as int] == c[0]);
    }
    if svc.depends_on@.len() > 0 {
        assert(l[1 + a.len() as int + b.len() as int + c.len() as int] == d[0]);
    }
    if 0 <= i < svc.environment@.len() {
        let at = 2 + a.len() as int + b.len() as int + c.len() as int + d.len() as int + i;
        assert(l[at] == env_lines(svc.environment@)[i]);
    }
}

} // verus!
