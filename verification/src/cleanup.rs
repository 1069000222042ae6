//! What has to be torn down when a box stops, goes away or fails to start.
//!
//! The functions here decide; whoever calls them performs the steps in order.
//! Every step is best effort: a step that fails does not hold up the next.

use vstd::prelude::*;

use crate::path;
use crate::path::{parent, path_join, path_starts_with};
use crate::state::{BoxRecord, NetworkMode, NetworkModeView, RecordView};
use crate::text;
use crate::text::{cat2, clone_strings};

verus! {

/// One thing to tear down.
#[derive(Debug)]
pub enum CleanupStep {
    /// Detach named volumes from a box.
    DetachVolumes {
        /// Names of the volumes.
        volumes: Vec<String>,
        /// Identifier of the box.
        box_id: String,
    },
    /// Take the endpoint of a box out of a network.
    Disconnect {
        /// Name of the network.
        network: String,
        /// Identifier of the box.
        box_id: String,
    },
    /// Remove a volume, also where it is in use.
    RemoveVolume {
        /// Name of the volume.
        name: String,
    },
    /// Stop the network daemon whose PID file stands in a directory.
    TerminatePasst {
        /// The directory.
        dir: String,
    },
    /// Remove a directory with all that is in it.
    RemoveDir {
        /// The directory.
        path: String,
    },
    /// Remove a directory with all that is in it, if there is one.
    RemoveDirIfPresent {
        /// The directory.
        path: String,
    },
    /// Take the record of a box out of the state.
    RemoveRecord {
        /// Identifier of the box.
        box_id: String,
    },
}

/// What a [`CleanupStep`] says.
#[verifier::ext_equal]
pub enum StepView {
    DetachVolumes { volumes: Seq<Seq<char>>, box_id: Seq<char> },
    Disconnect { network: Seq<char>, box_id: Seq<char> },
    RemoveVolume { name: Seq<char> },
    TerminatePasst { dir: Seq<char> },
    RemoveDir { path: Seq<char> },
    RemoveDirIfPresent { path: Seq<char> },
    RemoveRecord { box_id: Seq<char> },
}

impl View for CleanupStep {
    type V = StepView;

    open spec fn view(&self) -> StepView {
        match self {
            CleanupStep::DetachVolumes { volumes, box_id } => StepView::DetachVolumes {
                volumes: text::strs(volumes@),
                box_id: box_id@,
            },
            CleanupStep::Disconnect { network, box_id } => StepView::Disconnect {
                network: network@,
                box_id: box_id@,
            },
            CleanupStep::RemoveVolume { name } => StepView::RemoveVolume { name: name@ },
            CleanupStep::TerminatePasst { dir } => StepView::TerminatePasst { dir: dir@ },
            CleanupStep::RemoveDir { path } => StepView::RemoveDir { path: path@ },
            CleanupStep::RemoveDirIfPresent { path } => StepView::RemoveDirIfPresent {
                path: path@,
            },
            CleanupStep::RemoveRecord { box_id } => StepView::RemoveRecord { box_id: box_id@ },
        }
    }
}

/// What a sequence of steps says.
pub open spec fn steps(v: Seq<CleanupStep>) -> Seq<StepView> {
    v.map_values(|s: CleanupStep| s@)
}

/// Pushing a step pushes what it says.
pub broadcast proof fn lemma_steps_push(v: Seq<CleanupStep>, s: CleanupStep)
    ensures
        #[trigger] steps(v.push(s)) == steps(v).push(s@),
{
    assert(steps(v.push(s)) =~= steps(v).push(s@));
}

/// The steps of `a`, then those of `b`.
pub fn chain(a: Vec<CleanupStep>, b: Vec<CleanupStep>) -> (r: Vec<CleanupStep>)
    ensures
        steps(r@) == steps(a@) + steps(b@),
        r@ == a@ + b@,
{
    let mut out: Vec<CleanupStep> = a;
    let mut rest: Vec<CleanupStep> = b;
    out.append(&mut rest);
    assert(steps(a@ + b@) =~= steps(a@) + steps(b@));
    out
}

/// The network that a box belongs to: the one its record names, else the one
/// of its network mode.
pub open spec fn network_of(r: RecordView) -> Option<Seq<char>> {
    if r.network_name is Some {
        r.network_name
    } else {
        match r.network_mode {
            NetworkModeView::Bridge { network } => Some(network),
            NetworkModeView::Tsi => None,
        }
    }
}

/// What an optional borrowed string holds.
pub open spec fn opt_ref(o: Option<&String>) -> Option<Seq<char>> {
    match o {
        Some(s) => Some(s@),
        None => None,
    }
}

/// The network that a box belongs to.
pub fn record_network_name(record: &BoxRecord) -> (r: Option<&String>)
    ensures
        opt_ref(r) == network_of(record@),
{
    match &record.network_name {
        Some(name) => Some(name),
        None => match &record.network_mode {
            NetworkMode::Bridge { network } => Some(network),
            NetworkMode::Tsi => None,
        },
    }
}

/// The steps that let go of a box's volumes and network.
pub open spec fn resource_steps(
    box_id: Seq<char>,
    volumes: Seq<Seq<char>>,
    network: Option<Seq<char>>,
) -> Seq<StepView> {
    let detach = seq![StepView::DetachVolumes { volumes, box_id }];
    match network {
        Some(n) => detach.push(StepView::Disconnect { network: n, box_id }),
        None => detach,
    }
}

/// Detach named volumes and disconnect from network for a box.
pub fn cleanup_box_resources(
    box_id: &str,
    volume_names: &Vec<String>,
    network_name: Option<&String>,
) -> (r: Vec<CleanupStep>)
    ensures
        steps(r@) == resource_steps(box_id@, text::strs(volume_names@), opt_ref(network_name)),
{
    broadcast use lemma_steps_push;

    let mut out: Vec<CleanupStep> = Vec::new();
    out.push(
        CleanupStep::DetachVolumes {
            volumes: clone_strings(volume_names),
            box_id: box_id.to_string(),
        },
    );
    proof {
        assert(steps(out@) =~= seq![
            StepView::DetachVolumes { volumes: text::strs(volume_names@), box_id: box_id@ },
        ]);
    }
    if let Some(net) = network_name {
        out.push(CleanupStep::Disconnect { network: net.clone(), box_id: box_id.to_string() });
    }
    out
}

/// Detach named volumes and disconnect the persisted network for a box record.
pub fn cleanup_record_resources(record: &BoxRecord) -> (r: Vec<CleanupStep>)
    ensures
        steps(r@) == resource_steps(record@.id, record@.volume_names, network_of(record@)),
{
    cleanup_box_resources(
        record.id.as_str(),
        &record.volume_names,
        record_network_name(record),
    )
}

/// The steps that let go of the directory of a box's sockets: the network
/// daemon in it is stopped, and a directory outside the box's own is removed.
pub open spec fn socket_steps(box_dir: Seq<char>, exec_socket: Seq<char>) -> Seq<StepView> {
    match path::parent_of(exec_socket) {
        None => seq![],
        Some(dir) => {
            let stop = seq![StepView::TerminatePasst { dir }];
            if path::is_within(dir, box_dir) {
                stop
            } else {
                stop.push(StepView::RemoveDir { path: dir })
            }
        },
    }
}

/// Remove the host-side socket directory when it lives outside the box dir.
pub fn cleanup_external_socket_dir(box_dir: &str, exec_socket_path: &str) -> (r: Vec<CleanupStep>)
    ensures
        steps(r@) == socket_steps(box_dir@, exec_socket_path@),
{
    broadcast use lemma_steps_push;

    let mut out: Vec<CleanupStep> = Vec::new();
    assert(steps(out@) =~= seq![]);
    match parent(exec_socket_path) {
        None => {},
        Some(dir) => {
            out.push(CleanupStep::TerminatePasst { dir: dir.clone() });
            assert(steps(out@) =~= seq![StepView::TerminatePasst { dir: dir@ }]);
            if !path_starts_with(dir.as_str(), box_dir) {
                out.push(CleanupStep::RemoveDir { path: dir });
            }
        },
    }
    out
}

/// Remove transient host resources for a stopped box while keeping its state.
pub fn cleanup_stopped_box(record: &BoxRecord) -> (r: Vec<CleanupStep>)
    ensures
        steps(r@) == resource_steps(record@.id, record@.volume_names, network_of(record@))
            + socket_steps(record@.box_dir, record@.exec_socket_path),
{
    chain(
        cleanup_record_resources(record),
        cleanup_external_socket_dir(record.box_dir.as_str(), record.exec_socket_path.as_str()),
    )
}

/// The steps that remove volumes, one by one.
pub open spec fn volume_steps(names: Seq<Seq<char>>) -> Seq<StepView> {
    names.map_values(|n: Seq<char>| StepView::RemoveVolume { name: n })
}

/// Remove anonymous volumes created from OCI `VOLUME` declarations.
pub fn cleanup_anonymous_volumes(anonymous_volumes: &Vec<String>) -> (r: Vec<CleanupStep>)
    ensures
        steps(r@) == volume_steps(text::strs(anonymous_volumes@)),
{
    broadcast use lemma_steps_push;

    let ghost all = volume_steps(text::strs(anonymous_volumes@));
    let mut out: Vec<CleanupStep> = Vec::new();
    let mut i: usize = 0;
    while i < anonymous_volumes.len()
        invariant
            i <= anonymous_volumes.len(),
            all == volume_steps(text::strs(anonymous_volumes@)),
            steps(out@) =~= all.take(i as int),
        decreases anonymous_volumes.len() - i,
    {
        proof {
            let name = anonymous_volumes@[i as int]@;
            assert(text::strs(anonymous_volumes@)[i as int] == name);
            assert(all.take(i + 1) =~= all.take(i as int).push(StepView::RemoveVolume { name }));
        }
        out.push(CleanupStep::RemoveVolume { name: anonymous_volumes[i].clone() });
        i = i + 1;
    }
    out
}

/// The directory in which the single-file mounts of a box are staged.
pub open spec fn mount_dir(temp_dir: Seq<char>, box_id: Seq<char>) -> Seq<char> {
    path::under(temp_dir, "a3s-fs-mount-"@ + box_id)
}

/// The steps that remove all that a box owns on the host.
pub open spec fn removal_steps(r: RecordView, temp_dir: Seq<char>) -> Seq<StepView> {
    resource_steps(r.id, r.volume_names, network_of(r)) + volume_steps(r.anonymous_volumes)
        + seq![StepView::RemoveDirIfPresent { path: r.box_dir }] + socket_steps(
        r.box_dir,
        r.exec_socket_path,
    ) + seq![StepView::RemoveDirIfPresent { path: mount_dir(temp_dir, r.id) }]
}

/// Remove all host-side resources owned by a box record.
///
/// `temp_dir` is the host's directory for temporary files: single-file bind
/// mounts are staged there, and only the teardown of the box removes them.
pub fn cleanup_removed_box(record: &BoxRecord, temp_dir: &str) -> (r: Vec<CleanupStep>)
    ensures
        steps(r@) == removal_steps(record@, temp_dir@),
{
    broadcast use lemma_steps_push;

    let mut out: Vec<CleanupStep> = chain(
        cleanup_record_resources(record),
        cleanup_anonymous_volumes(&record.anonymous_volumes),
    );
    let ghost a = steps(out@);
    out.push(CleanupStep::RemoveDirIfPresent { path: record.box_dir.clone() });
    assert(steps(out@) =~= a + seq![StepView::RemoveDirIfPresent { path: record@.box_dir }]);
    let mut all: Vec<CleanupStep> = chain(
        out,
        cleanup_external_socket_dir(record.box_dir.as_str(), record.exec_socket_path.as_str()),
    );
    let ghost b = steps(all@);
    let staged: String = cat2("a3s-fs-mount-", record.id.as_str());
    let dir: String = path_join(temp_dir, staged.as_str());
    all.push(CleanupStep::RemoveDirIfPresent { path: dir });
    assert(steps(all@) =~= b + seq![StepView::RemoveDirIfPresent { path: dir@ }]);
    all
}

/// Roll back a box record that was partially created. Where the record has
/// reached the state already, it is taken out of it too.
pub fn cleanup_partial_box_record(
    record: &BoxRecord,
    temp_dir: &str,
    in_state: bool,
) -> (r: Vec<CleanupStep>)
    ensures
        steps(r@) == if in_state {
            removal_steps(record@, temp_dir@).push(StepView::RemoveRecord { box_id: record@.id })
        } else {
            removal_steps(record@, temp_dir@)
        },
{
    broadcast use lemma_steps_push;

    let mut out: Vec<CleanupStep> = cleanup_removed_box(record, temp_dir);
    if in_state {
        out.push(CleanupStep::RemoveRecord { box_id: record.id.clone() });
    }
    out
}

/// Whatever the removal of a box tears down, stopping it has torn down the
/// volumes' attachment and the network's endpoint in the same way: the steps of
/// a stop other than the socket directory's are the first steps of a removal.
pub proof fn lemma_removal_begins_as_stop(r: RecordView, temp_dir: Seq<char>)
    ensures
        ({
            let first = resource_steps(r.id, r.volume_names, network_of(r));
            first.is_prefix_of(removal_steps(r, temp_dir))
        }),
{
    let first = resource_steps(r.id, r.volume_names, network_of(r));
    assert(first =~= removal_steps(r, temp_dir).take(first.len() as int));
}

// ---------------------------------------------------------------------------
// What is left of a box
// ---------------------------------------------------------------------------

/// What a box held is given back: all its volumes are detached from it, and it is
/// taken off the network it was on. Nothing else is touched.
pub proof fn lemma_resources_given_back(record: BoxRecord, r: Vec<CleanupStep>)
    requires
        call_ensures(cleanup_record_resources, (&record,), r),
    ensures
        r@.len() >= 1,
        steps(r@)[0] == (StepView::DetachVolumes {
            volumes: text::strs(record.volume_names@),
            box_id: record.id@,
        }),
        record.network_name is Some ==> r@.len() == 2 && steps(r@)[1] == (StepView::Disconnect {
            network: record.network_name->0@,
            box_id: record.id@,
        }),
        record.network_name is None && record.network_mode is Tsi ==> r@.len() == 1,
        record.network_name is None && record.network_mode is Bridge ==> r@.len() == 2 && steps(r@)[1]
            == (StepView::Disconnect {
            network: record.network_mode->network@,
            box_id: record.id@,
        }),
{
    assert(steps(r@).len() == r@.len());
    assert(record@.network_mode == record.network_mode@);
}

/// The directory of a box's socket is removed for itself only where it lies outside
/// the box's own, and then it is that directory and no other.
pub proof fn lemma_socket_dir_removed(box_dir: &str, socket: &str, r: Vec<CleanupStep>)
    requires
        call_ensures(cleanup_external_socket_dir, (box_dir, socket), r),
    ensures
        path::parent_of(socket@) is None ==> r@.len() == 0,
        path::parent_of(socket@) matches Some(dir) ==> {
            &&& steps(r@).contains(StepView::TerminatePasst { dir })
            &&& steps(r@).contains(StepView::RemoveDir { path: dir }) <==> !path::is_within(
                dir,
                box_dir@,
            )
            &&& forall|i: int|
                0 <= i < steps(r@).len() ==> #[trigger] steps(r@)[i] == (StepView::TerminatePasst { dir })
                    || steps(r@)[i] == (StepView::RemoveDir { path: dir })
        },
{
    assert(steps(r@).len() == r@.len());
    if path::parent_of(socket@) is Some {
        assert(steps(r@)[0] is TerminatePasst);
        if !path::is_within(path::parent_of(socket@)->0, box_dir@) {
            assert(steps(r@)[1] is RemoveDir);
        }
    }
}

/// A box that is removed leaves nothing: its volumes are detached, its unnamed ones
/// removed, each of them, its directory and its mount are gone. A box that has only
/// stopped keeps its directory and its unnamed volumes.
pub proof fn lemma_removed_leaves_nothing(
    record: BoxRecord,
    temp_dir: &str,
    removed: Vec<CleanupStep>,
    stopped: Vec<CleanupStep>,
    i: int,
)
    requires
        call_ensures(cleanup_removed_box, (&record, temp_dir), removed),
        call_ensures(cleanup_stopped_box, (&record,), stopped),
        0 <= i < record.anonymous_volumes@.len(),
    ensures
        steps(removed@)[0] == (StepView::DetachVolumes {
            volumes: text::strs(record.volume_names@),
            box_id: record.id@,
        }),
        steps(removed@).contains(
            StepView::RemoveVolume { name: record.anonymous_volumes@[i]@ },
        ),
        steps(removed@).contains(StepView::RemoveDirIfPresent { path: record.box_dir@ }),
        steps(removed@).last() == (StepView::RemoveDirIfPresent {
            path: path::under(temp_dir@, "a3s-fs-mount-"@ + record.id@),
        }),
        steps(stopped@)[0] == steps(removed@)[0],
        forall|k: int|
            0 <= k < steps(stopped@).len() ==> !(#[trigger] steps(stopped@)[k] is RemoveVolume) && !(
            steps(stopped@)[k] is RemoveDirIfPresent) && !(steps(stopped@)[k] is RemoveRecord),
{
    let r = record@;
    let head = resource_steps(r.id, r.volume_names, network_of(r));
    let all = removal_steps(r, temp_dir@);
    let vols = volume_steps(r.anonymous_volumes);
    assert(r.anonymous_volumes[i] == record.anonymous_volumes@[i]@);
    assert(vols.len() == r.anonymous_volumes.len());
    assert(all[head.len() + i] == StepView::RemoveVolume { name: record.anonymous_volumes@[i]@ });
    assert(all[(head.len() + vols.len()) as int] == StepView::RemoveDirIfPresent { path: r.box_dir });
    assert(all[0] == head[0]);
    let sockets = socket_steps(r.box_dir, r.exec_socket_path);
    assert(steps(stopped@) == head + sockets);
}

/// A box that was only begun is removed like any other, and its record last of all,
/// where it has one.
pub proof fn lemma_partial_box_removed(
    record: BoxRecord,
    temp_dir: &str,
    removed: Vec<CleanupStep>,
    recorded: Vec<CleanupStep>,
    unrecorded: Vec<CleanupStep>,
)
    requires
        call_ensures(cleanup_removed_box, (&record, temp_dir), removed),
        call_ensures(cleanup_partial_box_record, (&record, temp_dir, true), recorded),
        call_ensures(cleanup_partial_box_record, (&record, temp_dir, false), unrecorded),
    ensures
        steps(unrecorded@) == steps(removed@),
        steps(recorded@).len() == steps(removed@).len() + 1,
        steps(recorded@).drop_last() =~= steps(removed@),
        steps(recorded@).last() == (StepView::RemoveRecord { box_id: record.id@ }),
{
}

/// Each unnamed volume is removed, in its place, and nothing else.
pub proof fn lemma_unnamed_volumes_removed(names: Vec<String>, r: Vec<CleanupStep>, i: int)
    requires
        call_ensures(cleanup_anonymous_volumes, (&names,), r),
        0 <= i < names@.len(),
    ensures
        r@.len() == names@.len(),
        r@[i] matches CleanupStep::RemoveVolume { name } && name@ == names@[i]@,
{
    assert(steps(r@).len() == r@.len());
    assert(text::strs(names@).len() == names@.len());
    assert(steps(r@)[i] == StepView::RemoveVolume { name: text::strs(names@)[i] });
    assert(steps(r@)[i] == r@[i]@);
}

} // verus!
