//! Volumes.

use vstd::prelude::*;

use crate::api::error::{ApiError, ErrorView};
use crate::commands::image_inspect::text_map_members;
use crate::json;
use crate::json::{list_value, new_members, null_value, object_value, put, put_object, put_text, JsonView};
use crate::state::Timestamp;
use crate::strmap;
use crate::strmap::StrMap;
use crate::text;
use crate::text::cat3;
use crate::time;
use crate::time::to_rfc3339;

verus! {

/// A request for a volume.
#[derive(Debug)]
pub struct VolumeCreateRequest {
    pub name: String,
    pub driver: Option<String>,
    pub driver_opts: Option<StrMap<String>>,
    pub labels: Option<StrMap<String>>,
}

/// A volume.
#[derive(Debug)]
pub struct Volume {
    pub name: String,
    pub driver: String,
    pub mount_point: String,
    pub created_at: Timestamp,
    pub labels: StrMap<String>,
}

/// What is told of a volume.
pub open spec fn volume_doc(v: Volume) -> JsonView {
    JsonView::Object(
        json::nothing().insert("Name"@, JsonView::Text(v.name@)).insert("Driver"@, JsonView::Text(v.driver@)).insert(
            "Mountpoint"@,
            JsonView::Text(v.mount_point@),
        ).insert("CreatedAt"@, JsonView::Text(time::rfc3339_text(v.created_at.secs, v.created_at.nanos))).insert(
            "Status"@,
            JsonView::Object(json::nothing()),
        ).insert("Labels"@, JsonView::Object(json::text_members(strmap::texts(v.labels@)))).insert(
            "Scope"@,
            JsonView::Text("local"@),
        ).insert("Options"@, JsonView::Object(json::nothing())),
    )
}

/// What is told of a volume.
pub fn volume_value(v: &Volume) -> (r: serde_json::Value)
    requires
        time::representable(v.created_at),
    ensures
        json::contents(r) == volume_doc(*v),
{
    let created = to_rfc3339(v.created_at);
    let m = put_text(new_members(), "Name", &v.name);
    let m = put_text(m, "Driver", &v.driver);
    let m = put_text(m, "Mountpoint", &v.mount_point);
    let m = put_text(m, "CreatedAt", &created);
    let m = put_object(m, "Status", new_members());
    let m = put_object(m, "Labels", text_map_members(&v.labels));
    let m = put_text(m, "Scope", "local");
    object_value(put_object(m, "Options", new_members()))
}

/// What is told of all volumes.
pub fn list(volumes: &Vec<Volume>) -> (r: serde_json::Value)
    requires
        forall|i: int| 0 <= i < volumes@.len() ==> time::representable((#[trigger] volumes@[i]).created_at),
    ensures
        json::contents(r) == JsonView::Object(
            json::nothing().insert("Volumes"@, JsonView::List(volumes@.map_values(|v: Volume| volume_doc(v)))).insert(
                "Warnings"@,
                JsonView::Null,
            ),
        ),
{
    let mut out: Vec<serde_json::Value> = Vec::new();
    for i in 0..volumes.len()
        invariant
            forall|i: int| 0 <= i < volumes@.len() ==> time::representable((#[trigger] volumes@[i]).created_at),
            out.len() == i,
            forall|k: int| 0 <= k < i ==> json::contents(#[trigger] out@[k]) == volume_doc(volumes@[k]),
    {
        out.push(volume_value(&volumes[i]));
    }
    assert(json::all_contents(out@) =~= volumes@.map_values(|v: Volume| volume_doc(v)));
    let m = put(new_members(), "Volumes", list_value(out));
    object_value(put(m, "Warnings", null_value()))
}

/// What a volume is made with: its name, its driver and its labels.
#[derive(Debug)]
pub struct VolumeConfig {
    pub name: String,
    pub driver: String,
    pub labels: StrMap<String>,
}

/// What a volume is made with: the local driver where none is asked for, and
/// the labels that a new volume has where none are.
pub fn volume_config(req: VolumeCreateRequest, default_labels: StrMap<String>) -> (r: VolumeConfig)
    ensures
        r.name@ == req.name@,
        r.driver@ == (match text::opt_str(req.driver) {
            Some(d) => d,
            None => "local"@,
        }),
        r.labels == (match req.labels {
            Some(l) => l,
            None => default_labels,
        }),
{
    let driver = match req.driver {
        Some(d) => d,
        None => "local".to_string(),
    };
    let labels = match req.labels {
        Some(l) => l,
        None => default_labels,
    };
    VolumeConfig { name: req.name, driver, labels }
}

/// What is told of a volume that is asked for, if there is one.
pub fn inspect(volume: &Option<Volume>, name: &str) -> (r: Result<serde_json::Value, ApiError>)
    requires
        volume matches Some(v) ==> time::representable(v.created_at),
    ensures
        match *volume {
            Some(v) => r matches Ok(x) && json::contents(x) == volume_doc(v),
            None => r matches Err(e) && e@ == ErrorView::NotFound("Volume "@ + name@ + " not found"@),
        },
{
    match volume {
        Some(v) => Ok(volume_value(v)),
        None => Err(ApiError::NotFound(cat3("Volume ", name, " not found"))),
    }
}

/// What is told of a volume is its own: its name, its driver, where it is mounted and
/// its labels.
pub proof fn lemma_volume_told(v: Volume, k: Seq<char>, r: serde_json::Value)
    requires
        time::representable(v.created_at),
        call_ensures(volume_value, (&v,), r),
    ensures
        ({
            let doc = json::contents(r);
            &&& json::member_of(doc, "Name"@) == JsonView::Text(v.name@)
            &&& json::member_of(doc, "Driver"@) == JsonView::Text(v.driver@)
            &&& json::member_of(doc, "Mountpoint"@) == JsonView::Text(v.mount_point@)
            &&& v.labels@.contains_key(k) ==> json::member_of(json::member_of(doc, "Labels"@), k)
                == JsonView::Text(v.labels@[k]@)
        }),
{
    reveal_strlit("Name");
    reveal_strlit("Driver");
    reveal_strlit("Mountpoint");
    reveal_strlit("CreatedAt");
    reveal_strlit("Status");
    reveal_strlit("Labels");
    reveal_strlit("Scope");
    reveal_strlit("Options");
    assert("Name"@.len() == 4);
    assert("Driver"@.len() == 6 && "Driver"@[0] == 'D');
    assert("Mountpoint"@.len() == 10);
    assert("CreatedAt"@.len() == 9);
    assert("Status"@.len() == 6 && "Status"@[0] == 'S');
    assert("Labels"@.len() == 6 && "Labels"@[0] == 'L');
    assert("Scope"@.len() == 5);
    assert("Options"@.len() == 7);
    let labels = strmap::texts(v.labels@);
    if v.labels@.contains_key(k) {
        assert(labels.contains_key(k) && labels[k] == v.labels@[k]@);
        assert(json::text_members(labels).contains_key(k));
    }
}

/// Each volume is listed, in its place, and shown as it is listed; one that is not
/// there is not found.
pub proof fn lemma_volumes_listed(
    volumes: Vec<Volume>,
    i: int,
    name: &str,
    all: serde_json::Value,
    one: Result<serde_json::Value, ApiError>,
    gone: Result<serde_json::Value, ApiError>,
)
    requires
        forall|i: int| 0 <= i < volumes@.len() ==> time::representable((#[trigger] volumes@[i]).created_at),
        call_ensures(list, (&volumes,), all),
        0 <= i < volumes@.len(),
        call_ensures(inspect, (&Some(volumes@[i]), name), one),
        call_ensures(inspect, (&None::<Volume>, name), gone),
    ensures
        one is Ok,
        json::item_of(json::member_of(json::contents(all), "Volumes"@), i) == json::contents(one->Ok_0),
        gone is Err && gone->Err_0@ is NotFound,
{
    reveal_strlit("Volumes");
    reveal_strlit("Warnings");
    assert("Volumes"@.len() == 7 && "Warnings"@.len() == 8);
}

/// A volume is made with the name, the driver and the labels that are asked for; the
/// driver is the local one where none is.
pub proof fn lemma_volume_as_asked(req: VolumeCreateRequest, labels: StrMap<String>, r: VolumeConfig)
    requires
        call_ensures(volume_config, (req, labels), r),
    ensures
        r.name@ == req.name@,
        req.driver is Some ==> r.driver@ == req.driver->0@,
        req.driver is None ==> r.driver@ == "local"@,
        req.labels is Some ==> r.labels == req.labels->0,
        req.labels is None ==> r.labels == labels,
{
}

} // verus!
