//! `image-inspect`: what is known of an image as a document.

use vstd::prelude::*;

use crate::image;
use crate::image::StoredImage;
use crate::json;
use crate::json::{
    count_value, new_members, null_value, object_value, optional_value, put, put_count, put_object, put_text,
    text_value, texts_value, JsonView,
};
use crate::strmap;
use crate::strmap::StrMap;
use crate::text;
use crate::time;
use crate::time::to_rfc3339;

verus! {

/// The arguments of `image-inspect`.
#[derive(Debug)]
pub struct ImageInspectArgs {
    pub image: String,
}

/// The health check that an image asks for.
#[derive(Debug)]
pub struct ImageHealth {
    pub test: Vec<String>,
    pub interval: Option<u64>,
    pub timeout: Option<u64>,
    pub retries: Option<u64>,
    pub start_period: Option<u64>,
}

/// What the configuration of an image says.
#[derive(Debug)]
pub struct ImageConfig {
    pub entrypoint: Option<Vec<String>>,
    pub cmd: Option<Vec<String>>,
    pub env: StrMap<String>,
    pub working_dir: Option<String>,
    pub user: Option<String>,
    pub exposed_ports: Vec<String>,
    pub volumes: Vec<String>,
    pub stop_signal: Option<String>,
    pub health_check: Option<ImageHealth>,
    pub onbuild: Vec<String>,
    pub labels: StrMap<String>,
}

/// An optional count as a document.
pub open spec fn opt_count(o: Option<u64>) -> JsonView {
    match o {
        Some(n) => JsonView::Number(n as int),
        None => JsonView::Null,
    }
}

/// An optional list of texts as a document.
pub open spec fn opt_texts(o: Option<Seq<Seq<char>>>) -> JsonView {
    match o {
        Some(l) => json::texts(l),
        None => JsonView::Null,
    }
}

/// A health check as a document.
pub open spec fn health_doc(o: Option<ImageHealth>) -> JsonView {
    match o {
        Some(h) => JsonView::Object(
            json::nothing().insert("Test"@, json::texts(text::strs(h.test@))).insert("Interval"@, opt_count(h.interval)).insert(
                "Timeout"@,
                opt_count(h.timeout),
            ).insert("Retries"@, opt_count(h.retries)).insert("StartPeriod"@, opt_count(h.start_period)),
        ),
        None => JsonView::Null,
    }
}

/// A configuration as a document.
pub open spec fn config_doc(c: ImageConfig) -> Map<Seq<char>, JsonView> {
    json::nothing().insert("Entrypoint"@, opt_texts(text::opt_strs(c.entrypoint))).insert(
        "Cmd"@,
        opt_texts(text::opt_strs(c.cmd)),
    ).insert("Env"@, JsonView::Object(json::text_members(strmap::texts(c.env@)))).insert(
        "WorkingDir"@,
        json::optional(text::opt_str(c.working_dir)),
    ).insert("User"@, json::optional(text::opt_str(c.user))).insert(
        "ExposedPorts"@,
        json::texts(text::strs(c.exposed_ports@)),
    ).insert("Volumes"@, json::texts(text::strs(c.volumes@))).insert(
        "StopSignal"@,
        json::optional(text::opt_str(c.stop_signal)),
    ).insert("Healthcheck"@, health_doc(c.health_check)).insert("OnBuild"@, json::texts(text::strs(c.onbuild@))).insert(
        "Labels"@,
        JsonView::Object(json::text_members(strmap::texts(c.labels@))),
    )
}

/// What is known of an image as a document.
pub open spec fn inspect_doc(image: StoredImage, config: ImageConfig, layers: nat) -> JsonView {
    JsonView::Object(
        json::nothing().insert("Reference"@, JsonView::Text(image.reference@)).insert(
            "Digest"@,
            JsonView::Text(image.digest@),
        ).insert("Size"@, JsonView::Number(image.size_bytes as int)).insert(
            "PulledAt"@,
            JsonView::Text(time::rfc3339_text(image.pulled_at.secs, image.pulled_at.nanos)),
        ).insert("Config"@, JsonView::Object(config_doc(config))).insert("LayerCount"@, JsonView::Number(layers as int)),
    )
}

/// An optional count as a document.
fn opt_count_value(o: Option<u64>) -> (r: serde_json::Value)
    ensures
        json::contents(r) == opt_count(o),
{
    match o {
        Some(n) => count_value(n),
        None => null_value(),
    }
}

/// An optional list of texts as a document.
fn opt_texts_value(o: &Option<Vec<String>>) -> (r: serde_json::Value)
    ensures
        json::contents(r) == opt_texts(text::opt_strs(*o)),
{
    match o {
        Some(l) => texts_value(l),
        None => null_value(),
    }
}

/// A map from texts to texts as members.
pub fn text_map_members(m: &StrMap<String>) -> (r: serde_json::Map<String, serde_json::Value>)
    ensures
        json::members(r) == json::text_members(strmap::texts(m@)),
{
    let n: usize = m.len();
    let ghost keys = m.key_list();
    let mut out = new_members();
    for i in 0..n
        invariant
            n == keys.len(),
            keys == m.key_list(),
            forall|k: Seq<char>| #[trigger]
                json::members(out).contains_key(k) <==> exists|j: int| 0 <= j < i && #[trigger] keys[j] == k,
            forall|k: Seq<char>| #[trigger]
                json::members(out).contains_key(k) ==> m@.dom().contains(k) && json::members(out)[k]
                    == JsonView::Text(m@[k]@),
    {
        let (k, v) = m.entry(i);
        let ghost before = json::members(out);
        out = put(out, k, text_value(v));
        assert forall|q: Seq<char>| #[trigger] json::members(out).contains_key(q) <==> exists|j: int|
            0 <= j < i + 1 && #[trigger] keys[j] == q by {
            if before.contains_key(q) {
                let j = choose|j: int| 0 <= j < i && #[trigger] keys[j] == q;
                assert(keys[j] == q);
            }
            if q == k@ {
                assert(keys[i as int] == q);
            }
        }
    }
    proof {
        assert forall|k: Seq<char>| #[trigger] json::members(out).contains_key(k) == m@.dom().contains(k) by {
            strmap::lemma_keys(m, k);
            if m@.dom().contains(k) {
                let j = choose|j: int| 0 <= j < keys.len() && keys[j] == k;
                assert(keys[j] == k);
            }
        }
        assert(json::members(out) =~= json::text_members(strmap::texts(m@)));
    }
    out
}

/// A health check as a document.
fn health_value(o: &Option<ImageHealth>) -> (r: serde_json::Value)
    ensures
        json::contents(r) == health_doc(*o),
{
    match o {
        Some(h) => {
            let m = put(new_members(), "Test", texts_value(&h.test));
            let m = put(m, "Interval", opt_count_value(h.interval));
            let m = put(m, "Timeout", opt_count_value(h.timeout));
            let m = put(m, "Retries", opt_count_value(h.retries));
            object_value(put(m, "StartPeriod", opt_count_value(h.start_period)))
        },
        None => null_value(),
    }
}

/// A configuration as members.
pub fn config_members(c: &ImageConfig) -> (r: serde_json::Map<String, serde_json::Value>)
    ensures
        json::members(r) == config_doc(*c),
{
    let m = put(new_members(), "Entrypoint", opt_texts_value(&c.entrypoint));
    let m = put(m, "Cmd", opt_texts_value(&c.cmd));
    let m = put_object(m, "Env", text_map_members(&c.env));
    let m = put(m, "WorkingDir", optional_value(&c.working_dir));
    let m = put(m, "User", optional_value(&c.user));
    let m = put(m, "ExposedPorts", texts_value(&c.exposed_ports));
    let m = put(m, "Volumes", texts_value(&c.volumes));
    let m = put(m, "StopSignal", optional_value(&c.stop_signal));
    let m = put(m, "Healthcheck", health_value(&c.health_check));
    let m = put(m, "OnBuild", texts_value(&c.onbuild));
    put_object(m, "Labels", text_map_members(&c.labels))
}

/// What is known of an image as a document.
pub fn image_inspect_value(image: &StoredImage, config: &ImageConfig, layers: usize) -> (r: serde_json::Value)
    requires
        time::representable(image.pulled_at),
    ensures
        json::contents(r) == inspect_doc(*image, *config, layers as nat),
{
    let pulled = to_rfc3339(image.pulled_at);
    let m = put_text(new_members(), "Reference", &image.reference);
    let m = put_text(m, "Digest", &image.digest);
    let m = put_count(m, "Size", image.size_bytes);
    let m = put_text(m, "PulledAt", &pulled);
    let m = put_object(m, "Config", config_members(config));
    object_value(put_count(m, "LayerCount", layers as u64))
}

/// What is known of an image, as the text of a document.
pub fn build_image_inspect_json(image: &StoredImage, config: &ImageConfig, layers: usize) -> (r: Result<String, String>)
    requires
        time::representable(image.pulled_at),
    ensures
        match r {
            Ok(s) => json::printed(inspect_doc(*image, *config, layers as nat)) == Ok::<Seq<char>, Seq<char>>(s@),
            Err(e) => json::printed(inspect_doc(*image, *config, layers as nat)) == Err::<Seq<char>, Seq<char>>(e@),
        },
{
    json::print(&image_inspect_value(image, config, layers))
}

/// What is shown of an image is what is stored of it, each under its own name.
pub proof fn lemma_image_shown(image: StoredImage, config: ImageConfig, layers: usize, r: serde_json::Value)
    requires
        time::representable(image.pulled_at),
        call_ensures(image_inspect_value, (&image, &config, layers), r),
    ensures
        ({
            let doc = json::contents(r);
            let c = json::member_of(doc, "Config"@);
            &&& json::member_of(doc, "Reference"@) == JsonView::Text(image.reference@)
            &&& json::member_of(doc, "Digest"@) == JsonView::Text(image.digest@)
            &&& json::member_of(doc, "Size"@) == JsonView::Number(image.size_bytes as int)
            &&& json::member_of(doc, "LayerCount"@) == JsonView::Number(layers as int)
            &&& c == JsonView::Object(config_doc(config))
        }),
{
    reveal_strlit("Reference");
    reveal_strlit("Digest");
    reveal_strlit("Size");
    reveal_strlit("PulledAt");
    reveal_strlit("Config");
    reveal_strlit("LayerCount");
    assert("Reference"@.len() == 9 && "Digest"@.len() == 6 && "Size"@.len() == 4 && "PulledAt"@.len() == 8
        && "Config"@.len() == 6 && "LayerCount"@.len() == 10);
    assert("Digest"@[0] == 'D' && "Config"@[0] == 'C');
}

/// What is shown of an image's configuration is what it holds: the command and the
/// entrypoint each for itself, in their order, and null where there is none.
pub proof fn lemma_image_config_shown(
    c: ImageConfig,
    i: int,
    k: Seq<char>,
    r: serde_json::Map<String, serde_json::Value>,
)
    requires
        call_ensures(config_members, (&c,), r),
    ensures
        ({
            let doc = JsonView::Object(json::members(r));
            &&& c.cmd is None ==> json::member_of(doc, "Cmd"@) is Null
            &&& c.cmd is Some && 0 <= i < c.cmd->0@.len() ==> json::item_of(
                json::member_of(doc, "Cmd"@),
                i,
            ) == JsonView::Text(c.cmd->0@[i]@)
            &&& c.entrypoint is None ==> json::member_of(doc, "Entrypoint"@) is Null
            &&& c.entrypoint is Some && 0 <= i < c.entrypoint->0@.len() ==> json::item_of(
                json::member_of(doc, "Entrypoint"@),
                i,
            ) == JsonView::Text(c.entrypoint->0@[i]@)
            &&& c.working_dir is Some ==> json::member_of(doc, "WorkingDir"@) == JsonView::Text(
                c.working_dir->0@,
            )
            &&& c.working_dir is None ==> json::member_of(doc, "WorkingDir"@) is Null
            &&& c.user is Some ==> json::member_of(doc, "User"@) == JsonView::Text(c.user->0@)
            &&& c.user is None ==> json::member_of(doc, "User"@) is Null
            &&& c.stop_signal is Some ==> json::member_of(doc, "StopSignal"@) == JsonView::Text(
                c.stop_signal->0@,
            )
            &&& c.health_check is None ==> json::member_of(doc, "Healthcheck"@) is Null
            &&& 0 <= i < c.exposed_ports@.len() ==> json::item_of(
                json::member_of(doc, "ExposedPorts"@),
                i,
            ) == JsonView::Text(c.exposed_ports@[i]@)
            &&& 0 <= i < c.volumes@.len() ==> json::item_of(json::member_of(doc, "Volumes"@), i)
                == JsonView::Text(c.volumes@[i]@)
            &&& 0 <= i < c.onbuild@.len() ==> json::item_of(json::member_of(doc, "OnBuild"@), i)
                == JsonView::Text(c.onbuild@[i]@)
            &&& c.env@.contains_key(k) ==> json::member_of(json::member_of(doc, "Env"@), k)
                == JsonView::Text(c.env@[k]@)
            &&& c.labels@.contains_key(k) ==> json::member_of(json::member_of(doc, "Labels"@), k)
                == JsonView::Text(c.labels@[k]@)
        }),
{
    reveal_strlit("Entrypoint");
    reveal_strlit("Cmd");
    reveal_strlit("Env");
    reveal_strlit("WorkingDir");
    reveal_strlit("User");
    reveal_strlit("ExposedPorts");
    reveal_strlit("Volumes");
    reveal_strlit("StopSignal");
    reveal_strlit("Healthcheck");
    reveal_strlit("OnBuild");
    reveal_strlit("Labels");
    assert("Entrypoint"@.len() == 10 && "Cmd"@.len() == 3 && "Env"@.len() == 3 && "WorkingDir"@.len() == 10
        && "User"@.len() == 4 && "ExposedPorts"@.len() == 12 && "Volumes"@.len() == 7
        && "StopSignal"@.len() == 10 && "Healthcheck"@.len() == 11 && "OnBuild"@.len() == 7
        && "Labels"@.len() == 6);
    assert("Cmd"@[0] == 'C' && "Env"@[0] == 'E' && "Entrypoint"@[0] == 'E' && "WorkingDir"@[0] == 'W'
        && "StopSignal"@[0] == 'S' && "Volumes"@[0] == 'V' && "OnBuild"@[0] == 'O');
    let env = strmap::texts(c.env@);
    let labels = strmap::texts(c.labels@);
    if c.env@.contains_key(k) {
        assert(env.contains_key(k) && env[k] == c.env@[k]@);
        assert(json::text_members(env).contains_key(k));
    }
    if c.labels@.contains_key(k) {
        assert(labels.contains_key(k) && labels[k] == c.labels@[k]@);
        assert(json::text_members(labels).contains_key(k));
    }
}

/// What is shown of an image's check is what it declares.
pub proof fn lemma_image_health_shown(
    c: ImageConfig,
    h: ImageHealth,
    r: serde_json::Map<String, serde_json::Value>,
)
    requires
        call_ensures(config_members, (&c,), r),
        c.health_check == Some(h),
    ensures
        ({
            let doc = json::member_of(JsonView::Object(json::members(r)), "Healthcheck"@);
            &&& h.interval is Some ==> json::member_of(doc, "Interval"@) == JsonView::Number(
                h.interval->0 as int,
            )
            &&& h.timeout is Some ==> json::member_of(doc, "Timeout"@) == JsonView::Number(
                h.timeout->0 as int,
            )
            &&& h.retries is Some ==> json::member_of(doc, "Retries"@) == JsonView::Number(
                h.retries->0 as int,
            )
            &&& h.start_period is Some ==> json::member_of(doc, "StartPeriod"@) == JsonView::Number(
                h.start_period->0 as int,
            )
            &&& h.interval is None ==> json::member_of(doc, "Interval"@) is Null
            &&& json::member_of(doc, "Test"@) == json::texts(text::strs(h.test@))
        }),
{
    reveal_strlit("Test");
    reveal_strlit("Interval");
    reveal_strlit("Timeout");
    reveal_strlit("Retries");
    reveal_strlit("StartPeriod");
    assert("Test"@.len() == 4 && "Interval"@.len() == 8 && "Timeout"@.len() == 7 && "Retries"@.len() == 7
        && "StartPeriod"@.len() == 11);
    assert("Timeout"@[0] == 'T' && "Retries"@[0] == 'R');
    reveal_strlit("Healthcheck");
    reveal_strlit("OnBuild");
    reveal_strlit("Labels");
    assert("Healthcheck"@.len() == 11 && "OnBuild"@.len() == 7 && "Labels"@.len() == 6);
    assert(json::members(r)["Healthcheck"@] == health_doc(c.health_check));
}

} // verus!
