//! Images.

use vstd::prelude::*;

use crate::api::containers;
use crate::api::containers::pair_texts;
use crate::api::error::{ApiError, ErrorView};
use crate::config;
use crate::json;
use crate::json::{
    empty_list, list_value, new_members, number_value, object_value, parse_text_map, put, put_count, put_object,
    put_text, single, text_value, texts_value, JsonView,
};
use crate::state::Timestamp;
use crate::text;
use crate::text::{cat2, cat3, contains_str, starts_with};
use crate::time;
use crate::time::to_rfc3339;

verus! {

/// Which images are listed.
#[derive(Debug)]
pub struct ListQuery {
    pub all: bool,
    pub filters: Option<String>,
    pub digests: bool,
}

/// Which image is pulled.
#[derive(Debug)]
pub struct PullQuery {
    pub from_image: String,
    pub tag: Option<String>,
}

/// How an image is removed.
#[derive(Debug)]
pub struct RemoveQuery {
    pub force: bool,
    pub noprune: bool,
}

/// What is built.
#[derive(Debug)]
pub struct BuildQuery {
    pub tag: Option<String>,
    pub dockerfile: Option<String>,
    pub q: bool,
    pub build_args: Option<String>,
    pub platform: Option<String>,
}

/// An image of the store.
#[derive(Debug)]
pub struct StoredImage {
    pub digest: String,
    pub tags: Vec<String>,
    pub created_at: Timestamp,
    pub size: u64,
}

/// What is told of an image in a list.
pub open spec fn image_doc(i: StoredImage) -> JsonView {
    JsonView::Object(
        json::nothing().insert("Id"@, JsonView::Text(i.digest@)).insert("RepoTags"@, json::texts(text::strs(i.tags@))).insert(
            "RepoDigests"@,
            JsonView::List(seq![JsonView::Text(i.digest@)]),
        ).insert("Created"@, JsonView::Number(i.created_at.secs as int)).insert("Size"@, JsonView::Number(i.size as int)).insert(
            "VirtualSize"@,
            JsonView::Number(i.size as int),
        ).insert("SharedSize"@, JsonView::Number(0)).insert("Labels"@, JsonView::Object(json::nothing())).insert(
            "Containers"@,
            JsonView::Number(0),
        ),
    )
}

/// What is told of an image in a list.
pub fn image_value(i: &StoredImage) -> (r: serde_json::Value)
    ensures
        json::contents(r) == image_doc(*i),
{
    let m = put_text(new_members(), "Id", &i.digest);
    let m = put(m, "RepoTags", texts_value(&i.tags));
    let m = put(m, "RepoDigests", single(text_value(&i.digest)));
    let m = put(m, "Created", number_value(i.created_at.secs));
    let m = put_count(m, "Size", i.size);
    let m = put_count(m, "VirtualSize", i.size);
    let m = put_count(m, "SharedSize", 0);
    let m = put_object(m, "Labels", new_members());
    object_value(put_count(m, "Containers", 0))
}

/// What is told of the images of the store.
pub fn list(images: &Vec<StoredImage>) -> (r: serde_json::Value)
    ensures
        json::contents(r) == JsonView::List(images@.map_values(|i: StoredImage| image_doc(i))),
{
    let mut out: Vec<serde_json::Value> = Vec::new();
    for i in 0..images.len()
        invariant
            out.len() == i,
            forall|k: int| 0 <= k < i ==> json::contents(#[trigger] out@[k]) == image_doc(images@[k]),
    {
        out.push(image_value(&images[i]));
    }
    assert(json::all_contents(out@) =~= images@.map_values(|i: StoredImage| image_doc(i)));
    list_value(out)
}

/// The reference of the image that is pulled.
pub open spec fn pulled_reference(image: Seq<char>, tag: Option<Seq<char>>) -> Seq<char> {
    match tag {
        Some(t) => image + ":"@ + t,
        None => image,
    }
}

/// The reference of the image that is pulled.
pub fn pull_reference(query: &PullQuery) -> (r: String)
    ensures
        r@ == pulled_reference(query.from_image@, text::opt_str(query.tag)),
{
    match &query.tag {
        Some(t) => cat3(&query.from_image, ":", t),
        None => query.from_image.clone(),
    }
}

/// The answer once an image is pulled.
pub fn pulled_value(reference: &str) -> (r: serde_json::Value)
    ensures
        json::contents(r) == JsonView::Object(
            json::nothing().insert("status"@, JsonView::Text("Pulled "@ + reference@)),
        ),
{
    let s = cat2("Pulled ", reference);
    object_value(put_text(new_members(), "status", &s))
}

/// Whether an image is meant by a name: one of its tags holds the name, or its
/// digest begins with it.
pub open spec fn meant(i: StoredImage, name: Seq<char>) -> bool {
    (exists|k: int| 0 <= k < i.tags@.len() && text::has_substring((#[trigger] i.tags@[k])@, name)) || text::has_prefix(
        i.digest@,
        name,
    )
}

/// Whether an image is meant by a name.
pub fn is_meant(i: &StoredImage, name: &str) -> (r: bool)
    ensures
        r == meant(*i, name@),
{
    for k in 0..i.tags.len()
        invariant
            forall|j: int| 0 <= j < k ==> !text::has_substring((#[trigger] i.tags@[j])@, name@),
    {
        if contains_str(&i.tags[k], name) {
            return true;
        }
    }
    starts_with(&i.digest, name)
}

/// What is told of an image that is asked for.
pub open spec fn inspect_doc(i: StoredImage) -> JsonView {
    JsonView::Object(
        json::nothing().insert("Id"@, JsonView::Text(i.digest@)).insert("RepoTags"@, json::texts(text::strs(i.tags@))).insert(
            "RepoDigests"@,
            JsonView::List(seq![JsonView::Text(i.digest@)]),
        ).insert("Created"@, JsonView::Text(time::rfc3339_text(i.created_at.secs, i.created_at.nanos))).insert(
            "Size"@,
            JsonView::Number(i.size as int),
        ).insert("VirtualSize"@, JsonView::Number(i.size as int)).insert("Architecture"@, JsonView::Text("amd64"@)).insert(
            "Os"@,
            JsonView::Text("linux"@),
        ).insert("Config"@, JsonView::Object(json::nothing())).insert(
            "RootFS"@,
            JsonView::Object(
                json::nothing().insert("Type"@, JsonView::Text("layers"@)).insert("Layers"@, JsonView::List(Seq::empty())),
            ),
        ),
    )
}

/// Whether the first image that a name means stands at a place.
pub open spec fn first_meant(images: Seq<StoredImage>, name: Seq<char>, at: int) -> bool {
    0 <= at < images.len() && meant(images[at], name) && forall|j: int|
        0 <= j < at ==> !meant(#[trigger] images[j], name)
}

/// What is told of the first image that a name means, if there is one.
pub fn inspect(images: &Vec<StoredImage>, name: &str) -> (r: Result<serde_json::Value, ApiError>)
    requires
        forall|i: int| 0 <= i < images@.len() ==> time::representable((#[trigger] images@[i]).created_at),
    ensures
        match r {
            Ok(v) => exists|at: int|
                first_meant(images@, name@, at) && json::contents(v) == inspect_doc(#[trigger] images@[at]),
            Err(e) => (forall|i: int| 0 <= i < images@.len() ==> !meant(#[trigger] images@[i], name@)) && e@
                == ErrorView::NotFound("Image "@ + name@ + " not found"@),
        },
{
    for at in 0..images.len()
        invariant
            forall|i: int| 0 <= i < images@.len() ==> time::representable((#[trigger] images@[i]).created_at),
            forall|j: int| 0 <= j < at ==> !meant(#[trigger] images@[j], name@),
    {
        let i = &images[at];
        if is_meant(i, name) {
            let created = to_rfc3339(i.created_at);
            let m = put_text(new_members(), "Id", &i.digest);
            let m = put(m, "RepoTags", texts_value(&i.tags));
            let m = put(m, "RepoDigests", single(text_value(&i.digest)));
            let m = put_text(m, "Created", &created);
            let m = put_count(m, "Size", i.size);
            let m = put_count(m, "VirtualSize", i.size);
            let m = put_text(m, "Architecture", "amd64");
            let m = put_text(m, "Os", "linux");
            let m = put_object(m, "Config", new_members());
            let fs = put_text(new_members(), "Type", "layers");
            let fs = put(fs, "Layers", empty_list());
            let v = object_value(put_object(m, "RootFS", fs));
            assert(first_meant(images@, name@, at as int));
            assert(json::contents(v) == inspect_doc(images@[at as int]));
            return Ok(v);
        }
    }
    Err(ApiError::NotFound(cat3("Image ", name, " not found")))
}

/// The history of an image is not told.
pub fn history() -> (r: ApiError)
    ensures
        r@ == ErrorView::NotImplemented("Image history not yet implemented"@),
{
    ApiError::NotImplemented("Image history not yet implemented".to_string())
}

/// Images are not pushed.
pub fn push() -> (r: ApiError)
    ensures
        r@ == ErrorView::NotImplemented("Image push not yet implemented"@),
{
    ApiError::NotImplemented("Image push not yet implemented".to_string())
}

/// Images are not tagged.
pub fn tag() -> (r: ApiError)
    ensures
        r@ == ErrorView::NotImplemented("Image tag not yet implemented"@),
{
    ApiError::NotImplemented("Image tag not yet implemented".to_string())
}

/// The answer once an image is removed.
pub fn removed_value(name: &str) -> (r: serde_json::Value)
    ensures
        json::contents(r) == JsonView::Object(
            json::nothing().insert(
                "Deleted"@,
                JsonView::List(seq![JsonView::Object(json::nothing().insert("Untagged"@, JsonView::Text(name@)))]),
            ),
        ),
{
    let untagged = put_text(new_members(), "Untagged", name);
    object_value(put(new_members(), "Deleted", single(object_value(untagged))))
}

/// What is asked of `build`.
#[derive(Debug)]
pub struct BuildRequest {
    pub path: String,
    pub tag: Option<String>,
    pub file: Option<String>,
    pub build_arg: Vec<String>,
    pub quiet: bool,
    pub platform: Option<String>,
}

/// Whether texts are the build arguments that a document names, KEY=VALUE, each
/// once.
pub open spec fn build_args_are(document: Option<Seq<char>>, l: Seq<Seq<char>>) -> bool {
    match document {
        Some(s) => json::parsed_text_map(s) is Ok && exists|pairs: Seq<(Seq<char>, Seq<char>)>| #[trigger]
            config::lists(pairs, json::parsed_text_map(s)->Ok_0) && l == containers::pair_lines(pairs),
        None => l.len() == 0,
    }
}

/// What is asked of `build`: of the build arguments, those that their document
/// names.
pub fn build_request(query: BuildQuery) -> (r: Result<BuildRequest, ApiError>)
    ensures
        match r {
            Ok(b) => {
                &&& b.path@ == "."@
                &&& b.tag == query.tag
                &&& b.file == query.dockerfile
                &&& build_args_are(text::opt_str(query.build_args), text::strs(b.build_arg@))
                &&& b.quiet == query.q
                &&& b.platform == query.platform
            },
            Err(e) => query.build_args matches Some(s) && json::parsed_text_map(s@) matches Err(m) && e@
                == ErrorView::BadRequest("Invalid build args: "@ + m),
        },
{
    let build_arg: Vec<String> = match &query.build_args {
        Some(s) => match parse_text_map(s) {
            Ok(pairs) => {
                let l = pair_texts(&pairs);
                assert(config::lists(config::pair_texts(pairs@), json::parsed_text_map(s@)->Ok_0) && text::strs(l@)
                    == containers::pair_lines(config::pair_texts(pairs@)));
                l
            },
            Err(e) => {
                return Err(ApiError::BadRequest(cat2("Invalid build args: ", &e)));
            },
        },
        None => Vec::new(),
    };
    Ok(
        BuildRequest {
            path: ".".to_string(),
            tag: query.tag,
            file: query.dockerfile,
            build_arg,
            quiet: query.q,
            platform: query.platform,
        },
    )
}

/// The answer once an image is built.
pub fn built_value() -> (r: serde_json::Value)
    ensures
        json::contents(r) == JsonView::Object(
            json::nothing().insert("stream"@, JsonView::Text("Successfully built image\n"@)),
        ),
{
    object_value(put_text(new_members(), "stream", "Successfully built image\n"))
}

/// What is told of an image is its own: its digest, its tags, its size and the second
/// it was made in.
pub proof fn lemma_image_told(i: StoredImage, k: int, r: serde_json::Value)
    requires
        call_ensures(image_value, (&i,), r),
    ensures
        ({
            let doc = json::contents(r);
            &&& json::member_of(doc, "Id"@) == JsonView::Text(i.digest@)
            &&& json::item_of(json::member_of(doc, "RepoDigests"@), 0) == JsonView::Text(i.digest@)
            &&& 0 <= k < i.tags@.len() ==> json::item_of(json::member_of(doc, "RepoTags"@), k)
                == JsonView::Text(i.tags@[k]@)
            &&& json::member_of(doc, "Size"@) == JsonView::Number(i.size as int)
            &&& json::member_of(doc, "VirtualSize"@) == json::member_of(doc, "Size"@)
            &&& json::member_of(doc, "Created"@) == JsonView::Number(i.created_at.secs as int)
        }),
{
    reveal_strlit("Id");
    reveal_strlit("RepoTags");
    reveal_strlit("RepoDigests");
    reveal_strlit("Created");
    reveal_strlit("Size");
    reveal_strlit("VirtualSize");
    reveal_strlit("SharedSize");
    reveal_strlit("Labels");
    reveal_strlit("Containers");
    assert("Id"@.len() == 2);
    assert("RepoTags"@.len() == 8);
    assert("RepoDigests"@.len() == 11 && "RepoDigests"@[0] == 'R');
    assert("Created"@.len() == 7);
    assert("Size"@.len() == 4);
    assert("VirtualSize"@.len() == 11 && "VirtualSize"@[0] == 'V');
    assert("SharedSize"@.len() == 10 && "SharedSize"@[0] == 'S');
    assert("Labels"@.len() == 6);
    assert("Containers"@.len() == 10 && "Containers"@[0] == 'C');
}

/// Each image is listed, in its place.
pub proof fn lemma_images_listed(images: Vec<StoredImage>, i: int, one: serde_json::Value, r: serde_json::Value)
    requires
        call_ensures(list, (&images,), r),
        0 <= i < images@.len(),
        call_ensures(image_value, (&images@[i],), one),
    ensures
        json::item_of(json::contents(r), i) == json::contents(one),
        json::item_of(json::contents(r), images@.len() as int) is Null,
{
}

/// What is pulled is the image that was asked for, with its tag behind a colon where
/// one was.
pub proof fn lemma_pulled_as_asked(query: PullQuery, r: String)
    requires
        call_ensures(pull_reference, (&query,), r),
    ensures
        query.tag is None ==> r@ == query.from_image@,
        query.tag is Some ==> text::has_prefix(r@, query.from_image@) && text::has_suffix(
            r@,
            query.tag->0@,
        ) && r@.len() == query.from_image@.len() + 1 + query.tag->0@.len()
            && r@[query.from_image@.len() as int] == ':',
{
    reveal_strlit(":");
    if query.tag is Some {
        let t = query.tag->0@;
        assert(r@.take(query.from_image@.len() as int) =~= query.from_image@);
        assert(r@.skip(r@.len() - t.len()) =~= t);
    }
}

/// An image is meant by the beginning of its digest and by any part of a tag, and by
/// nothing else.
pub proof fn lemma_meant_by(i: StoredImage, name: &str, k: int, r: bool)
    requires
        call_ensures(is_meant, (&i, name), r),
    ensures
        name@ == i.digest@ ==> r,
        0 <= k < i.tags@.len() && i.tags@[k]@ == name@ ==> r,
        i.tags@.len() == 0 ==> (r <==> text::has_prefix(i.digest@, name@)),
{
    assert(i.digest@.take(i.digest@.len() as int) =~= i.digest@);
    if 0 <= k < i.tags@.len() && i.tags@[k]@ == name@ {
        let t = i.tags@[k]@;
        assert(t.subrange(0, t.len() as int) =~= t);
        assert(text::occurs_at(t, name@, 0));
        assert(text::has_substring(i.tags@[k]@, name@));
    }
}

/// What is built is what the query asks for, from the directory it is in; and without
/// build arguments it is never refused.
pub proof fn lemma_built_as_asked(query: BuildQuery, r: Result<BuildRequest, ApiError>)
    requires
        call_ensures(build_request, (query,), r),
    ensures
        query.build_args is None ==> r is Ok && r->Ok_0.build_arg@.len() == 0,
        r is Ok ==> r->Ok_0.tag == query.tag && r->Ok_0.file == query.dockerfile && r->Ok_0.quiet
            == query.q && r->Ok_0.platform == query.platform && r->Ok_0.path@ == "."@,
{
    if r is Ok {
        assert(text::strs(r->Ok_0.build_arg@).len() == r->Ok_0.build_arg@.len());
    }
}

/// The first image that is meant is shown, under its own digest; and an image is not
/// found exactly where none is meant.
pub proof fn lemma_inspected_is_meant(
    images: Vec<StoredImage>,
    name: &str,
    i: int,
    r: Result<serde_json::Value, ApiError>,
)
    requires
        forall|i: int| 0 <= i < images@.len() ==> time::representable((#[trigger] images@[i]).created_at),
        call_ensures(inspect, (&images, name), r),
        0 <= i < images@.len(),
    ensures
        meant(images@[i], name@) ==> r is Ok,
        (forall|j: int| 0 <= j < images@.len() ==> !meant(#[trigger] images@[j], name@)) ==> r is Err,
        r is Ok && meant(images@[i], name@) && (forall|j: int|
            0 <= j < i ==> !meant(#[trigger] images@[j], name@)) ==> json::member_of(
            json::contents(r->Ok_0),
            "Id"@,
        ) == JsonView::Text(images@[i].digest@),
{
    reveal_strlit("Id");
    reveal_strlit("RepoTags");
    reveal_strlit("RepoDigests");
    reveal_strlit("Created");
    reveal_strlit("Size");
    reveal_strlit("VirtualSize");
    reveal_strlit("Architecture");
    reveal_strlit("Os");
    reveal_strlit("Config");
    reveal_strlit("RootFS");
    assert("Id"@.len() == 2 && "Id"@[0] == 'I');
    assert("RepoTags"@.len() == 8);
    assert("RepoDigests"@.len() == 11 && "RepoDigests"@[0] == 'R');
    assert("Created"@.len() == 7);
    assert("Size"@.len() == 4);
    assert("VirtualSize"@.len() == 11 && "VirtualSize"@[0] == 'V');
    assert("Architecture"@.len() == 12);
    assert("Os"@.len() == 2 && "Os"@[0] == 'O');
    assert("Config"@.len() == 6 && "Config"@[0] == 'C');
    assert("RootFS"@.len() == 6 && "RootFS"@[0] == 'R');
    if r is Ok {
        let at = choose|at: int|
            first_meant(images@, name@, at) && json::contents(r->Ok_0) == inspect_doc(
                #[trigger] images@[at],
            );
        assert(first_meant(images@, name@, at));
        if meant(images@[i], name@) && (forall|j: int| 0 <= j < i ==> !meant(#[trigger] images@[j], name@)) {
            assert(at == i) by {
                if at < i {
                    assert(!meant(images@[at], name@));
                } else if i < at {
                    assert(!meant(images@[i], name@));
                }
            }
        }
    }
}

} // verus!
