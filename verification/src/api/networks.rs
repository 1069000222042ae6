//! Networks.

use vstd::prelude::*;

use crate::api::error::{ApiError, ErrorView};
use crate::json;
use crate::json::{list_value, new_members, object_value, put_text, JsonView};
use crate::text::{cat3, str_eq};

verus! {

/// What is told of a network.
pub open spec fn network_doc(name: Seq<char>) -> JsonView {
    JsonView::Object(json::nothing().insert("Name"@, JsonView::Text(name)))
}

/// What is told of a network.
pub fn network_value(name: &str) -> (r: serde_json::Value)
    ensures
        json::contents(r) == network_doc(name@),
{
    object_value(put_text(new_members(), "Name", name))
}

/// Whether a network is one of those that are always there.
pub open spec fn is_default(name: Seq<char>) -> bool {
    name == "bridge"@ || name == "host"@ || name == "none"@
}

/// The networks: those that are always there.
pub fn list() -> (r: serde_json::Value)
    ensures
        json::contents(r) == JsonView::List(
            seq![network_doc("bridge"@), network_doc("host"@), network_doc("none"@)],
        ),
{
    let mut out: Vec<serde_json::Value> = Vec::new();
    out.push(network_value("bridge"));
    out.push(network_value("host"));
    out.push(network_value("none"));
    assert(json::all_contents(out@) =~= seq![network_doc("bridge"@), network_doc("host"@), network_doc("none"@)]);
    list_value(out)
}

/// What is told of a network that is asked for.
pub fn inspect(id: &str) -> (r: Result<serde_json::Value, ApiError>)
    ensures
        if is_default(id@) {
            r matches Ok(v) && json::contents(v) == network_doc(id@)
        } else {
            r matches Err(e) && e@ == ErrorView::NotFound("Network "@ + id@ + " not found"@)
        },
{
    if str_eq(id, "bridge") || str_eq(id, "host") || str_eq(id, "none") {
        Ok(network_value(id))
    } else {
        Err(ApiError::NotFound(cat3("Network ", id, " not found")))
    }
}

/// Networks are not created.
pub fn create() -> (r: ApiError)
    ensures
        r@ == ErrorView::NotImplemented("Network create not yet implemented"@),
{
    ApiError::NotImplemented("Network create not yet implemented".to_string())
}

/// Networks are not removed.
pub fn remove() -> (r: ApiError)
    ensures
        r@ == ErrorView::NotImplemented("Network remove not yet implemented"@),
{
    ApiError::NotImplemented("Network remove not yet implemented".to_string())
}

/// Containers are not connected to networks.
pub fn connect() -> (r: ApiError)
    ensures
        r@ == ErrorView::NotImplemented("Network connect not yet implemented"@),
{
    ApiError::NotImplemented("Network connect not yet implemented".to_string())
}

/// Containers are not disconnected from networks.
pub fn disconnect() -> (r: ApiError)
    ensures
        r@ == ErrorView::NotImplemented("Network disconnect not yet implemented"@),
{
    ApiError::NotImplemented("Network disconnect not yet implemented".to_string())
}

/// The three networks are listed under their names, each of them can be looked at, and
/// no other is found.
pub proof fn lemma_networks_shown(id: &str, all: serde_json::Value, r: Result<serde_json::Value, ApiError>)
    requires
        call_ensures(list, (), all),
        call_ensures(inspect, (id,), r),
    ensures
        json::member_of(json::item_of(json::contents(all), 0), "Name"@) == JsonView::Text("bridge"@),
        json::member_of(json::item_of(json::contents(all), 1), "Name"@) == JsonView::Text("host"@),
        json::member_of(json::item_of(json::contents(all), 2), "Name"@) == JsonView::Text("none"@),
        json::item_of(json::contents(all), 3) is Null,
        r is Ok <==> id@ == "bridge"@ || id@ == "host"@ || id@ == "none"@,
        r is Ok ==> json::member_of(json::contents(r->Ok_0), "Name"@) == JsonView::Text(id@),
        r is Err ==> r->Err_0@ is NotFound,
{
}

} // verus!
