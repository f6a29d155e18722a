//! The JSON object type that a reply may carry as open-ended extra data.

use vstd::prelude::*;

verus! {

/// serde_json's JSON value, carried as it is.
#[verifier::external_type_specification]
#[verifier::external_body]
pub struct ExJsonValue(serde_json::Value);

/// serde_json's JSON object, known by its keys.
#[verifier::external_type_specification]
#[verifier::external_body]
#[verifier::reject_recursive_types(K)]
#[verifier::reject_recursive_types(V)]
pub struct ExJsonMap<K, V>(serde_json::Map<K, V>);

/// The keys that a JSON object holds.
pub uninterp spec fn json_keys(m: serde_json::Map<String, serde_json::Value>) -> Set<Seq<char>>;

/// Relies on serde_json::Map::new: the object it makes has no keys.
pub assume_specification[ serde_json::Map::<String, serde_json::Value>::new ]() -> (r: serde_json::Map<String, serde_json::Value>)
    ensures
        json_keys(r) == Set::<Seq<char>>::empty(),
;

/// Relies on serde_json::Map::insert: afterwards the key is present beside the
/// keys that were there; `None` comes back exactly when the key was new.
pub assume_specification[ serde_json::Map::<String, serde_json::Value>::insert ](
    m: &mut serde_json::Map<String, serde_json::Value>,
    k: String,
    v: serde_json::Value,
) -> (r: Option<serde_json::Value>)
    ensures
        json_keys(*final(m)) == json_keys(*old(m)).insert(k@),
        r is None <==> !json_keys(*old(m)).contains(k@),
;

} // verus!
