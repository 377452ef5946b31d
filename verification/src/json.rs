//! JSON values, as far as the requests need them.
//!
//! The free-form information of a bucket is a JSON value that the caller
//! builds with `serde_json` and that this crate hands on as it is, but for one
//! member that it may set. Verus does not look into such a value. What the
//! contracts of this crate say of one, they say through the two functions
//! below, which stand for what `serde_json` holds.

use vstd::prelude::*;

verus! {

/// Declares `serde_json::Value`, so that it can stand in fields and
/// signatures. Verus sees nothing inside such a value.
#[verifier::external_type_specification]
#[verifier::external_body]
pub struct ExJsonValue(serde_json::Value);

/// Whether `value` is a JSON object, as `serde_json::Value::is_object` tells.
pub uninterp spec fn json_is_object(value: serde_json::Value) -> bool;

/// The members of the object `value`, each by its key. A member that is a
/// string stands as `(true, s)` with its characters `s`; any other member as
/// `(false, t)` with the JSON text `t` that `serde_json` writes for it.
pub uninterp spec fn json_members(value: serde_json::Value) -> Map<Seq<char>, (bool, Seq<char>)>;

/// Calls `serde_json::Value::is_object`, which tells whether the value is an
/// object.
#[verifier::external_body]
pub(crate) fn is_object(value: &serde_json::Value) -> (b: bool)
    ensures
        b == json_is_object(*value),
{
    value.is_object()
}

/// Makes the object that `serde_json::Map::new` gives: one without members.
#[verifier::external_body]
pub(crate) fn empty_object() -> (value: serde_json::Value)
    ensures
        json_is_object(value),
        json_members(value) =~= Map::empty(),
{
    serde_json::Value::Object(serde_json::Map::new())
}

/// Calls `serde_json::Map::insert` on the map of an object, with `key` and
/// the string `text`. The member at `key` is then that string, whatever it
/// was before, the other members are as they were, and the value is still an
/// object.
#[verifier::external_body]
pub(crate) fn set_string(value: &mut serde_json::Value, key: &str, text: String)
    requires
        json_is_object(*old(value)),
    ensures
        json_is_object(*final(value)),
        json_members(*final(value)) == json_members(*old(value)).insert(key@, (true, text@)),
{
    value.as_object_mut().unwrap().insert(key.to_owned(), serde_json::Value::String(text));
}

} // verus!
