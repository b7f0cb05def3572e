//! Payloads, as the `serde_json` crate holds them.

use vstd::prelude::*;

verus! {

/// The JSON value type of the `serde_json` crate. A payload is carried through and never read.
#[verifier::external_type_specification]
#[verifier::external_body]
pub struct ExValue(serde_json::Value);

/// The error type of the `serde_json` crate.
#[verifier::external_type_specification]
#[verifier::external_body]
pub struct ExJsonError(serde_json::Error);

/// `Value::clone`: a copy stands for the same JSON value.
pub assume_specification[<serde_json::Value as Clone>::clone](value: &serde_json::Value) -> (copy:
    serde_json::Value)
    ensures
        copy == *value,
;

/// The JSON object with the given members.
pub uninterp spec fn json_object(members: Seq<(Seq<char>, serde_json::Value)>) -> serde_json::Value;

/// `Value::from_iter` on pairs of a name and a value, which collects them into an object. The claim
/// is that the object depends on the pairs alone.
#[verifier::external_body]
fn object(members: Vec<(String, serde_json::Value)>) -> (value: serde_json::Value)
    ensures
        value == json_object(
            members@.map_values(|member: (String, serde_json::Value)| (member.0@, member.1)),
        ),
{
    members.into_iter().collect::<serde_json::Value>()
}

/// The payload of a job that was given none: the object without members.
pub open spec fn no_payload() -> serde_json::Value {
    json_object(Seq::empty())
}

/// Makes the object without members.
pub fn empty_payload() -> (value: serde_json::Value)
    ensures
        value == no_payload(),
{
    let members: Vec<(String, serde_json::Value)> = Vec::new();
    assert(members@.map_values(|member: (String, serde_json::Value)| (member.0@, member.1))
        =~= Seq::empty());
    object(members)
}

} // verus!
