//! JSON values that workers hand over, looked at through a few questions.
use serde_json::Value;
use vstd::prelude::*;

verus! {

#[verifier::external_type_specification]
#[verifier::external_body]
pub struct ExValue(serde_json::Value);

/// Whether a JSON value is an object.
pub uninterp spec fn json_is_object(value: Value) -> bool;

/// The members of a JSON object by name: whether each is null, and its text where it is a
/// string. A value that is no object has no members.
pub uninterp spec fn json_members(value: Value) -> Map<Seq<char>, (bool, Option<Seq<char>>)>;

/// One member of a JSON object.
#[derive(Debug, PartialEq, Eq)]
pub struct JsonMember {
    pub is_null: bool,
    /// The text of a string member.
    pub text: Option<String>,
}

impl JsonMember {
    pub open spec fn facts(self) -> (bool, Option<Seq<char>>) {
        (
            self.is_null,
            match self.text {
                Some(text) => Some(text@),
                None => None,
            },
        )
    }
}

/// `Value::is_object`.
#[verifier::external_body]
pub(crate) fn is_json_object(value: &Value) -> (is_object: bool)
    ensures
        is_object == json_is_object(*value),
{
    value.is_object()
}

/// `Value::get` with a name: the member of an object, if it is there, seen through
/// `Value::is_null` and `Value::as_str`.
#[verifier::external_body]
pub(crate) fn json_member(value: &Value, name: &str) -> (found: Option<JsonMember>)
    ensures
        match found {
            Some(member) => json_members(*value).dom().contains(name@) && json_members(
                *value,
            )[name@] == member.facts(),
            None => !json_members(*value).dom().contains(name@),
        },
{
    value.get(name).map(|member| JsonMember {
        is_null: member.is_null(),
        text: member.as_str().map(String::from),
    })
}

} // verus!
