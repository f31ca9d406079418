//! JSON documents, read one level at a time.
//!
//! The settings of a run are shallow: a list of strings under a name, an
//! object of scalars, a list of small objects. A document is therefore read
//! to the depth of one value. What an array or an object holds is kept as
//! JSON text, and read in its turn where a setting looks into it.

use serde_json::Value;
use vstd::prelude::*;

verus! {

/// A JSON value, to the depth of one level.
///
/// A number is held as the text that JSON writes it with, and each value
/// inside an array or an object as the JSON text of that value. The members
/// of an object stand in the order in which the parser hands them out.
#[derive(Clone, Debug, PartialEq, Eq)]
pub enum Json {
    Null,
    Bool(bool),
    Number(String),
    Text(String),
    Array(Vec<String>),
    Object(Vec<Member>),
}

/// A member of a JSON object: its name, and its value as JSON text.
#[derive(Clone, Debug, PartialEq, Eq)]
pub struct Member {
    pub name: String,
    pub value: String,
}

/// What `serde_json::from_str` makes of `text`, to the depth of one level:
/// the value, or the message of the error that the parser stops with.
pub uninterp spec fn json_document(text: Seq<char>) -> Result<Json, Seq<char>>;

/// Parses `text` with `serde_json::from_str` into a `serde_json::Value` and
/// hands out its top level: a scalar as it is, a number and each value
/// inside an array or an object as the text that its `Display` writes.
///
/// Trusted: the result is a function of the text alone, so it has the name
/// [`json_document`]. Nothing else is claimed of it. The parser returns an
/// error for every text that is no JSON document; it does not panic.
#[verifier::external_body]
pub(crate) fn parse_json(text: &str) -> (document: Result<Json, String>)
    ensures
        match document {
            Ok(json) => json_document(text@) == Ok::<Json, Seq<char>>(json),
            Err(cause) => json_document(text@) == Err::<Json, Seq<char>>(cause@),
        },
{
    let value: Value = serde_json::from_str(text).map_err(|e| e.to_string())?;
    Ok(match value {
        Value::Null => Json::Null,
        Value::Bool(b) => Json::Bool(b),
        Value::Number(n) => Json::Number(n.to_string()),
        Value::String(s) => Json::Text(s),
        Value::Array(a) => Json::Array(a.iter().map(Value::to_string).collect()),
        Value::Object(o) => Json::Object(
            o.into_iter().map(|(name, v)| Member { name, value: v.to_string() }).collect(),
        ),
    })
}

/// The index of the first member called `name`; `members.len()` if there is none.
pub open spec fn member_position(members: Seq<Member>, name: Seq<char>) -> int
    decreases members.len(),
{
    if members.len() == 0 {
        0
    } else if members[0].name@ == name {
        0
    } else {
        1 + member_position(members.skip(1), name)
    }
}

/// The value, as JSON text, of the first member called `name`, if there is one.
pub open spec fn spec_member(members: Seq<Member>, name: Seq<char>) -> Option<Seq<char>> {
    if member_position(members, name) < members.len() {
        Some(members[member_position(members, name)].value@)
    } else {
        None
    }
}

/// `member_position` is the least index at which a member called `name` stands.
pub proof fn lemma_member_position(members: Seq<Member>, name: Seq<char>)
    ensures
        0 <= member_position(members, name) <= members.len(),
        member_position(members, name) < members.len() ==> members[member_position(
            members,
            name,
        )].name@ == name,
        forall|i: int|
            0 <= i < member_position(members, name) ==> (#[trigger] members[i]).name@ != name,
    decreases members.len(),
{
    if members.len() > 0 && members[0].name@ != name {
        let rest = members.skip(1);
        lemma_member_position(rest, name);
        assert forall|i: int| 0 <= i < member_position(members, name) implies (
        #[trigger] members[i]).name@ != name by {
            if i > 0 {
                assert(rest[i - 1] == members[i]);
            }
        }
    }
}

/// The value, as JSON text, of the first member of `members` that is called
/// `name`, if there is one.
pub fn member<'a>(members: &'a Vec<Member>, name: &str) -> (value: Option<&'a String>)
    ensures
        match value {
            Some(text) => spec_member(members@, name@) == Some(text@),
            None => spec_member(members@, name@) is None,
        },
{
    let mut at: usize = 0;
    let mut found = false;
    let wanted = name.to_owned();
    while at < members.len() && !found
        invariant
            at <= members@.len(),
            wanted@ == name@,
            forall|i: int| 0 <= i < at ==> (#[trigger] members@[i]).name@ != name@,
            found ==> at < members@.len() && members@[at as int].name@ == name@,
        decreases members@.len() - at + (if found { 0int } else { 1int }),
    {
        if members[at].name == wanted {
            found = true;
        } else {
            at += 1;
        }
    }
    proof {
        lemma_member_position(members@, name@);
    }
    if at < members.len() {
        Some(&members[at].value)
    } else {
        None
    }
}

/// The text of a JSON string.
pub open spec fn spec_text(json: Json) -> Option<Seq<char>> {
    match json {
        Json::Text(s) => Some(s@),
        _ => None,
    }
}

impl Json {
    /// The text of this value, if it is a string.
    pub fn text(&self) -> (text: Option<&String>)
        ensures
            match text {
                Some(s) => spec_text(*self) == Some(s@),
                None => spec_text(*self) is None,
            },
    {
        match self {
            Json::Text(s) => Some(s),
            _ => None,
        }
    }
}

} // verus!
