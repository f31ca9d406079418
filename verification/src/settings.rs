//! What the settings of a run say: the commands of a script, its
//! environment, and the file mapping of a transfer.

use crate::error::{ConfigError, ConfigErrorView};
use crate::json::{json_document, member, parse_json, spec_member, spec_text, Json, Member};
use crate::pairs::{spec_insert, OrderedMap, Pair};
use crate::text::texts;
use vstd::prelude::*;

verus! {

/// The texts of `values`, if every one of them is a string.
pub open spec fn spec_strings(values: Seq<Json>) -> Option<Seq<Seq<char>>> {
    if forall|i: int| 0 <= i < values.len() ==> spec_text(#[trigger] values[i]) is Some {
        Some(Seq::new(values.len(), |i: int| spec_text(values[i])->0))
    } else {
        None
    }
}

/// The texts of `values`, if every one of them is a string.
pub fn strings_of(values: &Vec<Json>) -> (strings: Option<Vec<String>>)
    ensures
        match strings {
            Some(list) => spec_strings(values@) == Some(texts(list@)),
            None => spec_strings(values@) is None,
        },
{
    let mut list: Vec<String> = Vec::new();
    let mut i: usize = 0;
    while i < values.len()
        invariant
            i <= values@.len(),
            list@.len() == i,
            forall|j: int| 0 <= j < i ==> spec_text(#[trigger] values@[j]) == Some(list@[j]@),
        decreases values@.len() - i,
    {
        match values[i].text() {
            Some(s) => {
                list.push(s.clone());
            },
            None => {
                return None;
            },
        }
        i += 1;
    }
    Some(list)
}

/// The value of a variable of the environment: a string as it is, a number
/// or a truth value as JSON writes it, and the empty text for anything else.
pub open spec fn spec_variable_value(json: Json) -> Seq<char> {
    match json {
        Json::Text(s) => s@,
        Json::Number(n) => n@,
        Json::Bool(b) => if b {
            "true"@
        } else {
            "false"@
        },
        _ => Seq::empty(),
    }
}

/// The value of a variable of the environment.
pub fn variable_value(json: &Json) -> (value: String)
    ensures
        value@ == spec_variable_value(*json),
{
    match json {
        Json::Text(s) => s.clone(),
        Json::Number(n) => n.clone(),
        Json::Bool(b) => if *b {
            String::from_str("true")
        } else {
            String::from_str("false")
        },
        _ => String::new(),
    }
}

/// The pair that a source and a destination make, if both are strings.
pub open spec fn spec_pair(source: Json, destination: Json) -> Option<Pair> {
    match (spec_text(source), spec_text(destination)) {
        (Some(s), Some(d)) => Some((s, d)),
        _ => None,
    }
}

/// The pair that a source and a destination make, if both are strings.
pub fn pair_of(source: &Json, destination: &Json) -> (pair: Option<(String, String)>)
    ensures
        match pair {
            Some(p) => spec_pair(*source, *destination) == Some((p.0@, p.1@)),
            None => spec_pair(*source, *destination) is None,
        },
{
    match (source.text(), destination.text()) {
        (Some(s), Some(d)) => Some((s.clone(), d.clone())),
        _ => None,
    }
}

/// The values that the JSON texts in `items` hold, or the message of the
/// first of them that is no JSON.
pub open spec fn spec_values(items: Seq<Seq<char>>) -> Result<Seq<Json>, Seq<char>>
    decreases items.len(),
{
    if items.len() == 0 {
        Ok(Seq::empty())
    } else {
        match spec_values(items.drop_last()) {
            Err(cause) => Err(cause),
            Ok(values) => match json_document(items.last()) {
                Ok(value) => Ok(values.push(value)),
                Err(cause) => Err(cause),
            },
        }
    }
}

/// Once a text is no JSON, the list is none, whatever follows.
proof fn lemma_values_fault_stays(items: Seq<Seq<char>>, n: int)
    requires
        0 <= n <= items.len(),
        spec_values(items.take(n)) is Err,
    ensures
        spec_values(items) == spec_values(items.take(n)),
    decreases items.len(),
{
    if n < items.len() {
        assert(items.drop_last().take(n) =~= items.take(n));
        lemma_values_fault_stays(items.drop_last(), n);
    } else {
        assert(items.take(n) =~= items);
    }
}

/// The values that the JSON texts in `items` hold.
#[verifier::loop_isolation(false)]
pub fn values_of(items: &Vec<String>) -> (values: Result<Vec<Json>, String>)
    ensures
        match values {
            Ok(list) => spec_values(texts(items@)) == Ok::<Seq<Json>, Seq<char>>(list@),
            Err(cause) => spec_values(texts(items@)) == Err::<Seq<Json>, Seq<char>>(cause@),
        },
{
    let mut list: Vec<Json> = Vec::new();
    let mut i: usize = 0;
    let ghost all = texts(items@);
    while i < items.len()
        invariant
            i <= items@.len(),
            spec_values(all.take(i as int)) == Ok::<Seq<Json>, Seq<char>>(list@),
        decreases items@.len() - i,
    {
        assert(all.take(i + 1).drop_last() =~= all.take(i as int));
        match parse_json(items[i].as_str()) {
            Ok(value) => {
                list.push(value);
            },
            Err(cause) => {
                proof {
                    lemma_values_fault_stays(all, i + 1);
                }
                return Err(cause);
            },
        }
        i += 1;
    }
    assert(all.take(items@.len() as int) =~= all);
    Ok(list)
}

/// The commands that the JSON text `list` holds: the strings of the array
/// that it is.
pub open spec fn spec_command_list(list: Seq<char>) -> Result<Seq<Seq<char>>, ConfigErrorView> {
    match json_document(list) {
        Ok(Json::Array(items)) => match spec_values(texts(items@)) {
            Ok(values) => match spec_strings(values) {
                Some(commands) => Ok(commands),
                None => Err(ConfigErrorView::Malformed { cause: "a command is not a string"@ }),
            },
            Err(cause) => Err(ConfigErrorView::Malformed { cause }),
        },
        Ok(_) => Err(ConfigErrorView::Malformed { cause: "commands is not an array"@ }),
        Err(cause) => Err(ConfigErrorView::Malformed { cause }),
    }
}

/// The commands of a script: the strings of the array that the object
/// `document` holds under `commands`.
pub open spec fn spec_commands(document: Json) -> Result<Seq<Seq<char>>, ConfigErrorView> {
    match document {
        Json::Object(members) => match spec_member(members@, "commands"@) {
            None => Err(ConfigErrorView::MissingCommands),
            Some(list) => spec_command_list(list),
        },
        _ => Err(ConfigErrorView::Malformed { cause: "the script is not an object"@ }),
    }
}

/// The commands of a script.
pub fn commands_from(document: &Json) -> (commands: Result<Vec<String>, ConfigError>)
    ensures
        match commands {
            Ok(list) => spec_commands(*document) == Ok::<Seq<Seq<char>>, ConfigErrorView>(
                texts(list@),
            ),
            Err(error) => spec_commands(*document) == Err::<Seq<Seq<char>>, ConfigErrorView>(
                error@,
            ),
        },
{
    let list = match document {
        Json::Object(members) => match member(members, "commands") {
            None => {
                return Err(ConfigError::MissingCommands);
            },
            Some(list) => list,
        },
        _ => {
            return Err(ConfigError::malformed("the script is not an object"));
        },
    };
    match parse_json(list.as_str()) {
        Ok(Json::Array(items)) => match values_of(&items) {
            Ok(values) => match strings_of(&values) {
                Some(commands) => Ok(commands),
                None => Err(ConfigError::malformed("a command is not a string")),
            },
            Err(cause) => Err(ConfigError::Malformed { cause }),
        },
        Ok(_) => Err(ConfigError::malformed("commands is not an array")),
        Err(cause) => Err(ConfigError::Malformed { cause }),
    }
}

/// The environment that the members of an object stand for, each put in
/// after those before it.
pub open spec fn spec_variables(members: Seq<Member>) -> Result<Seq<Pair>, ConfigErrorView>
    decreases members.len(),
{
    if members.len() == 0 {
        Ok(Seq::empty())
    } else {
        match spec_variables(members.drop_last()) {
            Err(error) => Err(error),
            Ok(earlier) => match json_document(members.last().value@) {
                Ok(value) => Ok(
                    spec_insert(earlier, members.last().name@, spec_variable_value(value)),
                ),
                Err(cause) => Err(ConfigErrorView::Malformed { cause }),
            },
        }
    }
}

/// Once a member is faulty, the environment is, whatever follows.
proof fn lemma_variables_fault_stays(members: Seq<Member>, n: int)
    requires
        0 <= n <= members.len(),
        spec_variables(members.take(n)) is Err,
    ensures
        spec_variables(members) == spec_variables(members.take(n)),
    decreases members.len(),
{
    if n < members.len() {
        assert(members.drop_last().take(n) =~= members.take(n));
        lemma_variables_fault_stays(members.drop_last(), n);
    } else {
        assert(members.take(n) =~= members);
    }
}

/// The environment of a script: one variable for each member of the object `document`.
pub open spec fn spec_environment(document: Json) -> Result<Seq<Pair>, ConfigErrorView> {
    match document {
        Json::Object(members) => spec_variables(members@),
        _ => Err(ConfigErrorView::Malformed { cause: "the environment is not an object"@ }),
    }
}

/// The environment of a script.
#[verifier::loop_isolation(false)]
pub fn environment_from(document: &Json) -> (environment: Result<OrderedMap, ConfigError>)
    ensures
        match environment {
            Ok(map) => spec_environment(*document) == Ok::<Seq<Pair>, ConfigErrorView>(map@),
            Err(error) => spec_environment(*document) == Err::<Seq<Pair>, ConfigErrorView>(error@),
        },
{
    match document {
        Json::Object(members) => {
            let mut map = OrderedMap::new();
            let mut i: usize = 0;
            while i < members.len()
                invariant
                    i <= members@.len(),
                    spec_variables(members@.take(i as int)) == Ok::<Seq<Pair>, ConfigErrorView>(
                        map@,
                    ),
                decreases members@.len() - i,
            {
                assert(members@.take(i + 1).drop_last() =~= members@.take(i as int));
                match parse_json(members[i].value.as_str()) {
                    Ok(value) => {
                        map = map.insert(members[i].name.clone(), variable_value(&value));
                    },
                    Err(cause) => {
                        proof {
                            lemma_variables_fault_stays(members@, i + 1);
                        }
                        return Err(ConfigError::Malformed { cause });
                    },
                }
                i += 1;
            }
            assert(members@.take(members@.len() as int) =~= members@);
            Ok(map)
        },
        _ => Err(ConfigError::malformed("the environment is not an object")),
    }
}

/// What one value of a file mapping's array says.
pub enum MappingEntry {
    /// It is no object, or an object without `src` or without `dst`: it is passed over.
    Absent,
    /// It maps `source` to `destination`.
    Present { source: Seq<char>, destination: Seq<char> },
    /// Its `src` or its `dst` is no string.
    Faulty,
}

/// What an object with `members` says as a value of a file mapping's array.
pub open spec fn spec_object_entry(members: Seq<Member>) -> MappingEntry {
    match (spec_member(members, "src"@), spec_member(members, "dst"@)) {
        (Some(source), Some(destination)) => match (
            json_document(source),
            json_document(destination),
        ) {
            (Ok(s), Ok(d)) => match spec_pair(s, d) {
                Some(pair) => MappingEntry::Present { source: pair.0, destination: pair.1 },
                None => MappingEntry::Faulty,
            },
            _ => MappingEntry::Faulty,
        },
        _ => MappingEntry::Absent,
    }
}

/// What the JSON text `item` says as a value of a file mapping's array.
pub open spec fn spec_entry(item: Seq<char>) -> MappingEntry {
    match json_document(item) {
        Ok(Json::Object(members)) => spec_object_entry(members@),
        _ => MappingEntry::Absent,
    }
}

/// The pair of an object with `members`, if it has one; whether it is faulty, if not.
fn object_entry(members: &Vec<Member>) -> (entry: Result<Option<(String, String)>, ()>)
    ensures
        match entry {
            Ok(Some(pair)) => spec_object_entry(members@) == (MappingEntry::Present {
                source: pair.0@,
                destination: pair.1@,
            }),
            Ok(None) => spec_object_entry(members@) is Absent,
            Err(_) => spec_object_entry(members@) is Faulty,
        },
{
    match (member(members, "src"), member(members, "dst")) {
        (Some(source), Some(destination)) => {
            match (parse_json(source.as_str()), parse_json(destination.as_str())) {
                (Ok(s), Ok(d)) => match pair_of(&s, &d) {
                    Some(pair) => Ok(Some(pair)),
                    None => Err(()),
                },
                _ => Err(()),
            }
        },
        _ => Ok(None),
    }
}

/// The file mapping that the JSON texts in `items` stand for, each put in
/// after those before it.
pub open spec fn spec_entries(items: Seq<Seq<char>>) -> Result<Seq<Pair>, ConfigErrorView>
    decreases items.len(),
{
    if items.len() == 0 {
        Ok(Seq::empty())
    } else {
        match spec_entries(items.drop_last()) {
            Err(error) => Err(error),
            Ok(pairs) => match spec_entry(items.last()) {
                MappingEntry::Absent => Ok(pairs),
                MappingEntry::Present { source, destination } => Ok(
                    spec_insert(pairs, source, destination),
                ),
                MappingEntry::Faulty => Err(
                    ConfigErrorView::Malformed { cause: "src and dst must be strings"@ },
                ),
            },
        }
    }
}

/// The file mapping of a transfer: the pairs of the objects in the array `document`.
pub open spec fn spec_mapping(document: Json) -> Result<Seq<Pair>, ConfigErrorView> {
    match document {
        Json::Array(items) => spec_entries(texts(items@)),
        _ => Err(ConfigErrorView::Malformed { cause: "the file list is not an array"@ }),
    }
}

/// Once a value is faulty, the mapping is, whatever follows.
proof fn lemma_entries_fault_stays(items: Seq<Seq<char>>, n: int)
    requires
        0 <= n <= items.len(),
        spec_entries(items.take(n)) is Err,
    ensures
        spec_entries(items) == spec_entries(items.take(n)),
    decreases items.len(),
{
    if n < items.len() {
        assert(items.drop_last().take(n) =~= items.take(n));
        lemma_entries_fault_stays(items.drop_last(), n);
    } else {
        assert(items.take(n) =~= items);
    }
}

/// The file mapping of a transfer.
#[verifier::loop_isolation(false)]
pub fn mapping_from(document: &Json) -> (mapping: Result<OrderedMap, ConfigError>)
    ensures
        match mapping {
            Ok(map) => spec_mapping(*document) == Ok::<Seq<Pair>, ConfigErrorView>(map@),
            Err(error) => spec_mapping(*document) == Err::<Seq<Pair>, ConfigErrorView>(error@),
        },
{
    match document {
        Json::Array(items) => {
            let mut map = OrderedMap::new();
            let mut i: usize = 0;
            let ghost all = texts(items@);
            while i < items.len()
                invariant
                    i <= items@.len(),
                    spec_entries(all.take(i as int)) == Ok::<Seq<Pair>, ConfigErrorView>(map@),
                decreases items@.len() - i,
            {
                assert(all.take(i + 1).drop_last() =~= all.take(i as int));
                match parse_json(items[i].as_str()) {
                    Ok(Json::Object(members)) => match object_entry(&members) {
                        Ok(Some(pair)) => {
                            map = map.insert(pair.0, pair.1);
                        },
                        Ok(None) => {},
                        Err(_) => {
                            proof {
                                lemma_entries_fault_stays(all, i + 1);
                            }
                            return Err(ConfigError::malformed("src and dst must be strings"));
                        },
                    },
                    _ => {},
                }
                i += 1;
            }
            assert(all.take(items@.len() as int) =~= all);
            Ok(map)
        },
        _ => Err(ConfigError::malformed("the file list is not an array")),
    }
}

} // verus!
