//! JSON documents, as far as the companion reads them.

use vstd::prelude::*;
use vstd::string::*;

use crate::text;

verus! {

/// `serde_json::Value`, a JSON document as the parser hands it over.
#[verifier::external_type_specification]
#[verifier::external_body]
pub struct ExValue(serde_json::Value);

/// What a `serde_json::Value` holds: its contents as a tree. An object lists its members in the
/// order in which the parser's map walks them; a number is kept by its notation and by the `u64`
/// that it is, if it is one.
pub uninterp spec fn value_tree(value: serde_json::Value) -> JsonTree;

/// The compact notation of a document, or the text of the error.
pub uninterp spec fn compact_text(document: JsonTree) -> Result<Seq<char>, Seq<char>>;

/// What the parser makes of a text: a tree, or the text of an error.
pub uninterp spec fn parsed_document(text: Seq<char>) -> Result<JsonTree, Seq<char>>;

/// `serde_json::from_str` into a `serde_json::Value`: whether a text is a JSON document, and
/// which one, depends on the text alone.
#[verifier::external_body]
pub(crate) fn parse_value(text: &str) -> (r: Result<serde_json::Value, String>)
    ensures
        match r {
            Ok(value) => parsed_document(text@) == Ok::<JsonTree, Seq<char>>(value_tree(value)),
            Err(message) => parsed_document(text@) == Err::<JsonTree, Seq<char>>(message@),
        },
{
    serde_json::from_str::<serde_json::Value>(text).map_err(|error| error.to_string())
}

/// Reads a `serde_json::Value` member by member: the result has the contents of the value.
#[verifier::external_body]
pub(crate) fn json_of(value: &serde_json::Value) -> (r: Json)
    ensures
        r@ == value_tree(*value),
{
    match value {
        serde_json::Value::Null => Json::Null,
        serde_json::Value::Bool(flag) => Json::Bool(*flag),
        serde_json::Value::Number(n) => Json::Number(n.as_u64(), n.to_string()),
        serde_json::Value::String(text) => Json::Text(text.clone()),
        serde_json::Value::Array(items) => Json::Array(items.iter().map(json_of).collect()),
        serde_json::Value::Object(fields) => {
            Json::Object(fields.iter().map(|(name, item)| (name.clone(), json_of(item))).collect())
        }
    }
}

/// `serde_json::to_string` of a `serde_json::Value`: its compact notation depends on what the value
/// holds alone. It is one line: control characters in strings are written as escapes.
#[verifier::external_body]
pub(crate) fn write_value(value: &serde_json::Value) -> (r: Result<String, String>)
    ensures
        match r {
            Ok(line) => compact_text(value_tree(*value)) == Ok::<Seq<char>, Seq<char>>(line@)
                && text::one_line(line@),
            Err(message) => compact_text(value_tree(*value)) == Err::<Seq<char>, Seq<char>>(message@),
        },
{
    serde_json::to_string(value).map_err(|error| error.to_string())
}

/// The compact notation of an object with members of text.
pub uninterp spec fn object_text(members: Seq<(Seq<char>, Seq<char>)>) -> Seq<char>;

/// The views of some members of text.
pub open spec fn member_views(members: Seq<(String, String)>) -> Seq<(Seq<char>, Seq<char>)> {
    members.map_values(|m: (String, String)| (m.0@, m.1@))
}

/// Whether no two members have the same name.
pub open spec fn distinct_names(members: Seq<(Seq<char>, Seq<char>)>) -> bool {
    forall|i: int, j: int|
        0 <= i < j < members.len() ==> (#[trigger] members[i]).0 != (#[trigger] members[j]).0
}

/// `serde_json::Map` collected from members of text, and written with `Value::to_string`: the
/// compact notation of the object depends on the members alone. Read back, it is an object; where
/// no two members have the same name, it has each of them.
#[verifier::external_body]
pub(crate) fn write_object(members: Vec<(String, String)>) -> (r: String)
    ensures
        r@ == object_text(member_views(members@)),
        distinct_names(member_views(members@)) ==> parsed_document(r@) is Ok && forall|i: int|
            0 <= i < members@.len() ==> text_member(
                parsed_document(r@)->Ok_0,
                (#[trigger] members@[i]).0@,
            ) == Some(members@[i].1@),
{
    let object: serde_json::Map<String, serde_json::Value> =
        members.into_iter().map(|(name, text)| (name, serde_json::Value::String(text))).collect();
    serde_json::Value::Object(object).to_string()
}

/// A JSON value.
pub enum Json {
    Null,
    Bool(bool),
    /// A number, by the `u64` that it is, if it is one, and by its notation.
    Number(Option<u64>, String),
    Text(String),
    Array(Vec<Json>),
    Object(Vec<(String, Json)>),
}

/// The mathematical view of a [`Json`].
pub enum JsonTree {
    Null,
    Bool(bool),
    Number(Option<u64>, Seq<char>),
    Text(Seq<char>),
    Array(Seq<JsonTree>),
    Object(Seq<(Seq<char>, JsonTree)>),
}

impl Json {
    /// The mathematical view.
    pub open spec fn view(&self) -> JsonTree
        decreases self,
    {
        match self {
            Json::Null => JsonTree::Null,
            Json::Bool(b) => JsonTree::Bool(*b),
            Json::Number(n, notation) => JsonTree::Number(*n, notation@),
            Json::Text(s) => JsonTree::Text(s@),
            Json::Array(items) => JsonTree::Array(
                Seq::new(
                    items@.len(),
                    |i: int|
                        if 0 <= i < items@.len() {
                            items@[i].view()
                        } else {
                            JsonTree::Null
                        },
                ),
            ),
            Json::Object(fields) => JsonTree::Object(
                Seq::new(
                    fields@.len(),
                    |i: int|
                        if 0 <= i < fields@.len() {
                            (fields@[i].0@, fields@[i].1.view())
                        } else {
                            (seq![], JsonTree::Null)
                        },
                ),
            ),
        }
    }
}

/// Where the member `name` stands first in a list of members.
pub open spec fn member_index(fields: Seq<(Seq<char>, JsonTree)>, name: Seq<char>) -> Option<nat>
    decreases fields.len(),
{
    if fields.len() == 0 {
        None
    } else if fields[0].0 == name {
        Some(0)
    } else {
        match member_index(fields.drop_first(), name) {
            Some(i) => Some(i + 1),
            None => None,
        }
    }
}

/// The member `name` of an object; nothing if there is none, or if the value is no object.
pub open spec fn member(tree: JsonTree, name: Seq<char>) -> Option<JsonTree> {
    match tree {
        JsonTree::Object(fields) => match member_index(fields, name) {
            Some(i) => Some(fields[i as int].1),
            None => None,
        },
        _ => None,
    }
}

/// The text of a JSON string.
pub open spec fn text_of(tree: JsonTree) -> Option<Seq<char>> {
    match tree {
        JsonTree::Text(s) => Some(s),
        _ => None,
    }
}

/// The text of the member `name`, if it is a string.
pub open spec fn text_member(tree: JsonTree, name: Seq<char>) -> Option<Seq<char>> {
    match member(tree, name) {
        Some(value) => text_of(value),
        None => None,
    }
}

/// The view of an optional value.
pub open spec fn opt_tree(value: Option<&Json>) -> Option<JsonTree> {
    match value {
        Some(value) => Some(value@),
        None => None,
    }
}

impl Json {
    /// The JSON document that a text holds, or the text of the error.
    pub fn parse(text: &str) -> (r: Result<Json, String>)
        ensures
            match r {
                Ok(value) => parsed_document(text@) == Ok::<JsonTree, Seq<char>>(value@),
                Err(message) => parsed_document(text@) == Err::<JsonTree, Seq<char>>(message@),
            },
    {
        match parse_value(text) {
            Ok(value) => Ok(json_of(&value)),
            Err(message) => Err(message),
        }
    }

    /// The member `name` of an object.
    pub fn get(&self, name: &str) -> (r: Option<&Json>)
        ensures
            opt_tree(r) == member(self@, name@),
            match r {
                Some(value) => decreases_to!(*self => *value),
                None => true,
            },
    {
        match self {
            Json::Object(fields) => {
                let ghost all = match self@ {
                    JsonTree::Object(f) => f,
                    _ => seq![],
                };
                let mut i: usize = 0;
                proof {
                    assert(all.skip(0) =~= all);
                }
                while i < fields.len()
                    invariant
                        i <= fields@.len(),
                        all.len() == fields@.len(),
                        *self == Json::Object(*fields),
                        self@ == JsonTree::Object(all),
                        forall|j: int|
                            0 <= j < all.len() ==> all[j] == (
                                (#[trigger] fields@[j]).0@,
                                fields@[j].1@,
                            ),
                        member_index(all, name@) == match member_index(
                            all.skip(i as int),
                            name@,
                        ) {
                            Some(k) => Some((k + i) as nat),
                            None => None,
                        },
                    decreases fields@.len() - i,
                {
                    proof {
                        assert(all.skip(i as int).drop_first() =~= all.skip(i + 1));
                        assert(all.skip(i as int)[0] == all[i as int]);
                        assert(all[i as int] == (fields@[i as int].0@, fields@[i as int].1@));
                    }
                    if text::same_text(fields[i].0.as_str(), name) {
                        proof {
                            assert(decreases_to!(*self => *fields));
                            assert(decreases_to!(*fields => fields@));
                            assert(decreases_to!(fields@ => fields@[i as int]));
                            assert(decreases_to!(fields@[i as int] => fields@[i as int].1));
                        }
                        return Some(&fields[i].1);
                    }
                    i += 1;
                }
                None
            },
            _ => None,
        }
    }

    /// The text of a JSON string.
    pub fn as_str(&self) -> (r: Option<&str>)
        ensures
            text::opt_str_view(r) == text_of(self@),
    {
        match self {
            Json::Text(s) => Some(s.as_str()),
            _ => None,
        }
    }

    /// The text of the member `name`, if it is a string.
    pub fn get_str(&self, name: &str) -> (r: Option<&str>)
        ensures
            text::opt_str_view(r) == text_member(self@, name@),
    {
        match self.get(name) {
            Some(value) => value.as_str(),
            None => None,
        }
    }

    /// The flag that a JSON value is.
    pub fn as_bool(&self) -> (r: Option<bool>)
        ensures
            r == match self@ {
                JsonTree::Bool(b) => Some(b),
                _ => None,
            },
    {
        match self {
            Json::Bool(b) => Some(*b),
            _ => None,
        }
    }

    /// The `u64` that a JSON value is.
    pub fn as_u64(&self) -> (r: Option<u64>)
        ensures
            r == match self@ {
                JsonTree::Number(n, _) => n,
                _ => None,
            },
    {
        match self {
            Json::Number(n, _) => *n,
            _ => None,
        }
    }
}

/// A member of an object is the value that stands first under its name; there is none where the name
/// does not occur, or the value is no object.
pub proof fn members_are_found_by_name(fields: Seq<(Seq<char>, JsonTree)>, name: Seq<char>, k: int)
    requires
        0 <= k < fields.len(),
        fields[k].0 == name,
        forall|j: int| 0 <= j < k ==> (#[trigger] fields[j]).0 != name,
    ensures
        member(JsonTree::Object(fields), name) == Some(fields[k].1),
        fields[k].1 matches JsonTree::Text(s) ==> text_member(JsonTree::Object(fields), name)
            == Some(s),
        !(fields[k].1 is Text) ==> text_member(JsonTree::Object(fields), name) is None,
{
    index_is(fields, name, k);
}

proof fn index_is(fields: Seq<(Seq<char>, JsonTree)>, name: Seq<char>, k: int)
    requires
        0 <= k < fields.len(),
        fields[k].0 == name,
        forall|j: int| 0 <= j < k ==> (#[trigger] fields[j]).0 != name,
    ensures
        member_index(fields, name) == Some(k as nat),
    decreases fields.len(),
{
    if k > 0 {
        assert(fields[0].0 != name);
        let rest = fields.drop_first();
        assert forall|j: int| 0 <= j < k - 1 implies (#[trigger] rest[j]).0 != name by {
            assert(rest[j] == fields[j + 1]);
        }
        index_is(rest, name, k - 1);
    }
}

/// Where no member has a name, there is none of that name.
pub proof fn missing_members_are_not_found(
    fields: Seq<(Seq<char>, JsonTree)>,
    tree: JsonTree,
    name: Seq<char>,
)
    ensures
        (forall|j: int| 0 <= j < fields.len() ==> (#[trigger] fields[j]).0 != name) ==> member(
            JsonTree::Object(fields),
            name,
        ) is None,
        !(tree is Object) ==> member(tree, name) is None && text_member(tree, name) is None,
    decreases fields.len(),
{
    if fields.len() > 0 && forall|j: int| 0 <= j < fields.len() ==> (#[trigger] fields[j]).0 != name {
        let rest = fields.drop_first();
        assert forall|j: int| 0 <= j < rest.len() implies (#[trigger] rest[j]).0 != name by {
            assert(rest[j] == fields[j + 1]);
        }
        missing_members_are_not_found(rest, tree, name);
        assert(fields[0].0 != name);
    }
}

} // verus!
