//! JSON documents as the crate reads them, and the parser that makes them.

use vstd::prelude::*;

verus! {

/// A JSON document.
#[derive(Debug, PartialEq, Eq)]
pub enum Json {
    Null,
    Bool(bool),
    /// A number, in the digits the parser prints it with.
    Number(String),
    Text(String),
    Array(Vec<Json>),
    /// The members of an object, in the order in which the parser's map
    /// holds them.
    Object(Vec<Member>),
}

/// One member of a JSON object.
#[derive(Debug, PartialEq, Eq)]
pub struct Member {
    pub key: String,
    pub value: Json,
}

/// A JSON document as a mathematical value.
pub enum JsonView {
    Null,
    Bool(bool),
    Number(Seq<char>),
    Text(Seq<char>),
    Array(Seq<JsonView>),
    Object(Seq<(Seq<char>, JsonView)>),
}

impl View for Json {
    type V = JsonView;

    open spec fn view(&self) -> JsonView {
        document(*self)
    }
}

/// The document that `j` holds.
pub open spec fn document(j: Json) -> JsonView
    decreases j,
{
    match j {
        Json::Null => JsonView::Null,
        Json::Bool(b) => JsonView::Bool(b),
        Json::Number(n) => JsonView::Number(n@),
        Json::Text(t) => JsonView::Text(t@),
        Json::Array(items) => JsonView::Array(documents(items@)),
        Json::Object(members) => JsonView::Object(member_documents(members@)),
    }
}

/// The documents that `items` hold, one by one.
pub open spec fn documents(items: Seq<Json>) -> Seq<JsonView>
    decreases items,
{
    if items.len() == 0 {
        Seq::empty()
    } else {
        documents(items.drop_last()).push(document(items.last()))
    }
}

/// The keys and documents that `members` hold, one by one.
pub open spec fn member_documents(members: Seq<Member>) -> Seq<(Seq<char>, JsonView)>
    decreases members,
{
    if members.len() == 0 {
        Seq::empty()
    } else {
        member_documents(members.drop_last()).push(
            (members.last().key@, document(members.last().value)),
        )
    }
}

/// The documents of a list are the documents of its items, one for one.
pub proof fn lemma_documents(items: Seq<Json>)
    ensures
        documents(items).len() == items.len(),
        forall|i: int| 0 <= i < items.len() ==> #[trigger] documents(items)[i] == items[i]@,
    decreases items.len(),
{
    if items.len() > 0 {
        lemma_documents(items.drop_last());
    }
}

/// The members of an object keep their keys and hold the documents of
/// their values, one for one.
pub proof fn lemma_member_documents(members: Seq<Member>)
    ensures
        member_documents(members).len() == members.len(),
        forall|i: int|
            0 <= i < members.len() ==> #[trigger] member_documents(members)[i] == (
                members[i].key@,
                members[i].value@,
            ),
    decreases members.len(),
{
    if members.len() > 0 {
        lemma_member_documents(members.drop_last());
    }
}

/// The value of the first of `members` whose key is `key`.
pub open spec fn find_member(members: Seq<(Seq<char>, JsonView)>, key: Seq<char>) -> Option<
    JsonView,
>
    decreases members.len(),
{
    if members.len() == 0 {
        None
    } else if members[0].0 == key {
        Some(members[0].1)
    } else {
        find_member(members.drop_first(), key)
    }
}

impl JsonView {
    /// The member `key` of an object; nothing for any other document and
    /// for an object without that member.
    pub open spec fn get(self, key: Seq<char>) -> Option<JsonView> {
        match self {
            JsonView::Object(members) => find_member(members, key),
            _ => None,
        }
    }

    /// The text of a string document.
    pub open spec fn as_text(self) -> Option<Seq<char>> {
        match self {
            JsonView::Text(t) => Some(t),
            _ => None,
        }
    }

    /// The text of the member `key`, when there is one and it is a string.
    pub open spec fn text_at(self, key: Seq<char>) -> Option<Seq<char>> {
        match self.get(key) {
            Some(v) => v.as_text(),
            None => None,
        }
    }

    /// The members of an object; none for any other document.
    pub open spec fn members(self) -> Seq<(Seq<char>, JsonView)> {
        match self {
            JsonView::Object(members) => members,
            _ => Seq::empty(),
        }
    }
}

impl Json {
    /// The member `key` of an object.
    pub fn get(&self, key: &str) -> (r: Option<&Json>)
        ensures
            match r {
                Some(v) => self@.get(key@) == Some(v@),
                None => self@.get(key@) is None,
            },
    {
        match self {
            Json::Object(members) => {
                let wanted = key.to_string();
                let ghost all = self@->Object_0;
                let mut i: usize = 0;
                proof {
                    lemma_member_documents(members@);
                }
                assert(all.skip(0) =~= all);
                while i < members.len()
                    invariant
                        i <= members.len(),
                        self@ == JsonView::Object(all),
                        all.len() == members.len(),
                        forall|k: int|
                            0 <= k < members.len() ==> #[trigger] all[k] == (
                                members[k].key@,
                                members[k].value@,
                            ),
                        find_member(all, key@) == find_member(all.skip(i as int), key@),
                        wanted@ == key@,
                    decreases members.len() - i,
                {
                    let ghost rest = all.skip(i as int);
                    assert(rest[0] == all[i as int]);
                    if members[i].key == wanted {
                        return Some(&members[i].value);
                    }
                    assert(rest.drop_first() =~= all.skip(i + 1));
                    i += 1;
                }
                None
            },
            _ => None,
        }
    }

    /// The text of a string document.
    pub fn as_text(&self) -> (r: Option<&String>)
        ensures
            match r {
                Some(t) => self@.as_text() == Some(t@),
                None => self@.as_text() is None,
            },
    {
        match self {
            Json::Text(t) => Some(t),
            _ => None,
        }
    }

    /// The text of the member `key`, when there is one and it is a string.
    pub fn text_at(&self, key: &str) -> (r: Option<&String>)
        ensures
            match r {
                Some(t) => self@.text_at(key@) == Some(t@),
                None => self@.text_at(key@) is None,
            },
    {
        match self.get(key) {
            Some(v) => v.as_text(),
            None => None,
        }
    }
}

/// What `serde_json::from_str::<serde_json::Value>` makes of a text: the
/// document it holds, or the parser's message on why it holds none.
pub uninterp spec fn json_text(text: Seq<char>) -> Result<JsonView, Seq<char>>;

/// The document that a `serde_json::Value` holds. An object's members
/// come in the order in which the value's map holds them, a number as the
/// text that `serde_json::Number` displays.
pub uninterp spec fn value_document(value: serde_json::Value) -> JsonView;

/// `serde_json::Value`, the parser's own form of a document.
#[verifier::external_type_specification]
#[verifier::external_body]
pub struct ExValue(serde_json::Value);

/// Calls `serde_json::from_str::<serde_json::Value>` on `text`. The parser
/// accepts exactly one JSON value with nothing but white space around it;
/// what it returns depends on the text alone, which [`json_text`] names. An
/// error is handed back as the text it displays.
#[verifier::external_body]
fn decode(text: &str) -> (r: Result<serde_json::Value, String>)
    ensures
        match r {
            Ok(value) => json_text(text@) == Ok::<JsonView, Seq<char>>(value_document(value)),
            Err(why) => json_text(text@) == Err::<JsonView, Seq<char>>(why@),
        },
{
    match serde_json::from_str::<serde_json::Value>(text) {
        Ok(value) => Ok(value),
        Err(e) => Err(e.to_string()),
    }
}

/// Copies a `serde_json::Value` into a [`Json`], variant by variant; a
/// number is kept as the text that `serde_json::Number` displays.
#[verifier::external_body]
fn lift(value: &serde_json::Value) -> (doc: Json)
    ensures
        doc@ == value_document(*value),
{
    match value {
        serde_json::Value::Null => Json::Null,
        serde_json::Value::Bool(b) => Json::Bool(*b),
        serde_json::Value::Number(n) => Json::Number(n.to_string()),
        serde_json::Value::String(s) => Json::Text(s.clone()),
        serde_json::Value::Array(items) => Json::Array(items.iter().map(lift).collect()),
        serde_json::Value::Object(map) => Json::Object(
            map.iter().map(|(k, v)| Member { key: k.clone(), value: lift(v) }).collect(),
        ),
    }
}

/// Reads `text` as one JSON document.
pub fn parse(text: &str) -> (r: Result<Json, String>)
    ensures
        match r {
            Ok(doc) => json_text(text@) == Ok::<JsonView, Seq<char>>(doc@),
            Err(why) => json_text(text@) == Err::<JsonView, Seq<char>>(why@),
        },
{
    match decode(text) {
        Ok(value) => Ok(lift(&value)),
        Err(why) => Err(why),
    }
}

} // verus!
