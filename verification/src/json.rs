use vstd::prelude::*;

verus! {

/// A JSON document as a mathematical value.
///
/// Numbers are kept as the text that denotes them; an object is the sequence
/// of its members.
pub enum JsonValue {
    Null,
    Bool(bool),
    Number(Seq<char>),
    Text(Seq<char>),
    Array(Seq<JsonValue>),
    Object(Seq<MemberValue>),
}

/// One named member of an object, as a mathematical value.
pub struct MemberValue {
    pub name: Seq<char>,
    pub value: JsonValue,
}

/// A JSON document held in memory.
#[derive(Debug, PartialEq, Eq)]
pub enum Json {
    Null,
    Bool(bool),
    Number(String),
    Text(String),
    Array(Vec<Json>),
    Object(Vec<Member>),
}

/// One named member of an object.
#[derive(Debug, PartialEq, Eq)]
pub struct Member {
    pub name: String,
    pub value: Json,
}

impl View for Json {
    type V = JsonValue;

    open spec fn view(&self) -> JsonValue
        decreases self,
    {
        match self {
            Json::Null => JsonValue::Null,
            Json::Bool(b) => JsonValue::Bool(*b),
            Json::Number(n) => JsonValue::Number(n@),
            Json::Text(s) => JsonValue::Text(s@),
            Json::Array(items) => JsonValue::Array(
                Seq::new(
                    items@.len(),
                    |i: int|
                        if 0 <= i < items@.len() {
                            items@[i].view()
                        } else {
                            JsonValue::Null
                        },
                ),
            ),
            Json::Object(members) => JsonValue::Object(
                Seq::new(
                    members@.len(),
                    |i: int|
                        if 0 <= i < members@.len() {
                            members@[i].view()
                        } else {
                            MemberValue { name: Seq::empty(), value: JsonValue::Null }
                        },
                ),
            ),
        }
    }
}


impl View for Member {
    type V = MemberValue;

    open spec fn view(&self) -> MemberValue
        decreases self,
    {
        MemberValue { name: self.name@, value: self.value.view() }
    }
}

impl JsonValue {
    /// The value of the first member named `key`, when this is an object
    /// that has one.
    pub open spec fn field(self, key: Seq<char>) -> Option<JsonValue> {
        match self {
            JsonValue::Object(members) => first_member(members, key),
            _ => None,
        }
    }

    /// The characters of a string value.
    pub open spec fn text(self) -> Option<Seq<char>> {
        match self {
            JsonValue::Text(s) => Some(s),
            _ => None,
        }
    }

    /// The elements of an array value.
    pub open spec fn items(self) -> Option<Seq<JsonValue>> {
        match self {
            JsonValue::Array(items) => Some(items),
            _ => None,
        }
    }
}

/// The value of the first of `members` whose name is `key`.
pub open spec fn first_member(members: Seq<MemberValue>, key: Seq<char>) -> Option<JsonValue>
    decreases members.len(),
{
    if members.len() == 0 {
        None
    } else if members[0].name == key {
        Some(members[0].value)
    } else {
        first_member(members.skip(1), key)
    }
}

/// The values of the elements of an array.
pub open spec fn items_view(items: Seq<Json>) -> Seq<JsonValue> {
    Seq::new(items.len(), |i: int| items[i]@)
}

/// The names and values of the members of an object.
pub open spec fn members_view(members: Seq<Member>) -> Seq<MemberValue> {
    Seq::new(members.len(), |i: int| members[i]@)
}

/// The value of an array is the array of its elements' values.
pub proof fn lemma_array_view(items: Vec<Json>)
    ensures
        Json::Array(items)@ == JsonValue::Array(items_view(items@)),
{
    assert(Json::Array(items)@ is Array);
    assert(Json::Array(items)@->Array_0.len() == items@.len());
    assert(Json::Array(items)@->Array_0 =~= items_view(items@));
}

/// The value of an object is the object of its members' names and values.
pub proof fn lemma_object_view(members: Vec<Member>)
    ensures
        Json::Object(members)@ == JsonValue::Object(members_view(members@)),
{
    assert(Json::Object(members)@ is Object);
    assert(Json::Object(members)@->Object_0.len() == members@.len());
    assert(Json::Object(members)@->Object_0 =~= members_view(members@));
}

/// Whether two strings hold the same characters.
pub fn same_text(a: &str, b: &str) -> (same: bool)
    ensures
        same == (a@ == b@),
{
    let left = a.to_owned();
    let right = b.to_owned();
    left == right
}

impl Json {
    /// Looks a member up by name.
    pub fn get(&self, key: &str) -> (found: Option<&Json>)
        ensures
            match found {
                Some(j) => self@.field(key@) == Some(j@),
                None => self@.field(key@) is None,
            },
    {
        match self {
            Json::Object(members) => {
                let ghost all = members_view(members@);
                proof {
                    lemma_object_view(*members);
                    assert(all.skip(0) =~= all);
                }
                let mut i: usize = 0;
                while i < members.len()
                    invariant
                        i <= members.len(),
                        self@ == JsonValue::Object(all),
                        all.len() == members@.len(),
                        all == members_view(members@),
                        first_member(all, key@) == first_member(all.skip(i as int), key@),
                    decreases members.len() - i,
                {
                    if same_text(members[i].name.as_str(), key) {
                        return Some(&members[i].value);
                    }
                    proof {
                        assert(all.skip(i as int).skip(1) == all.skip(i as int + 1));
                    }
                    i += 1;
                }
                None
            },
            _ => None,
        }
    }

    /// The string held by a string value.
    pub fn as_str(&self) -> (text: Option<&str>)
        ensures
            match text {
                Some(s) => self@.text() == Some(s@),
                None => self@.text() is None,
            },
    {
        match self {
            Json::Text(s) => Some(s.as_str()),
            _ => None,
        }
    }

    /// The elements of an array value.
    pub fn as_array(&self) -> (items: Option<&Vec<Json>>)
        ensures
            match items {
                Some(v) => self@.items() == Some(items_view(v@)),
                None => self@.items() is None,
            },
    {
        match self {
            Json::Array(v) => {
                proof {
                    lemma_array_view(*v);
                }
                Some(v)
            },
            _ => None,
        }
    }

    /// Whether this is the null value.
    pub fn is_null(&self) -> (null: bool)
        ensures
            null == (self@ == JsonValue::Null),
    {
        match self {
            Json::Null => true,
            _ => false,
        }
    }
}

/// The parser's error, carried as it comes.
#[verifier::external_type_specification]
#[verifier::external_body]
pub struct ExJsonError(serde_json::Error);

/// The parser's own document type; it appears only where a parsed document
/// is turned into a `Json`.
#[verifier::external_type_specification]
#[verifier::external_body]
pub struct ExJsonDocument(serde_json::Value);

/// The document that `serde_json::from_str` reads from `text`, or `None`
/// where it reports an error.
pub uninterp spec fn json_of_text(text: Seq<char>) -> Option<JsonValue>;

/// The document that `serde_json::from_slice` reads from `bytes`, or `None`
/// where it reports an error.
pub uninterp spec fn json_of_bytes(bytes: Seq<u8>) -> Option<JsonValue>;

/// Copies a `serde_json::Value` into a `Json`, variant by variant: a number
/// becomes the text that `serde_json` prints for it, an object the list of
/// its members in the order in which its map yields them.
#[verifier::external_body]
fn from_document(document: &serde_json::Value) -> Json {
    match document {
        serde_json::Value::Null => Json::Null,
        serde_json::Value::Bool(b) => Json::Bool(*b),
        serde_json::Value::Number(n) => Json::Number(n.to_string()),
        serde_json::Value::String(s) => Json::Text(s.clone()),
        serde_json::Value::Array(items) => Json::Array(items.iter().map(from_document).collect()),
        serde_json::Value::Object(members) => Json::Object(
            members
                .iter()
                .map(|(name, value)| Member { name: name.clone(), value: from_document(value) })
                .collect(),
        ),
    }
}

/// Parses a JSON text with `serde_json::from_str`.
///
/// The contract gives the outcome a name and claims only that the parser is
/// a function of the text: the same characters give the same document, or
/// fail alike.
#[verifier::external_body]
pub(crate) fn parse_text(text: &str) -> (parsed: Result<Json, serde_json::Error>)
    ensures
        parsed matches Ok(document) ==> json_of_text(text@) == Some(document@),
        parsed is Err ==> json_of_text(text@) is None,
{
    serde_json::from_str::<serde_json::Value>(text).map(|document| from_document(&document))
}

/// Parses a JSON document from bytes with `serde_json::from_slice`.
///
/// As with `parse_text`, the contract claims only that the outcome is a
/// function of the bytes.
#[verifier::external_body]
pub(crate) fn parse_bytes(bytes: &[u8]) -> (parsed: Result<Json, serde_json::Error>)
    ensures
        parsed matches Ok(document) ==> json_of_bytes(bytes@) == Some(document@),
        parsed is Err ==> json_of_bytes(bytes@) is None,
{
    serde_json::from_slice::<serde_json::Value>(bytes).map(|document| from_document(&document))
}

} // verus!
