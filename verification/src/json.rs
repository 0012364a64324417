//! JSON values, read and written by `serde_json`.

use crate::text::same_text;
use vstd::prelude::*;
use vstd::string::*;

verus! {

/// A JSON value.
#[derive(Debug, Eq, PartialEq)]
pub enum Json {
    Null,
    Bool(bool),
    /// A number without sign, fraction and exponent that fits 64 bits.
    Unsigned(u64),
    /// Any other number, as it is written.
    Number(String),
    Text(String),
    Array(Vec<Json>),
    Object(Vec<(String, Json)>),
}

/// What a JSON value says.
pub enum JsonModel {
    Null,
    Bool(bool),
    Unsigned(u64),
    Number(Seq<char>),
    Text(Seq<char>),
    Array(Seq<JsonModel>),
    Object(Seq<(Seq<char>, JsonModel)>),
}

pub open spec fn json_model(json: Json) -> JsonModel
    decreases json,
{
    match json {
        Json::Null => JsonModel::Null,
        Json::Bool(value) => JsonModel::Bool(value),
        Json::Unsigned(value) => JsonModel::Unsigned(value),
        Json::Number(text) => JsonModel::Number(text@),
        Json::Text(text) => JsonModel::Text(text@),
        Json::Array(items) => JsonModel::Array(item_models(items@)),
        Json::Object(members) => JsonModel::Object(member_models(members@)),
    }
}

pub open spec fn item_models(items: Seq<Json>) -> Seq<JsonModel>
    decreases items,
{
    if items.len() == 0 {
        Seq::empty()
    } else {
        item_models(items.subrange(0, items.len() - 1)).push(json_model(items[items.len() - 1]))
    }
}

pub open spec fn member_models(members: Seq<(String, Json)>) -> Seq<(Seq<char>, JsonModel)>
    decreases members,
{
    if members.len() == 0 {
        Seq::empty()
    } else {
        let last = members[members.len() - 1];
        member_models(members.subrange(0, members.len() - 1)).push((last.0@, json_model(last.1)))
    }
}

/// The first member of an object from position `i` on that has the given name.
pub open spec fn member_from(
    members: Seq<(Seq<char>, JsonModel)>,
    name: Seq<char>,
    i: int,
) -> Option<JsonModel>
    decreases members.len() - i,
{
    if i < 0 || i >= members.len() {
        None
    } else if members[i].0 == name {
        Some(members[i].1)
    } else {
        member_from(members, name, i + 1)
    }
}

impl JsonModel {
    /// The member of an object that has the given name.
    pub open spec fn member(self, name: Seq<char>) -> Option<JsonModel> {
        match self {
            JsonModel::Object(members) => member_from(members, name, 0),
            _ => None,
        }
    }

    /// Element `i` of an array.
    pub open spec fn element(self, i: nat) -> Option<JsonModel> {
        match self {
            JsonModel::Array(items) => if i < items.len() {
                Some(items[i as int])
            } else {
                None
            },
            _ => None,
        }
    }

    /// The member with the name `token`, or the element `index` where that is what the token
    /// stands for in an array.
    pub open spec fn pointed(self, token: Seq<char>, index: Option<nat>) -> Option<JsonModel> {
        match self {
            JsonModel::Object(_) => self.member(token),
            JsonModel::Array(_) => match index {
                Some(index) => self.element(index),
                None => None,
            },
            _ => None,
        }
    }

    /// The characters of a text.
    pub open spec fn text(self) -> Option<Seq<char>> {
        match self {
            JsonModel::Text(text) => Some(text),
            _ => None,
        }
    }

    /// The value of an unsigned number.
    pub open spec fn unsigned(self) -> Option<u64> {
        match self {
            JsonModel::Unsigned(value) => Some(value),
            _ => None,
        }
    }

    /// The value of a truth value.
    pub open spec fn truth(self) -> Option<bool> {
        match self {
            JsonModel::Bool(value) => Some(value),
            _ => None,
        }
    }
}

/// The items of an array are there one by one.
pub proof fn lemma_item_models(items: Seq<Json>)
    ensures
        item_models(items).len() == items.len(),
        forall|i: int| 0 <= i < items.len() ==> item_models(items)[i] == (#[trigger] items[i])@,
    decreases items.len(),
{
    if items.len() > 0 {
        let rest = items.subrange(0, items.len() - 1);
        lemma_item_models(rest);
        assert forall|i: int| 0 <= i < items.len() implies item_models(items)[i] == (
        #[trigger] items[i])@ by {
            if i < items.len() - 1 {
                assert(rest[i] == items[i]);
            }
        }
    }
}

/// The members of an object are there one by one.
pub proof fn lemma_member_models(members: Seq<(String, Json)>)
    ensures
        member_models(members).len() == members.len(),
        forall|i: int|
            0 <= i < members.len() ==> member_models(members)[i] == ((#[trigger] members[i]).0@,
            members[i].1@),
    decreases members.len(),
{
    if members.len() > 0 {
        let rest = members.subrange(0, members.len() - 1);
        lemma_member_models(rest);
        assert forall|i: int| 0 <= i < members.len() implies member_models(members)[i] == ((
        #[trigger] members[i]).0@, members[i].1@) by {
            if i < members.len() - 1 {
                assert(rest[i] == members[i]);
            }
        }
    }
}

/// What an optional JSON value says.
pub open spec fn optional_model(json: Option<Json>) -> Option<JsonModel> {
    match json {
        Some(json) => Some(json@),
        None => None,
    }
}

impl Json {
    pub open spec fn view(&self) -> JsonModel {
        json_model(*self)
    }

    pub fn get(&self, name: &str) -> (r: Option<&Json>)
        ensures
            match r {
                Some(value) => self@.member(name@) == Some(value@),
                None => self@.member(name@) is None,
            },
    {
        match self {
            Json::Object(members) => {
                let ghost models = member_models(members@);
                proof {
                    lemma_member_models(members@);
                }
                let mut i: usize = 0;
                while i < members.len()
                    invariant
                        self@ == JsonModel::Object(models),
                        models.len() == members@.len(),
                        forall|k: int|
                            0 <= k < members@.len() ==> models[k] == ((#[trigger] members@[k]).0@,
                            members@[k].1@),
                        i <= members@.len(),
                        member_from(models, name@, 0) == member_from(models, name@, i as int),
                    decreases members@.len() - i,
                {
                    if same_text(members[i].0.as_str(), name) {
                        return Some(&members[i].1);
                    }
                    i += 1;
                }
                None
            },
            _ => None,
        }
    }

    pub fn at(&self, i: usize) -> (r: Option<&Json>)
        ensures
            match r {
                Some(value) => self@.element(i as nat) == Some(value@),
                None => self@.element(i as nat) is None,
            },
    {
        match self {
            Json::Array(items) => {
                proof {
                    lemma_item_models(items@);
                }
                if i < items.len() {
                    Some(&items[i])
                } else {
                    None
                }
            },
            _ => None,
        }
    }

    /// One step along a JSON pointer.
    pub fn point(&self, token: &str, index: Option<usize>) -> (r: Option<&Json>)
        ensures
            ({
                let pointed = self@.pointed(
                    token@,
                    match index {
                        Some(index) => Some(index as nat),
                        None => None,
                    },
                );
                match r {
                    Some(value) => pointed == Some(value@),
                    None => pointed is None,
                }
            }),
    {
        match self {
            Json::Object(_) => self.get(token),
            Json::Array(_) => match index {
                Some(index) => self.at(index),
                None => None,
            },
            _ => None,
        }
    }

    pub fn as_text(&self) -> (r: Option<&str>)
        ensures
            match r {
                Some(text) => self@.text() == Some(text@),
                None => self@.text() is None,
            },
    {
        match self {
            Json::Text(text) => Some(text.as_str()),
            _ => None,
        }
    }

    pub fn as_unsigned(&self) -> (r: Option<u64>)
        ensures
            r == self@.unsigned(),
    {
        match self {
            Json::Unsigned(value) => Some(*value),
            _ => None,
        }
    }

    pub fn as_bool(&self) -> (r: Option<bool>)
        ensures
            r == self@.truth(),
    {
        match self {
            Json::Bool(value) => Some(*value),
            _ => None,
        }
    }

    pub fn is_object(&self) -> (r: bool)
        ensures
            r == (self@ is Object),
    {
        match self {
            Json::Object(_) => true,
            _ => false,
        }
    }
}

proof fn lemma_items_grow(items: Seq<Json>, n: int)
    requires
        0 <= n < items.len(),
    ensures
        item_models(items.take(n + 1)) == item_models(items.take(n)).push(items[n]@),
{
    let all = items.take(n + 1);
    assert(all.subrange(0, all.len() - 1) =~= items.take(n));
    assert(all[all.len() - 1] == items[n]);
}

proof fn lemma_members_grow(members: Seq<(String, Json)>, n: int)
    requires
        0 <= n < members.len(),
    ensures
        member_models(members.take(n + 1)) == member_models(members.take(n)).push(
            (members[n].0@, members[n].1@),
        ),
{
    let all = members.take(n + 1);
    assert(all.subrange(0, all.len() - 1) =~= members.take(n));
    assert(all[all.len() - 1] == members[n]);
}

/// Another value that says the same.
pub fn copy_json(json: &Json) -> (copy: Json)
    ensures
        copy@ == json@,
    decreases json,
{
    match json {
        Json::Null => Json::Null,
        Json::Bool(value) => Json::Bool(*value),
        Json::Unsigned(value) => Json::Unsigned(*value),
        Json::Number(text) => Json::Number(text.clone()),
        Json::Text(text) => Json::Text(text.clone()),
        Json::Array(items) => {
            let mut out: Vec<Json> = Vec::new();
            assert(out@.take(0) =~= out@);
            assert(items@.take(0) =~= out@);
            for i in 0..items.len()
                invariant
                    *json == Json::Array(*items),
                    out@.len() == i,
                    item_models(out@) == item_models(items@.take(i as int)),
            {
                let ghost before = out@;
                assert(decreases_to!(*json => json->Array_0));
                assert(decreases_to!(*items => items@[i as int]));
                out.push(copy_json(&items[i]));
                proof {
                    lemma_items_grow(items@, i as int);
                    lemma_items_grow(out@, i as int);
                    assert(out@.take(i as int) =~= before);
                    assert(out@.take(i + 1) =~= out@);
                }
            }
            assert(items@.take(items@.len() as int) =~= items@);
            Json::Array(out)
        },
        Json::Object(members) => {
            let mut out: Vec<(String, Json)> = Vec::new();
            assert(members@.take(0) =~= out@);
            for i in 0..members.len()
                invariant
                    *json == Json::Object(*members),
                    out@.len() == i,
                    member_models(out@) == member_models(members@.take(i as int)),
            {
                let ghost before = out@;
                assert(decreases_to!(*json => json->Object_0));
                assert(decreases_to!(*members => members@[i as int]));
                assert(decreases_to!(members@[i as int] => members@[i as int].1));
                out.push((members[i].0.clone(), copy_json(&members[i].1)));
                proof {
                    lemma_members_grow(members@, i as int);
                    lemma_members_grow(out@, i as int);
                    assert(out@.take(i as int) =~= before);
                    assert(out@.take(i + 1) =~= out@);
                }
            }
            assert(members@.take(members@.len() as int) =~= members@);
            Json::Object(out)
        },
    }
}

/// `serde_json::Value`, the value that the parser makes and the writer takes.
#[verifier::external_type_specification]
#[verifier::external_body]
pub struct ExJsonValue(serde_json::Value);

/// What a `serde_json::Value` holds.
pub uninterp spec fn json_contents(value: serde_json::Value) -> JsonModel;

/// What `serde_json::from_slice` reads out of some bytes: a JSON document, or what it says is
/// wrong with them.
pub uninterp spec fn json_read(bytes: Seq<u8>) -> Result<JsonModel, Seq<char>>;

/// The JSON document that some bytes hold, if they hold one.
pub open spec fn json_document(bytes: Seq<u8>) -> Option<JsonModel> {
    match json_read(bytes) {
        Ok(document) => Some(document),
        Err(_) => None,
    }
}

/// What the `serde_json::Value` for a JSON value holds: the members of an object in the order of
/// their names, the last of several members with one name, and for a number what its text parses
/// to, or null where that does not parse.
pub uninterp spec fn json_value(json: JsonModel) -> JsonModel;

/// The text that `serde_json` writes for a value that holds `contents`.
pub uninterp spec fn json_written(contents: JsonModel) -> Seq<char>;

/// `serde_json::from_slice`: the value that the bytes hold, or the text of the error where they
/// are not one JSON document.
#[verifier::external_body]
fn read_value(bytes: &[u8]) -> (r: Result<serde_json::Value, String>)
    ensures
        match r {
            Ok(value) => json_read(bytes@) == Ok::<JsonModel, Seq<char>>(json_contents(value)),
            Err(text) => json_read(bytes@) == Err::<JsonModel, Seq<char>>(text@),
        },
{
    serde_json::from_slice(bytes).map_err(|error: serde_json::Error| error.to_string())
}

/// Takes a `serde_json::Value` apart, variant by variant.
#[verifier::external_body]
fn take_value(value: serde_json::Value) -> (json: Json)
    ensures
        json@ == json_contents(value),
{
    match value {
        serde_json::Value::Null => Json::Null,
        serde_json::Value::Bool(flag) => Json::Bool(flag),
        serde_json::Value::Number(number) => match number.as_u64() {
            Some(unsigned) => Json::Unsigned(unsigned),
            None => Json::Number(number.to_string()),
        },
        serde_json::Value::String(text) => Json::Text(text),
        serde_json::Value::Array(items) => Json::Array(
            items.into_iter().map(take_value).collect(),
        ),
        serde_json::Value::Object(members) => Json::Object(
            members.into_iter().map(|(name, item)| (name, take_value(item))).collect(),
        ),
    }
}

/// Puts a `serde_json::Value` together, variant by variant. Null, a truth value, an unsigned number
/// and a text are held as they are.
#[verifier::external_body]
fn make_value(json: &Json) -> (value: serde_json::Value)
    ensures
        json_contents(value) == json_value(json@),
        !(json@ is Number || json@ is Array || json@ is Object) ==> json_contents(value) == json@,
{
    match json {
        Json::Null => serde_json::Value::Null,
        Json::Bool(flag) => serde_json::Value::Bool(*flag),
        Json::Unsigned(number) => serde_json::Value::from(*number),
        Json::Number(text) => serde_json::from_str(text).unwrap_or_default(),
        Json::Text(text) => serde_json::Value::String(text.clone()),
        Json::Array(items) => serde_json::Value::Array(items.iter().map(make_value).collect()),
        Json::Object(members) => serde_json::Value::Object(
            members.iter().map(|(name, item)| (name.clone(), make_value(item))).collect(),
        ),
    }
}

/// The `Display` form of a `serde_json::Value`: its JSON text without white space.
#[verifier::external_body]
fn write_value(value: &serde_json::Value) -> (text: String)
    ensures
        text@ == json_written(json_contents(*value)),
{
    value.to_string()
}

/// What reading gave: what the document says, or what is wrong.
pub open spec fn read_model(read: Result<Json, String>) -> Result<JsonModel, Seq<char>> {
    match read {
        Ok(document) => Ok(document@),
        Err(text) => Err(text@),
    }
}

/// Reads one JSON document, or says what is wrong with it.
pub fn read_json(bytes: &[u8]) -> (r: Result<Json, String>)
    ensures
        read_model(r) == json_read(bytes@),
{
    match read_value(bytes) {
        Ok(value) => Ok(take_value(value)),
        Err(text) => Err(text),
    }
}

/// Reads one JSON document.
pub fn parse_json(bytes: &[u8]) -> (r: Option<Json>)
    ensures
        optional_model(r) == json_document(bytes@),
{
    match read_json(bytes) {
        Ok(document) => Some(document),
        Err(_) => None,
    }
}

/// The JSON text of a value.
pub open spec fn json_text(json: JsonModel) -> Seq<char> {
    json_written(json_value(json))
}

/// Writes a JSON value as text.
pub fn render_json(json: &Json) -> (text: String)
    ensures
        text@ == json_text(json@),
{
    let value = make_value(json);
    write_value(&value)
}

/// The members of an object that is being put together.
#[derive(Debug)]
pub struct Members {
    members: Vec<(String, Json)>,
}

impl Members {
    pub closed spec fn view(&self) -> Seq<(Seq<char>, JsonModel)> {
        member_models(self.members@)
    }

    pub fn new() -> (members: Self)
        ensures
            members@ == Seq::<(Seq<char>, JsonModel)>::empty(),
    {
        Members { members: Vec::new() }
    }

    pub fn put(&mut self, name: &str, value: Json)
        ensures
            final(self)@ == old(self)@.push((name@, value@)),
    {
        let ghost before = self.members@;
        self.members.push((String::from_str(name), value));
        proof {
            let after = self.members@;
            assert(after.subrange(0, after.len() - 1) =~= before);
        }
    }

    pub fn put_text(&mut self, name: &str, text: &str)
        ensures
            final(self)@ == old(self)@.push((name@, JsonModel::Text(text@))),
    {
        self.put(name, Json::Text(String::from_str(text)))
    }

    pub fn put_number(&mut self, name: &str, number: u64)
        ensures
            final(self)@ == old(self)@.push((name@, JsonModel::Unsigned(number))),
    {
        self.put(name, Json::Unsigned(number))
    }

    pub fn put_truth(&mut self, name: &str, truth: bool)
        ensures
            final(self)@ == old(self)@.push((name@, JsonModel::Bool(truth))),
    {
        self.put(name, Json::Bool(truth))
    }

    /// A member that is null where there is no number.
    pub fn put_optional_number(&mut self, name: &str, number: Option<u64>)
        ensures
            final(self)@ == old(self)@.push((name@, optional_number(number))),
    {
        match number {
            Some(number) => self.put(name, Json::Unsigned(number)),
            None => self.put(name, Json::Null),
        }
    }

    /// A member that is null where there is no text.
    pub fn put_optional_text(&mut self, name: &str, text: Option<&str>)
        ensures
            final(self)@ == old(self)@.push(
                (
                    name@,
                    match text {
                        Some(text) => JsonModel::Text(text@),
                        None => JsonModel::Null,
                    },
                ),
            ),
    {
        match text {
            Some(text) => self.put_text(name, text),
            None => self.put(name, Json::Null),
        }
    }

    pub fn object(self) -> (json: Json)
        ensures
            json@ == JsonModel::Object(self@),
    {
        Json::Object(self.members)
    }
}

/// The items of an array that is being put together.
#[derive(Debug)]
pub struct Items {
    items: Vec<Json>,
}

impl Items {
    pub closed spec fn view(&self) -> Seq<JsonModel> {
        item_models(self.items@)
    }

    pub fn new() -> (items: Self)
        ensures
            items@ == Seq::<JsonModel>::empty(),
    {
        Items { items: Vec::new() }
    }

    pub fn put(&mut self, value: Json)
        ensures
            final(self)@ == old(self)@.push(value@),
    {
        let ghost before = self.items@;
        self.items.push(value);
        proof {
            let after = self.items@;
            assert(after.subrange(0, after.len() - 1) =~= before);
        }
    }

    pub fn array(self) -> (json: Json)
        ensures
            json@ == JsonModel::Array(self@),
    {
        Json::Array(self.items)
    }
}

pub open spec fn optional_number(number: Option<u64>) -> JsonModel {
    match number {
        Some(number) => JsonModel::Unsigned(number),
        None => JsonModel::Null,
    }
}

/// The texts as an array.
pub open spec fn text_items(texts: Seq<Seq<char>>) -> Seq<JsonModel> {
    Seq::new(texts.len(), |i: int| JsonModel::Text(texts[i]))
}

/// An array of texts.
pub fn text_array(texts: &Vec<String>) -> (json: Json)
    ensures
        json@ == JsonModel::Array(text_items(crate::text::texts(texts@))),
{
    let mut items: Vec<Json> = Vec::new();
    let ghost all = text_items(crate::text::texts(texts@));
    assert(item_models(items@) =~= all.take(0));
    for i in 0..texts.len()
        invariant
            all == text_items(crate::text::texts(texts@)),
            item_models(items@) == all.take(i as int),
    {
        let ghost before = items@;
        items.push(Json::Text(texts[i].clone()));
        proof {
            let after = items@;
            assert(after.subrange(0, after.len() - 1) =~= before);
            assert(after[after.len() - 1]@ == JsonModel::Text(texts@[i as int]@));
            assert(all.take(i + 1) =~= all.take(i as int).push(JsonModel::Text(texts@[i as int]@)));
        }
    }
    assert(all.take(all.len() as int) =~= all);
    Json::Array(items)
}

/// A member of an object is found under its name: the first that bears it, and none where no member
/// does.
pub proof fn law_member_goes_by_its_name(
    members: Seq<(Seq<char>, JsonModel)>,
    name: Seq<char>,
    i: int,
)
    requires
        0 <= i <= members.len(),
        forall|k: int| 0 <= k < i ==> (#[trigger] members[k]).0 != name,
        i == members.len() || members[i].0 == name,
    ensures
        i < members.len() ==> JsonModel::Object(members).member(name) == Some(members[i].1),
        i == members.len() ==> JsonModel::Object(members).member(name) is None,
{
    lemma_member_from(members, name, 0, i);
}

proof fn lemma_member_from(
    members: Seq<(Seq<char>, JsonModel)>,
    name: Seq<char>,
    from: int,
    i: int,
)
    requires
        0 <= from <= i <= members.len(),
        forall|k: int| from <= k < i ==> (#[trigger] members[k]).0 != name,
        i == members.len() || members[i].0 == name,
    ensures
        i < members.len() ==> member_from(members, name, from) == Some(members[i].1),
        i == members.len() ==> member_from(members, name, from) is None,
    decreases i - from,
{
    if from < i {
        assert(members[from].0 != name);
        lemma_member_from(members, name, from + 1, i);
    }
}

/// An element of an array is found at its place, and none behind the last; what is no object has no
/// members, and what is no array no elements.
pub proof fn law_element_stands_at_its_place(items: Seq<JsonModel>, i: nat, name: Seq<char>)
    ensures
        i < items.len() ==> JsonModel::Array(items).element(i) == Some(items[i as int]),
        i >= items.len() ==> JsonModel::Array(items).element(i) is None,
        JsonModel::Array(items).member(name) is None,
        JsonModel::Null.member(name) is None,
        JsonModel::Text(name).member(name) is None,
        JsonModel::Text(name).element(i) is None,
        JsonModel::Text(name).text() == Some(name),
        JsonModel::Text(name).unsigned() is None,
        JsonModel::Text(name).truth() is None,
        JsonModel::Null.text() is None,
{
}

} // verus!
