//! JSON documents: reading them, looking into them, and writing them.
use vstd::prelude::*;

use crate::order;
use crate::text;

verus! {

/// A number of a JSON document, as `serde_json` holds it.
#[verifier::external_type_specification]
#[verifier::external_body]
pub struct ExNumber(serde_json::Number);

/// A JSON document, as `serde_json` holds it.
#[verifier::external_type_specification]
#[verifier::external_body]
pub struct ExValue(serde_json::Value);

/// A JSON document. The members of an object that was read stand in the order of their
/// names.
#[derive(Debug)]
pub enum Json {
    Null,
    Bool(bool),
    Number(serde_json::Number),
    Text(String),
    Array(Vec<Json>),
    Object(Vec<Member>),
}

/// One member of an object.
#[derive(Debug)]
pub struct Member {
    pub name: String,
    pub value: Json,
}

/// A JSON document in terms of sequences.
#[verifier::ext_equal]
pub enum JsonModel {
    Null,
    Bool(bool),
    Number(serde_json::Number),
    Text(Seq<char>),
    Array(Seq<JsonModel>),
    Object(Seq<(Seq<char>, JsonModel)>),
}

impl Json {
    pub open spec fn view(&self) -> JsonModel
        decreases self,
    {
        match self {
            Json::Null => JsonModel::Null,
            Json::Bool(b) => JsonModel::Bool(*b),
            Json::Number(n) => JsonModel::Number(*n),
            Json::Text(s) => JsonModel::Text(s@),
            Json::Array(items) => JsonModel::Array(
                Seq::new(
                    items@.len(),
                    |i: int|
                        if 0 <= i < items@.len() {
                            items@[i].view()
                        } else {
                            JsonModel::Null
                        },
                ),
            ),
            Json::Object(members) => JsonModel::Object(
                Seq::new(
                    members@.len(),
                    |i: int|
                        if 0 <= i < members@.len() {
                            (members@[i].name@, members@[i].value.view())
                        } else {
                            (Seq::empty(), JsonModel::Null)
                        },
                ),
            ),
        }
    }
}

/// The document that a `serde_json::Value` holds.
pub uninterp spec fn value_model(v: serde_json::Value) -> JsonModel;

/// What `serde_json::from_slice` makes of bytes: a document, or what is wrong with them.
pub uninterp spec fn json_read(bytes: Seq<u8>) -> Result<JsonModel, Seq<char>>;

/// What `serde_json::to_vec_pretty` writes for a document.
pub uninterp spec fn pretty_bytes(m: JsonModel) -> Seq<u8>;

/// What `serde_json::from_str` reads as a list of strings.
pub uninterp spec fn string_list(s: Seq<char>) -> Option<Seq<Seq<char>>>;

/// What `serde_json::to_string` writes for a list of strings.
pub uninterp spec fn string_list_text(items: Seq<Seq<char>>) -> Seq<char>;

/// Whether `serde_yaml::from_str` reads a text as a document.
pub uninterp spec fn yaml_readable(s: Seq<char>) -> bool;

/// Whether bytes are read as the document `m`.
pub open spec fn reads_as(bytes: Seq<u8>, m: JsonModel) -> bool {
    json_read(bytes) == Ok::<JsonModel, Seq<char>>(m)
}

/// Whether the names of members stand in order, none of them twice.
pub open spec fn names_in_order(members: Seq<(Seq<char>, JsonModel)>) -> bool {
    forall|i: int, j: int|
        0 <= i < j < members.len() ==> order::less(
            (#[trigger] members[i]).0,
            (#[trigger] members[j]).0,
        )
}

/// Whether the members of every object in a document stand in order.
pub open spec fn ordered(m: JsonModel) -> bool
    decreases m,
{
    match m {
        JsonModel::Array(items) => forall|i: int|
            0 <= i < items.len() ==> ordered(#[trigger] items[i]),
        JsonModel::Object(members) => names_in_order(members) && forall|i: int|
            0 <= i < members.len() ==> ordered((#[trigger] members[i]).1),
        _ => true,
    }
}

/// Whether a whole number is kept as such in a document.
pub open spec fn is_kept(n: int) -> bool {
    i64::MIN <= n <= u64::MAX
}

/// Whether a document holds no numbers but whole ones and nests no deeper than `depth`.
pub open spec fn plain(m: JsonModel, depth: nat) -> bool
    decreases depth,
{
    match m {
        JsonModel::Null | JsonModel::Bool(_) | JsonModel::Text(_) => true,
        JsonModel::Number(n) => exists|k: int| is_kept(k) && n == #[trigger] whole_number(k),
        JsonModel::Array(items) => depth > 0 && forall|i: int|
            0 <= i < items.len() ==> plain(#[trigger] items[i], (depth - 1) as nat),
        JsonModel::Object(members) => depth > 0 && forall|i: int|
            0 <= i < members.len() ==> plain((#[trigger] members[i]).1, (depth - 1) as nat),
    }
}

/// `serde_json::from_slice`: the bytes are read as one document, which depends on them
/// alone; where they are none, so does the message. Which bytes make which document is
/// not spelled out.
#[verifier::external_body]
fn read_value(bytes: &[u8]) -> (r: Result<serde_json::Value, String>)
    ensures
        match r {
            Ok(v) => json_read(bytes@) == Ok::<JsonModel, Seq<char>>(value_model(v)),
            Err(e) => json_read(bytes@) == Err::<JsonModel, Seq<char>>(e@),
        },
{
    match serde_json::from_slice::<serde_json::Value>(bytes) {
        Ok(v) => Ok(v),
        Err(e) => Err(e.to_string()),
    }
}

/// A `serde_json::Value` in its outermost layer.
enum Layer {
    Null,
    Bool(bool),
    Number(serde_json::Number),
    Text(String),
    Array(Vec<serde_json::Value>),
    Object(Vec<Entry>),
}

/// One member of an object.
struct Entry {
    name: String,
    value: serde_json::Value,
}

/// What values hold.
spec fn value_models(items: Seq<serde_json::Value>) -> Seq<JsonModel> {
    Seq::new(items.len(), |i: int| value_model(items[i]))
}

/// What entries hold.
spec fn entry_models(entries: Seq<Entry>) -> Seq<(Seq<char>, JsonModel)> {
    Seq::new(entries.len(), |i: int| (entries[i].name@, value_model(entries[i].value)))
}

impl Layer {
    /// The document that a layer is the outermost of.
    spec fn model(self) -> JsonModel {
        match self {
            Layer::Null => JsonModel::Null,
            Layer::Bool(b) => JsonModel::Bool(b),
            Layer::Number(n) => JsonModel::Number(n),
            Layer::Text(s) => JsonModel::Text(s@),
            Layer::Array(items) => JsonModel::Array(value_models(items@)),
            Layer::Object(entries) => JsonModel::Object(entry_models(entries@)),
        }
    }
}

/// The outermost layer of a `serde_json::Value`: each kind of value is the same kind here.
/// The map of `serde_json` gives its members in the order of their names, each once.
#[verifier::external_body]
fn open_value(v: serde_json::Value) -> (r: Layer)
    ensures
        r.model() == value_model(v),
        r is Object ==> names_in_order(r.model()->Object_0),
{
    match v {
        serde_json::Value::Null => Layer::Null,
        serde_json::Value::Bool(b) => Layer::Bool(b),
        serde_json::Value::Number(n) => Layer::Number(n),
        serde_json::Value::String(s) => Layer::Text(s),
        serde_json::Value::Array(items) => Layer::Array(items),
        serde_json::Value::Object(map) => Layer::Object(
            map.into_iter().map(|(name, value)| Entry { name, value }).collect(),
        ),
    }
}

/// The `serde_json::Value` with an outermost layer: each kind of value is the same kind
/// there. The map of `serde_json` keeps every member of those that are in order.
#[verifier::external_body]
fn close_value(l: Layer) -> (v: serde_json::Value)
    requires
        l is Object ==> names_in_order(l.model()->Object_0),
    ensures
        value_model(v) == l.model(),
{
    match l {
        Layer::Null => serde_json::Value::Null,
        Layer::Bool(b) => serde_json::Value::Bool(b),
        Layer::Number(n) => serde_json::Value::Number(n),
        Layer::Text(s) => serde_json::Value::String(s),
        Layer::Array(items) => serde_json::Value::Array(items),
        Layer::Object(entries) => serde_json::Value::Object(
            entries.into_iter().map(|e| (e.name, e.value)).collect(),
        ),
    }
}

/// A `serde_json::Value` taken apart.
fn json_of_value(v: serde_json::Value) -> (j: Json)
    ensures
        j@ == value_model(v),
        ordered(j@),
    decreases value_model(v),
{
    let ghost m = value_model(v);
    match open_value(v) {
        Layer::Null => Json::Null,
        Layer::Bool(b) => Json::Bool(b),
        Layer::Number(n) => Json::Number(n),
        Layer::Text(s) => Json::Text(s),
        Layer::Array(values) => {
            let mut left = values;
            let ghost all = value_models(left@);
            let mut items: Vec<Json> = Vec::new();
            let ghost mut k: int = 0;
            assert(models(items@) =~= all.take(0));
            assert(all.skip(0) =~= all);
            while left.len() > 0
                invariant
                    m == value_model(v),
                    m == JsonModel::Array(all),
                    0 <= k <= all.len(),
                    value_models(left@) == all.skip(k),
                    models(items@) == all.take(k),
                    forall|i: int| 0 <= i < items.len() ==> ordered((#[trigger] items@[i])@),
                decreases left.len(),
            {
                let ghost before = models(items@);
                let ghost had = value_models(left@);
                assert(value_models(left@).len() == left@.len());
                assert(all.skip(k)[0] == value_model(left@[0]));
                let first = left.remove(0);
                assert(value_model(first) == m->Array_0[k]);
                let item = json_of_value(first);
                items.push(item);
                proof {
                    assert(value_models(left@) =~= had.skip(1));
                    assert(had.skip(1) =~= all.skip(k + 1));
                    assert(models(items@) =~= before.push(all[k]));
                    assert(all.take(k + 1) =~= all.take(k).push(all[k]));
                    k = k + 1;
                }
            }
            proof {
                assert(k == all.len()) by {
                    assert(value_models(left@).len() == 0);
                }
                assert(all.take(k) =~= all);
                lemma_array_model(items);
                assert forall|i: int| 0 <= i < all.len() implies ordered(#[trigger] all[i]) by {
                    assert(all[i] == models(items@)[i]);
                }
            }
            Json::Array(items)
        },
        Layer::Object(entries) => {
            let mut left = entries;
            let ghost all = entry_models(left@);
            let mut members: Vec<Member> = Vec::new();
            let ghost mut k: int = 0;
            assert(member_models(members@) =~= all.take(0));
            assert(all.skip(0) =~= all);
            while left.len() > 0
                invariant
                    m == value_model(v),
                    m == JsonModel::Object(all),
                    0 <= k <= all.len(),
                    entry_models(left@) == all.skip(k),
                    member_models(members@) == all.take(k),
                    forall|i: int|
                        0 <= i < members.len() ==> ordered((#[trigger] members@[i]).value@),
                decreases left.len(),
            {
                let ghost before = member_models(members@);
                let ghost had = entry_models(left@);
                assert(entry_models(left@).len() == left@.len());
                assert(all.skip(k)[0] == entry_models(left@)[0]);
                let first = left.remove(0);
                assert(value_model(first.value) == m->Object_0[k].1);
                let value = json_of_value(first.value);
                members.push(Member { name: first.name, value });
                proof {
                    assert(entry_models(left@) =~= had.skip(1));
                    assert(had.skip(1) =~= all.skip(k + 1));
                    assert(member_models(members@) =~= before.push(all[k]));
                    assert(all.take(k + 1) =~= all.take(k).push(all[k]));
                    k = k + 1;
                }
            }
            proof {
                assert(k == all.len()) by {
                    assert(entry_models(left@).len() == 0);
                }
                assert(all.take(k) =~= all);
                lemma_object_model(members);
                assert forall|i: int| 0 <= i < all.len() implies ordered(
                    (#[trigger] all[i]).1,
                ) by {
                    assert(all[i] == member_models(members@)[i]);
                }
            }
            Json::Object(members)
        },
    }
}

/// A `serde_json::Value` put together.
fn value_of_json(j: Json) -> (v: serde_json::Value)
    requires
        ordered(j@),
    ensures
        value_model(v) == j@,
    decreases j@,
{
    let ghost m = j@;
    match j {
        Json::Null => close_value(Layer::Null),
        Json::Bool(b) => close_value(Layer::Bool(b)),
        Json::Number(n) => close_value(Layer::Number(n)),
        Json::Text(s) => close_value(Layer::Text(s)),
        Json::Array(items) => {
            let mut left = items;
            let ghost all = models(left@);
            proof {
                lemma_array_model(left);
            }
            let mut values: Vec<serde_json::Value> = Vec::new();
            let ghost mut k: int = 0;
            assert(value_models(values@) =~= all.take(0));
            assert(all.skip(0) =~= all);
            while left.len() > 0
                invariant
                    m == j@,
                    m == JsonModel::Array(all),
                    ordered(m),
                    0 <= k <= all.len(),
                    models(left@) == all.skip(k),
                    value_models(values@) == all.take(k),
                decreases left.len(),
            {
                let ghost before = value_models(values@);
                let ghost had = models(left@);
                assert(models(left@).len() == left@.len());
                assert(all.skip(k)[0] == left@[0]@);
                let first = left.remove(0);
                assert(first@ == m->Array_0[k]);
                assert(ordered(all[k]));
                let value = value_of_json(first);
                values.push(value);
                proof {
                    assert(models(left@) =~= had.skip(1));
                    assert(had.skip(1) =~= all.skip(k + 1));
                    assert(value_models(values@) =~= before.push(all[k]));
                    assert(all.take(k + 1) =~= all.take(k).push(all[k]));
                    k = k + 1;
                }
            }
            proof {
                assert(k == all.len()) by {
                    assert(models(left@).len() == 0);
                }
                assert(all.take(k) =~= all);
            }
            close_value(Layer::Array(values))
        },
        Json::Object(members) => {
            let mut left = members;
            let ghost all = member_models(left@);
            proof {
                lemma_object_model(left);
            }
            let mut entries: Vec<Entry> = Vec::new();
            let ghost mut k: int = 0;
            assert(entry_models(entries@) =~= all.take(0));
            assert(all.skip(0) =~= all);
            while left.len() > 0
                invariant
                    m == j@,
                    m == JsonModel::Object(all),
                    ordered(m),
                    0 <= k <= all.len(),
                    member_models(left@) == all.skip(k),
                    entry_models(entries@) == all.take(k),
                decreases left.len(),
            {
                let ghost before = entry_models(entries@);
                let ghost had = member_models(left@);
                assert(member_models(left@).len() == left@.len());
                assert(all.skip(k)[0] == member_models(left@)[0]);
                let first = left.remove(0);
                assert(first.value@ == m->Object_0[k].1);
                assert(ordered(all[k].1));
                let value = value_of_json(first.value);
                entries.push(Entry { name: first.name, value });
                proof {
                    assert(member_models(left@) =~= had.skip(1));
                    assert(had.skip(1) =~= all.skip(k + 1));
                    assert(entry_models(entries@) =~= before.push(all[k]));
                    assert(all.take(k + 1) =~= all.take(k).push(all[k]));
                    k = k + 1;
                }
            }
            proof {
                assert(k == all.len()) by {
                    assert(member_models(left@).len() == 0);
                }
                assert(all.take(k) =~= all);
            }
            close_value(Layer::Object(entries))
        },
    }
}

/// `serde_json::to_vec_pretty`: a document is always written, and the bytes depend on it
/// alone. `serde_json::from_slice` reads the same document back from them, unless it holds
/// a number that is not whole or nests deeper than the reader goes. The layout is not
/// spelled out.
#[verifier::external_body]
fn write_pretty(v: &serde_json::Value) -> (r: Result<Vec<u8>, String>)
    ensures
        r is Ok,
        r->Ok_0@ == pretty_bytes(value_model(*v)),
        plain(value_model(*v), 127) ==> reads_as(r->Ok_0@, value_model(*v)),
{
    match serde_json::to_vec_pretty(v) {
        Ok(b) => Ok(b),
        Err(e) => Err(e.to_string()),
    }
}

/// `serde_json::Number::from_i128`: a whole number of a document, for numbers from the
/// least of `i64` to the greatest of `u64` and no others. It depends on the number alone.
#[verifier::external_body]
fn number_value(n: i128) -> (r: Option<serde_json::Number>)
    ensures
        match r {
            Some(m) => is_kept(n as int) && m == whole_number(n as int),
            None => !is_kept(n as int),
        },
{
    serde_json::Number::from_i128(n)
}

/// The number of a document that `serde_json::Number::from_i128` makes of a whole number.
pub uninterp spec fn whole_number(n: int) -> serde_json::Number;

/// `serde_json::from_str` for a list of strings: what it reads depends on the text alone.
#[verifier::external_body]
pub(crate) fn read_string_list(s: &str) -> (r: Option<Vec<String>>)
    ensures
        match r {
            Some(v) => string_list(s@) == Some(text::views(v@)),
            None => string_list(s@) is None,
        },
{
    serde_json::from_str::<Vec<String>>(s).ok()
}

/// `serde_json::to_string` for a list of strings: it always succeeds, its text depends on
/// the strings alone, `serde_json::from_str` reads the same strings back from it, and it
/// holds no line feed and no carriage return, which are escaped.
#[verifier::external_body]
pub(crate) fn write_string_list(items: &Vec<String>) -> (r: Result<String, String>)
    ensures
        r is Ok,
        r->Ok_0@ == string_list_text(text::views(items@)),
        string_list(r->Ok_0@) == Some(text::views(items@)),
        !r->Ok_0@.contains('\n'),
        !r->Ok_0@.contains('\r'),
{
    match serde_json::to_string(items) {
        Ok(s) => Ok(s),
        Err(e) => Err(e.to_string()),
    }
}

/// `serde_yaml::from_str`: whether it reads the text as a document depends on the text
/// alone.
#[verifier::external_body]
pub(crate) fn yaml_parses(s: &str) -> (r: bool)
    ensures
        r == yaml_readable(s@),
{
    serde_yaml::from_str::<serde_json::Value>(s).is_ok()
}

/// Where the member `name` stands first; the number of members where it does not.
pub open spec fn member_index(members: Seq<(Seq<char>, JsonModel)>, name: Seq<char>) -> int
    decreases members.len(),
{
    if members.len() == 0 || members[0].0 == name {
        0
    } else {
        1 + member_index(members.skip(1), name)
    }
}

/// The index is one of a member with that name, or the number of members.
pub proof fn lemma_member_index(members: Seq<(Seq<char>, JsonModel)>, name: Seq<char>)
    ensures
        0 <= member_index(members, name) <= members.len(),
        member_index(members, name) < members.len() ==> members[member_index(members, name)].0
            == name,
        forall|j: int| 0 <= j < member_index(members, name) ==> (#[trigger] members[j]).0 != name,
    decreases members.len(),
{
    if members.len() > 0 && members[0].0 != name {
        lemma_member_index(members.skip(1), name);
        assert forall|j: int| 0 <= j < member_index(members, name) implies (
        #[trigger] members[j]).0 != name by {
            if j > 0 {
                assert(members[j] == members.skip(1)[j - 1]);
            }
        }
    }
}

/// The texts among the items, in order.
pub open spec fn texts_among(items: Seq<JsonModel>) -> Seq<Seq<char>>
    decreases items.len(),
{
    if items.len() == 0 {
        Seq::empty()
    } else {
        match items[0] {
            JsonModel::Text(s) => seq![s] + texts_among(items.skip(1)),
            _ => texts_among(items.skip(1)),
        }
    }
}

impl JsonModel {
    /// The member `name` of an object.
    pub open spec fn field(self, name: Seq<char>) -> Option<JsonModel> {
        match self {
            JsonModel::Object(members) => {
                let i = member_index(members, name);
                if 0 <= i < members.len() {
                    Some(members[i].1)
                } else {
                    None
                }
            },
            _ => None,
        }
    }

    /// What a text holds.
    pub open spec fn as_text(self) -> Option<Seq<char>> {
        match self {
            JsonModel::Text(s) => Some(s),
            _ => None,
        }
    }

    /// The text in the member `name` of an object.
    pub open spec fn text_field(self, name: Seq<char>) -> Option<Seq<char>> {
        match self.field(name) {
            Some(v) => v.as_text(),
            None => None,
        }
    }

    /// The text in the member `name` of the object that is the member `outer`.
    pub open spec fn inner_text(self, outer: Seq<char>, name: Seq<char>) -> Option<Seq<char>> {
        match self.field(outer) {
            Some(v) => v.text_field(name),
            None => None,
        }
    }

    /// Whether the member `name` of the object that is the member `outer` is `true`.
    pub open spec fn inner_flag(self, outer: Seq<char>, name: Seq<char>) -> bool {
        match self.field(outer) {
            Some(v) => v.field(name) == Some(JsonModel::Bool(true)),
            None => false,
        }
    }

    /// The texts in the list that is the member `name` of an object; none where there is
    /// no such list.
    pub open spec fn texts_field(self, name: Seq<char>) -> Seq<Seq<char>> {
        match self.field(name) {
            Some(JsonModel::Array(items)) => texts_among(items),
            _ => Seq::empty(),
        }
    }
}

/// What the documents of a list hold.
pub open spec fn models(items: Seq<Json>) -> Seq<JsonModel> {
    Seq::new(items.len(), |i: int| items[i]@)
}

/// What the members of an object hold.
pub open spec fn member_models(members: Seq<Member>) -> Seq<(Seq<char>, JsonModel)> {
    Seq::new(members.len(), |i: int| (members[i].name@, members[i].value@))
}

/// A list holds what its items hold.
pub proof fn lemma_array_model(items: Vec<Json>)
    ensures
        Json::Array(items)@ == JsonModel::Array(models(items@)),
{
    assert(Json::Array(items)@->Array_0 =~= models(items@));
}

/// An object holds what its members hold.
pub proof fn lemma_object_model(members: Vec<Member>)
    ensures
        Json::Object(members)@ == JsonModel::Object(member_models(members@)),
{
    assert(Json::Object(members)@->Object_0 =~= member_models(members@));
}

/// Reads bytes as a JSON document. The members of its objects come in order.
pub fn parse(bytes: &[u8]) -> (r: Result<Json, String>)
    ensures
        match r {
            Ok(j) => reads_as(bytes@, j@) && ordered(j@),
            Err(e) => json_read(bytes@) == Err::<JsonModel, Seq<char>>(e@),
        },
{
    match read_value(bytes) {
        Ok(v) => Ok(json_of_value(v)),
        Err(e) => Err(e),
    }
}

/// Writes a JSON document with line breaks and indentation. A plain one is read back from
/// what was written.
pub fn pretty(j: Json) -> (r: Result<Vec<u8>, String>)
    requires
        ordered(j@),
    ensures
        r is Ok,
        r->Ok_0@ == pretty_bytes(j@),
        plain(j@, 127) ==> reads_as(r->Ok_0@, j@),
{
    let v = value_of_json(j);
    write_pretty(&v)
}

/// A whole number.
pub fn whole(n: u64) -> (j: Json)
    ensures
        j@ == JsonModel::Number(whole_number(n as int)),
{
    match number_value(n as i128) {
        Some(m) => Json::Number(m),
        None => Json::Null,
    }
}

/// A member of an object.
pub fn member(name: &str, value: Json) -> (m: Member)
    ensures
        m.name@ == name@,
        m.value == value,
{
    Member { name: name.to_owned(), value }
}

/// A text as a member of an object.
pub fn text_member(name: &str, value: &str) -> (m: Member)
    ensures
        m.name@ == name@,
        m.value@ == JsonModel::Text(value@),
{
    member(name, Json::Text(value.to_owned()))
}

/// Where the member `name` stands first among the members.
pub fn find_member(members: &Vec<Member>, name: &str) -> (r: usize)
    ensures
        r == member_index(member_models(members@), name@),
        r <= members.len(),
{
    let ghost all = member_models(members@);
    let mut i: usize = 0;
    assert(all.skip(0) =~= all);
    while i < members.len() && !text::same(members[i].name.as_str(), name)
        invariant
            i <= members.len(),
            all == member_models(members@),
            member_index(all, name@) == i + member_index(all.skip(i as int), name@),
        decreases members.len() - i,
    {
        assert(all.skip(i as int)[0] == all[i as int]);
        assert(all.skip(i as int).skip(1) =~= all.skip(i + 1));
        i = i + 1;
    }
    i
}

impl Json {
    /// The member `name` of an object.
    pub fn get(&self, name: &str) -> (r: Option<&Json>)
        ensures
            match r {
                Some(v) => self@.field(name@) == Some(v@),
                None => self@.field(name@) is None,
            },
    {
        match self {
            Json::Object(members) => {
                proof {
                    lemma_object_model(*members);
                }
                let i = find_member(members, name);
                if i < members.len() {
                    Some(&members[i].value)
                } else {
                    None
                }
            },
            _ => None,
        }
    }

    /// What a text holds.
    pub fn as_str(&self) -> (r: Option<&str>)
        ensures
            text::opt_str_view(r) == self@.as_text(),
    {
        match self {
            Json::Text(s) => Some(s.as_str()),
            _ => None,
        }
    }

    /// The text in the member `name` of an object.
    pub fn get_text(&self, name: &str) -> (r: Option<String>)
        ensures
            text::opt_view(r) == self@.text_field(name@),
    {
        match self.get(name) {
            Some(v) => match v.as_str() {
                Some(s) => Some(s.to_owned()),
                None => None,
            },
            None => None,
        }
    }

    /// The text in the member `name` of the object that is the member `outer`.
    pub fn get_inner_text(&self, outer: &str, name: &str) -> (r: Option<String>)
        ensures
            text::opt_view(r) == self@.inner_text(outer@, name@),
    {
        match self.get(outer) {
            Some(v) => v.get_text(name),
            None => None,
        }
    }

    /// Whether the member `name` of the object that is the member `outer` is `true`.
    pub fn get_inner_flag(&self, outer: &str, name: &str) -> (r: bool)
        ensures
            r == self@.inner_flag(outer@, name@),
    {
        match self.get(outer) {
            Some(v) => match v.get(name) {
                Some(Json::Bool(b)) => *b,
                _ => false,
            },
            None => false,
        }
    }

    /// The texts in the list that is the member `name` of an object.
    pub fn get_texts(&self, name: &str) -> (r: Vec<String>)
        ensures
            text::views(r@) == self@.texts_field(name@),
    {
        match self.get(name) {
            Some(Json::Array(items)) => {
                proof {
                    lemma_array_model(*items);
                }
                texts_of(items)
            },
            _ => {
                let r: Vec<String> = Vec::new();
                assert(text::views(r@) =~= Seq::empty());
                r
            },
        }
    }
}

/// The texts among the items, in order.
pub fn texts_of(items: &Vec<Json>) -> (r: Vec<String>)
    ensures
        text::views(r@) == texts_among(models(items@)),
{
    let ghost all = models(items@);
    let mut r: Vec<String> = Vec::new();
    let mut i: usize = 0;
    assert(all.skip(0) =~= all);
    assert(text::views(r@) + texts_among(all) =~= texts_among(all));
    while i < items.len()
        invariant
            i <= items.len(),
            all == models(items@),
            text::views(r@) + texts_among(all.skip(i as int)) == texts_among(all),
        decreases items.len() - i,
    {
        let ghost rest = all.skip(i as int);
        let ghost before = text::views(r@);
        assert(rest[0] == items@[i as int]@);
        assert(rest.skip(1) =~= all.skip(i + 1));
        match items[i].as_str() {
            Some(s) => {
                r.push(s.to_owned());
                assert(text::views(r@) =~= before.push(s@));
                assert(before + (seq![s@] + texts_among(rest.skip(1))) =~= text::views(r@)
                    + texts_among(rest.skip(1)));
            },
            None => {},
        }
        i = i + 1;
    }
    assert(text::views(r@) + texts_among(all.skip(i as int)) =~= text::views(r@));
    r
}

/// Whether an object has the member `name` with the value `v`: the first of that name.
pub open spec fn has_member(
    members: Seq<(Seq<char>, JsonModel)>,
    name: Seq<char>,
    v: JsonModel,
) -> bool {
    exists|i: int|
        0 <= i < members.len() && (#[trigger] members[i]) == (name, v) && forall|j: int|
            0 <= j < i ==> (#[trigger] members[j]).0 != name
}

/// Whether an object has no member `name`.
pub open spec fn lacks_member(members: Seq<(Seq<char>, JsonModel)>, name: Seq<char>) -> bool {
    forall|j: int| 0 <= j < members.len() ==> (#[trigger] members[j]).0 != name
}

/// What is looked up in an object is the value of the first member of that name, and nothing
/// where no member has it; nothing is looked up in what is no object.
pub proof fn lookup_gives_the_member(m: JsonModel, name: Seq<char>, v: JsonModel)
    ensures
        m is Object && has_member(m->Object_0, name, v) ==> m.field(name) == Some(v),
        m is Object && m.field(name) == Some(v) ==> has_member(m->Object_0, name, v),
        m is Object && lacks_member(m->Object_0, name) ==> m.field(name) is None,
        !(m is Object) ==> m.field(name) is None,
{
    if m is Object {
        let ms = m->Object_0;
        lemma_member_index(ms, name);
        let k = member_index(ms, name);
        if has_member(ms, name, v) {
            let i = choose|i: int|
                0 <= i < ms.len() && (#[trigger] ms[i]) == (name, v) && forall|j: int|
                    0 <= j < i ==> (#[trigger] ms[j]).0 != name;
            if k < i {
                assert(ms[k].0 != name);
            }
            if i < k {
                assert(ms[i].0 != name);
            }
        }
        if m.field(name) == Some(v) {
            assert(ms[k] == (name, v));
        }
    }
}

/// The text of a member is what it holds where it holds a text; any other value is none.
pub proof fn text_member_is_read(
    members: Seq<(Seq<char>, JsonModel)>,
    name: Seq<char>,
    v: JsonModel,
)
    requires
        has_member(members, name, v),
    ensures
        JsonModel::Object(members).text_field(name) == (match v {
            JsonModel::Text(s) => Some(s),
            _ => None,
        }),
{
    lookup_gives_the_member(JsonModel::Object(members), name, v);
}

/// The texts in a list are those of its items that are texts, in their order: the rest is
/// passed over, and no text is lost.
pub proof fn texts_are_those_in_the_list(items: Seq<JsonModel>)
    ensures
        texts_among(items) == items.filter(|m: JsonModel| m is Text).map_values(
            |m: JsonModel| m->Text_0,
        ),
        forall|i: int|
            0 <= i < items.len() && (#[trigger] items[i]) is Text ==> texts_among(items).contains(
                items[i]->Text_0,
            ),
        forall|s: Seq<char>| #[trigger]
            texts_among(items).contains(s) ==> items.contains(JsonModel::Text(s)),
    decreases items.len(),
{
    reveal(Seq::filter);
    let is_text = |m: JsonModel| m is Text;
    let text_of = |m: JsonModel| m->Text_0;
    let ts = texts_among(items);
    if items.len() == 0 {
        assert(ts =~= items.filter(is_text).map_values(text_of));
    } else {
        let rest = items.skip(1);
        texts_are_those_in_the_list(rest);
        assert(items =~= seq![items[0]] + rest);
        lemma_filter_front(items[0], rest, is_text);
        assert(ts =~= items.filter(is_text).map_values(text_of));
        assert forall|i: int|
            0 <= i < items.len() && (#[trigger] items[i]) is Text implies ts.contains(
            items[i]->Text_0,
        ) by {
            let more = texts_among(rest);
            if i == 0 {
                assert(ts[0] == items[0]->Text_0);
            } else {
                assert(rest[i - 1] == items[i]);
                let k = choose|k: int| 0 <= k < more.len() && more[k] == items[i]->Text_0;
                if items[0] is Text {
                    assert(ts[k + 1] == more[k]);
                } else {
                    assert(ts[k] == more[k]);
                }
            }
        }
        assert forall|s: Seq<char>| #[trigger] ts.contains(s) implies items.contains(
            JsonModel::Text(s),
        ) by {
            let more = texts_among(rest);
            let k = choose|k: int| 0 <= k < ts.len() && ts[k] == s;
            if items[0] is Text && k == 0 {
                assert(items[0] == JsonModel::Text(s));
            } else {
                let at = if items[0] is Text {
                    k - 1
                } else {
                    k
                };
                assert(more[at] == s);
                assert(more.contains(s));
                let j = choose|j: int| 0 <= j < rest.len() && rest[j] == JsonModel::Text(s);
                assert(items[j + 1] == JsonModel::Text(s));
            }
        }
    }
}

/// A list without its first item keeps of the rest what it kept with it.
proof fn lemma_filter_front(x: JsonModel, rest: Seq<JsonModel>, p: spec_fn(JsonModel) -> bool)
    ensures
        (seq![x] + rest).filter(p) == (if p(x) {
            seq![x] + rest.filter(p)
        } else {
            rest.filter(p)
        }),
    decreases rest.len(),
{
    reveal(Seq::filter);
    let all = seq![x] + rest;
    if rest.len() == 0 {
        reveal_with_fuel(Seq::filter, 2);
        assert(all.drop_last() =~= Seq::empty());
        assert(all.filter(p) =~= if p(x) {
            seq![x] + rest.filter(p)
        } else {
            rest.filter(p)
        });
    } else {
        assert(all.drop_last() =~= seq![x] + rest.drop_last());
        lemma_filter_front(x, rest.drop_last(), p);
        assert(all.filter(p) =~= if p(x) {
            seq![x] + rest.filter(p)
        } else {
            rest.filter(p)
        });
    }
}

/// The text in a member of a member is read through both, and is none where either is not
/// there, the outer one is no object or the inner one no text.
pub proof fn inner_member_is_read(
    members: Seq<(Seq<char>, JsonModel)>,
    outer: Seq<char>,
    inner: Seq<(Seq<char>, JsonModel)>,
    name: Seq<char>,
    v: JsonModel,
)
    requires
        has_member(members, outer, JsonModel::Object(inner)),
    ensures
        has_member(inner, name, v) ==> JsonModel::Object(members).inner_text(outer, name) == (
        match v {
            JsonModel::Text(s) => Some(s),
            _ => None,
        }),
        has_member(inner, name, v) ==> JsonModel::Object(members).inner_flag(outer, name) == (v
            == JsonModel::Bool(true)),
        lacks_member(inner, name) ==> JsonModel::Object(members).inner_text(outer, name) is None
            && !JsonModel::Object(members).inner_flag(outer, name),
{
    lookup_gives_the_member(JsonModel::Object(members), outer, JsonModel::Object(inner));
    lookup_gives_the_member(JsonModel::Object(inner), name, v);
}

/// The texts in a member that is a list are those of the list; there are none where the
/// member is missing or no list.
pub proof fn member_texts_are_read(
    members: Seq<(Seq<char>, JsonModel)>,
    name: Seq<char>,
    v: JsonModel,
)
    ensures
        has_member(members, name, v) && v is Array ==> JsonModel::Object(members).texts_field(name)
            == v->Array_0.filter(|m: JsonModel| m is Text).map_values(|m: JsonModel| m->Text_0),
        has_member(members, name, v) && !(v is Array) ==> JsonModel::Object(members).texts_field(
            name,
        ) == Seq::<Seq<char>>::empty(),
        lacks_member(members, name) ==> JsonModel::Object(members).texts_field(name) == Seq::<
            Seq<char>,
        >::empty(),
{
    lookup_gives_the_member(JsonModel::Object(members), name, v);
    if v is Array {
        texts_are_those_in_the_list(v->Array_0);
    }
}

/// Where every item of a list is a text, the texts are those of the items, one for each.
pub proof fn lemma_all_texts(items: Seq<JsonModel>)
    requires
        forall|i: int| 0 <= i < items.len() ==> (#[trigger] items[i]) is Text,
    ensures
        texts_among(items).len() == items.len(),
        forall|i: int|
            0 <= i < items.len() ==> (#[trigger] texts_among(items)[i]) == items[i]->Text_0,
    decreases items.len(),
{
    if items.len() > 0 {
        let rest = items.skip(1);
        assert(items[0] is Text);
        assert forall|i: int| 0 <= i < rest.len() implies (#[trigger] rest[i]) is Text by {
            assert(items[i + 1] is Text);
        }
        lemma_all_texts(rest);
        assert forall|i: int| 0 <= i < items.len() implies (#[trigger] texts_among(items)[i])
            == items[i]->Text_0 by {
            if i > 0 {
                assert(texts_among(items)[i] == texts_among(rest)[i - 1]);
                assert(rest[i - 1] == items[i]);
            }
        }
    }
}

} // verus!
