//! JSON documents, as far as the library reads them.

use vstd::prelude::*;
use crate::text;

verus! {

/// A JSON value. A number is kept as it is written.
#[derive(Debug)]
pub enum Json {
    Null,
    Bool(bool),
    Number(String),
    Text(String),
    List(Vec<Json>),
    Table(Vec<(String, Json)>),
}

/// A JSON value, taken by its characters.
pub enum JsonModel {
    Null,
    Bool(bool),
    Number(Seq<char>),
    Text(Seq<char>),
    List(Seq<JsonModel>),
    Table(Seq<(Seq<char>, JsonModel)>),
}

impl Json {
    pub open spec fn model(self) -> JsonModel
        decreases self,
    {
        match self {
            Json::Null => JsonModel::Null,
            Json::Bool(b) => JsonModel::Bool(b),
            Json::Number(n) => JsonModel::Number(n@),
            Json::Text(s) => JsonModel::Text(s@),
            Json::List(v) => JsonModel::List(
                Seq::new(
                    v@.len(),
                    |i: int|
                        if 0 <= i < v@.len() {
                            v@[i].model()
                        } else {
                            JsonModel::Null
                        },
                ),
            ),
            Json::Table(v) => JsonModel::Table(
                Seq::new(
                    v@.len(),
                    |i: int|
                        if 0 <= i < v@.len() {
                            (v@[i].0@, v@[i].1.model())
                        } else {
                            (Seq::empty(), JsonModel::Null)
                        },
                ),
            ),
        }
    }
}

impl View for Json {
    type V = JsonModel;

    open spec fn view(&self) -> JsonModel {
        self.model()
    }
}

/// `serde_json::Value`: a document as `serde_json` holds it. What is in it is
/// told by [`contents`] alone.
#[verifier::external_type_specification]
#[verifier::external_body]
pub struct ExValue(serde_json::Value);

/// What a `serde_json::Value` holds.
pub uninterp spec fn contents(v: serde_json::Value) -> JsonModel;

/// The document that a sequence of bytes writes, as `serde_json::from_slice`
/// reads it.
pub uninterp spec fn json_document(bytes: Seq<u8>) -> Option<JsonModel>;

/// `serde_json::from_slice` into a `serde_json::Value`: whether the bytes are a
/// JSON document, and which, depends on them alone.
#[verifier::external_body]
fn value_from_slice(bytes: &[u8]) -> (r: Option<serde_json::Value>)
    ensures
        match r {
            Some(v) => json_document(bytes@) == Some(contents(v)),
            None => json_document(bytes@) is None,
        },
{
    serde_json::from_slice::<serde_json::Value>(bytes).ok()
}

/// The variants of `serde_json::Value`, one for one, with what they hold.
#[verifier::external_body]
fn json_of(v: serde_json::Value) -> (r: Json)
    ensures
        r@ == contents(v),
{
    match v {
        serde_json::Value::Null => Json::Null,
        serde_json::Value::Bool(b) => Json::Bool(b),
        serde_json::Value::Number(n) => Json::Number(n.to_string()),
        serde_json::Value::String(s) => Json::Text(s),
        serde_json::Value::Array(a) => Json::List(a.into_iter().map(json_of).collect()),
        serde_json::Value::Object(o) => Json::Table(
            o.into_iter().map(|e| (e.0, json_of(e.1))).collect(),
        ),
    }
}

/// A document that may be missing, taken by its view.
pub open spec fn opt_model(j: Option<Json>) -> Option<JsonModel> {
    match j {
        Some(x) => Some(x@),
        None => None,
    }
}

/// Read a JSON document.
pub fn parse(bytes: &[u8]) -> (r: Option<Json>)
    ensures
        opt_model(r) == json_document(bytes@),
{
    match value_from_slice(bytes) {
        Some(v) => Some(json_of(v)),
        None => None,
    }
}

/// The entry of `t` under `key`.
pub open spec fn entry(t: Seq<(Seq<char>, JsonModel)>, key: Seq<char>) -> Option<JsonModel>
    decreases t.len(),
{
    if t.len() == 0 {
        None
    } else {
        match entry(t.drop_last(), key) {
            Some(v) => Some(v),
            None => if t.last().0 == key {
                Some(t.last().1)
            } else {
                None
            },
        }
    }
}

/// The member `key` of `j`, where `j` is a table that has one.
pub open spec fn member(j: JsonModel, key: Seq<char>) -> Option<JsonModel> {
    match j {
        JsonModel::Table(t) => entry(t, key),
        _ => None,
    }
}

/// The value that a path of keys leads to.
pub open spec fn at_path(j: JsonModel, path: Seq<Seq<char>>) -> Option<JsonModel>
    decreases path.len(),
{
    if path.len() == 0 {
        Some(j)
    } else {
        match at_path(j, path.drop_last()) {
            Some(v) => member(v, path.last()),
            None => None,
        }
    }
}

/// The text that `j` is, where it is one.
pub open spec fn text_of(j: Option<JsonModel>) -> Option<Seq<char>> {
    match j {
        Some(JsonModel::Text(s)) => Some(s),
        _ => None,
    }
}

/// A reference that may be missing, taken by its view.
pub open spec fn opt_ref(j: Option<&Json>) -> Option<JsonModel> {
    match j {
        Some(x) => Some(x@),
        None => None,
    }
}

proof fn lemma_entry_stays(t: Seq<(Seq<char>, JsonModel)>, key: Seq<char>, k: int)
    requires
        0 <= k <= t.len(),
        entry(t.take(k), key) is Some,
    ensures
        entry(t, key) == entry(t.take(k), key),
    decreases t.len() - k,
{
    if k < t.len() {
        assert(t.take(k + 1).drop_last() =~= t.take(k));
        lemma_entry_stays(t, key, k + 1);
    } else {
        assert(t.take(k) =~= t);
    }
}

impl Json {
    /// The member `key`, where this is a table that has one.
    pub fn get<'a>(&'a self, key: &str) -> (r: Option<&'a Json>)
        ensures
            opt_ref(r) == member(self@, key@),
    {
        match self {
            Json::Table(v) => {
                let ghost t = self@->Table_0;
                let mut i: usize = 0;
                while i < v.len()
                    invariant
                        i <= v@.len(),
                        self@ == JsonModel::Table(t),
                        t.len() == v@.len(),
                        forall|k: int|
                            0 <= k < v@.len() ==> #[trigger] t[k] == (v@[k].0@, v@[k].1@),
                        entry(t.take(i as int), key@) is None,
                    decreases v@.len() - i,
                {
                    proof {
                        assert(t.take(i + 1).drop_last() =~= t.take(i as int));
                        assert(t.take(i + 1).last() == t[i as int]);
                    }
                    if text::eq(v[i].0.as_str(), key) {
                        proof {
                            lemma_entry_stays(t, key@, i + 1);
                        }
                        return Some(&v[i].1);
                    }
                    i += 1;
                }
                assert(t.take(t.len() as int) =~= t);
                None
            },
            _ => None,
        }
    }

    /// The text, where this is one.
    pub fn as_str<'a>(&'a self) -> (r: Option<&'a str>)
        ensures
            match r {
                Some(s) => self@ == JsonModel::Text(s@),
                None => !(self@ is Text),
            },
    {
        match self {
            Json::Text(s) => Some(s.as_str()),
            _ => None,
        }
    }

    /// The value that a path of keys leads to.
    pub fn at<'a>(&'a self, path: &[&str]) -> (r: Option<&'a Json>)
        ensures
            opt_ref(r) == at_path(self@, text::strs(path@)),
    {
        let ghost keys = text::strs(path@);
        let mut here: &'a Json = self;
        let mut i: usize = 0;
        assert(keys.take(0) =~= Seq::<Seq<char>>::empty());
        while i < path.len()
            invariant
                i <= path@.len(),
                keys == text::strs(path@),
                at_path(self@, keys.take(i as int)) == Some(here@),
            decreases path@.len() - i,
        {
            proof {
                assert(keys.take(i + 1).drop_last() =~= keys.take(i as int));
                assert(keys.take(i + 1).last() == path@[i as int]@);
            }
            match here.get(path[i]) {
                Some(next) => {
                    here = next;
                },
                None => {
                    proof {
                        lemma_no_path(self@, keys, i + 1);
                    }
                    return None;
                },
            }
            i += 1;
        }
        assert(keys.take(keys.len() as int) =~= keys);
        Some(here)
    }

    /// The text that a path of keys leads to.
    pub fn text_at<'a>(&'a self, path: &[&str]) -> (r: Option<&'a str>)
        ensures
            match r {
                Some(s) => text_of(at_path(self@, text::strs(path@))) == Some(s@),
                None => text_of(at_path(self@, text::strs(path@))) is None,
            },
    {
        match self.at(path) {
            Some(v) => v.as_str(),
            None => None,
        }
    }
}

/// A path that leads nowhere leads nowhere when it goes on.
proof fn lemma_no_path(j: JsonModel, path: Seq<Seq<char>>, k: int)
    requires
        0 <= k <= path.len(),
        at_path(j, path.take(k)) is None,
    ensures
        at_path(j, path) is None,
    decreases path.len() - k,
{
    if k < path.len() {
        assert(path.take(k + 1).drop_last() =~= path.take(k));
        lemma_no_path(j, path, k + 1);
    } else {
        assert(path.take(k) =~= path);
    }
}

/// Of several entries under one key the first counts; a key that no entry has
/// leads nowhere.
pub proof fn law_first_entry_counts(t: Seq<(Seq<char>, JsonModel)>, key: Seq<char>, k: int)
    ensures
        0 <= k < t.len() && t[k].0 == key && (forall|i: int|
            0 <= i < k ==> (#[trigger] t[i]).0 != key) ==> member(JsonModel::Table(t), key) == Some(
            t[k].1,
        ),
        (forall|i: int| 0 <= i < t.len() ==> (#[trigger] t[i]).0 != key) ==> member(
            JsonModel::Table(t),
            key,
        ) is None,
    decreases t.len(),
{
    if t.len() > 0 {
        let front = t.drop_last();
        assert(t[t.len() - 1] == t.last());
        law_first_entry_counts(front, key, k);
        if forall|i: int| 0 <= i < t.len() ==> (#[trigger] t[i]).0 != key {
            assert forall|i: int| 0 <= i < front.len() implies (#[trigger] front[i]).0 != key by {
                assert(t[i].0 != key);
            }
        }
        if 0 <= k < t.len() && t[k].0 == key && (forall|i: int|
            0 <= i < k ==> (#[trigger] t[i]).0 != key) {
            if k < t.len() - 1 {
                assert(front[k] == t[k]);
                assert forall|i: int| 0 <= i < k implies (#[trigger] front[i]).0 != key by {
                    assert(t[i].0 != key);
                }
            } else {
                assert forall|i: int| 0 <= i < front.len() implies (#[trigger] front[i]).0 != key by {
                    assert(t[i].0 != key);
                }
            }
        }
    }
}

/// A path leads from member to member; what is no table has none, and only a text
/// is a text.
pub proof fn law_paths_lead_from_member_to_member(
    j: JsonModel,
    path: Seq<Seq<char>>,
    key: Seq<char>,
)
    ensures
        at_path(j, Seq::empty()) == Some(j),
        at_path(j, path.push(key)) == (match at_path(j, path) {
            Some(v) => member(v, key),
            None => None,
        }),
        !(j is Table) ==> member(j, key) is None,
        j matches JsonModel::Text(s) ==> text_of(Some(j)) == Some(s),
        !(j is Text) ==> text_of(Some(j)) is None,
{
    assert(path.push(key).drop_last() =~= path);
}

} // verus!
