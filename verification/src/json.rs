use vstd::prelude::*;
use vstd::string::*;

verus! {

/// A JSON document, as read by the service. Numbers keep their decimal text;
/// object members are kept in the order the parser hands them over.
#[derive(Debug)]
pub enum JsonValue {
    Null,
    Bool(bool),
    Number(String),
    Str(String),
    Array(Vec<JsonValue>),
    Object(Vec<(String, JsonValue)>),
}

/// Model of a [`JsonValue`].
pub enum JsonView {
    Null,
    Bool(bool),
    Number(Seq<char>),
    Str(Seq<char>),
    Array(Seq<JsonView>),
    Object(Seq<(Seq<char>, JsonView)>),
}

pub open spec fn json_view(v: JsonValue) -> JsonView
    decreases v,
{
    match v {
        JsonValue::Null => JsonView::Null,
        JsonValue::Bool(b) => JsonView::Bool(b),
        JsonValue::Number(n) => JsonView::Number(n@),
        JsonValue::Str(s) => JsonView::Str(s@),
        JsonValue::Array(items) => JsonView::Array(items_view(items@)),
        JsonValue::Object(entries) => JsonView::Object(entries_view(entries@)),
    }
}

pub open spec fn items_view(s: Seq<JsonValue>) -> Seq<JsonView>
    decreases s,
{
    if s.len() == 0 {
        Seq::empty()
    } else {
        items_view(s.drop_last()).push(json_view(s.last()))
    }
}

pub open spec fn entries_view(s: Seq<(String, JsonValue)>) -> Seq<(Seq<char>, JsonView)>
    decreases s,
{
    if s.len() == 0 {
        Seq::empty()
    } else {
        entries_view(s.drop_last()).push((s.last().0@, json_view(s.last().1)))
    }
}

impl View for JsonValue {
    type V = JsonView;

    open spec fn view(&self) -> JsonView {
        json_view(*self)
    }
}


/// The model of an optional document.
pub open spec fn opt_json_view(r: Option<JsonValue>) -> Option<JsonView> {
    match r {
        Some(v) => Some(v@),
        None => None,
    }
}

/// The model of an optional reference into a document; an absent value reads as `null`,
/// as indexing a `serde_json::Value` does.
pub open spec fn ref_view(r: Option<&JsonValue>) -> JsonView {
    match r {
        Some(v) => v@,
        None => JsonView::Null,
    }
}

/// The value of member `key` of an object (the first member with that key), or `null`.
pub open spec fn entries_lookup(es: Seq<(Seq<char>, JsonView)>, key: Seq<char>) -> JsonView
    decreases es.len(),
{
    if es.len() == 0 {
        JsonView::Null
    } else if es[0].0 == key {
        es[0].1
    } else {
        entries_lookup(es.drop_first(), key)
    }
}

/// The member `key` of an object (the first with that key), or `None`.
pub open spec fn entries_get(es: Seq<(Seq<char>, JsonView)>, key: Seq<char>) -> Option<JsonView>
    decreases es.len(),
{
    if es.len() == 0 {
        None
    } else if es[0].0 == key {
        Some(es[0].1)
    } else {
        entries_get(es.drop_first(), key)
    }
}

/// `v.get(key)`: the member `key` of an object, `None` for a missing member or a non-object.
pub open spec fn json_member(v: JsonView, key: Seq<char>) -> Option<JsonView> {
    match v {
        JsonView::Object(es) => entries_get(es, key),
        _ => None,
    }
}

/// One step of the JSON pointer token `0`: member `"0"` of an object, element 0 of an array.
pub open spec fn json_step_zero(v: JsonView) -> Option<JsonView> {
    match v {
        JsonView::Object(es) => entries_get(es, "0"@),
        JsonView::Array(xs) => if xs.len() > 0 { Some(xs[0]) } else { None },
        _ => None,
    }
}

/// The model of an optional reference into a document, `None` kept apart from `null`.
pub open spec fn opt_ref_view(r: Option<&JsonValue>) -> Option<JsonView> {
    match r {
        Some(v) => Some(v@),
        None => None,
    }
}

/// `v[key]`: the member `key` of an object, `null` for anything else.
pub open spec fn json_field(v: JsonView, key: Seq<char>) -> JsonView {
    match v {
        JsonView::Object(es) => entries_lookup(es, key),
        _ => JsonView::Null,
    }
}

/// `v[i]`: element `i` of an array, `null` for anything else.
pub open spec fn json_index(v: JsonView, i: int) -> JsonView {
    match v {
        JsonView::Array(xs) => if 0 <= i < xs.len() { xs[i] } else { JsonView::Null },
        _ => JsonView::Null,
    }
}

/// `v.as_str()`.
pub open spec fn json_str(v: JsonView) -> Option<Seq<char>> {
    match v {
        JsonView::Str(s) => Some(s),
        _ => None,
    }
}

/// `v.as_str().unwrap_or("")`.
pub open spec fn json_str_or_empty(v: JsonView) -> Seq<char> {
    match v {
        JsonView::Str(s) => s,
        _ => Seq::empty(),
    }
}

/// `v.as_bool()`.
pub open spec fn json_bool(v: JsonView) -> Option<bool> {
    match v {
        JsonView::Bool(b) => Some(b),
        _ => None,
    }
}

pub proof fn lemma_items_view(s: Seq<JsonValue>)
    ensures
        items_view(s).len() == s.len(),
        forall|i: int| 0 <= i < s.len() ==> #[trigger] items_view(s)[i] == json_view(s[i]),
    decreases s.len(),
{
    if s.len() > 0 {
        lemma_items_view(s.drop_last());
    }
}

pub proof fn lemma_entries_view(s: Seq<(String, JsonValue)>)
    ensures
        entries_view(s).len() == s.len(),
        forall|i: int| 0 <= i < s.len() ==> #[trigger] entries_view(s)[i] == (s[i].0@, json_view(s[i].1)),
    decreases s.len(),
{
    if s.len() > 0 {
        lemma_entries_view(s.drop_last());
    }
}

impl JsonValue {
    /// `self[key]`, by reference; `None` stands for `null`.
    pub fn field<'a>(&'a self, key: &str) -> (r: Option<&'a JsonValue>)
        ensures
            ref_view(r) == json_field(self@, key@),
    {
        match self {
            JsonValue::Object(entries) => {
                proof {
                    lemma_entries_view(entries@);
                }
                let ghost es = entries_view(entries@);
                assert(self@ == JsonView::Object(es));
                assert(es.skip(0) =~= es);
                let mut i: usize = 0;
                while i < entries.len()
                    invariant
                        self@ == JsonView::Object(es),
                        es == entries_view(entries@),
                        es.len() == entries@.len(),
                        forall|j: int| 0 <= j < es.len() ==> #[trigger] es[j] == (entries@[j].0@, json_view(entries@[j].1)),
                        0 <= i <= entries.len(),
                        entries_lookup(es, key@) == entries_lookup(es.skip(i as int), key@),
                    decreases entries.len() - i,
                {
                    let ghost rest = es.skip(i as int);
                    assert(rest.len() > 0);
                    assert(rest[0] == es[i as int]);
                    if crate::text::str_eq(entries[i].0.as_str(), key) {
                        assert(rest[0].0 == key@);
                        assert(entries_lookup(rest, key@) == rest[0].1);
                        assert(rest[0].1 == json_view(entries@[i as int].1));
                        return Some(&entries[i].1);
                    }
                    assert(rest.drop_first() =~= es.skip(i + 1));
                    i = i + 1;
                }
                None
            },
            _ => None,
        }
    }

    /// `self.get(key)`: the member `key` of an object, `None` when missing.
    pub fn member<'a>(&'a self, key: &str) -> (r: Option<&'a JsonValue>)
        ensures
            opt_ref_view(r) == json_member(self@, key@),
    {
        match self {
            JsonValue::Object(entries) => {
                proof {
                    lemma_entries_view(entries@);
                }
                let ghost es = entries_view(entries@);
                assert(self@ == JsonView::Object(es));
                assert(es.skip(0) =~= es);
                let mut i: usize = 0;
                while i < entries.len()
                    invariant
                        self@ == JsonView::Object(es),
                        es == entries_view(entries@),
                        es.len() == entries@.len(),
                        forall|j: int| 0 <= j < es.len() ==> #[trigger] es[j] == (entries@[j].0@, json_view(entries@[j].1)),
                        0 <= i <= entries.len(),
                        entries_get(es, key@) == entries_get(es.skip(i as int), key@),
                    decreases entries.len() - i,
                {
                    let ghost rest = es.skip(i as int);
                    assert(rest.len() > 0);
                    assert(rest[0] == es[i as int]);
                    if crate::text::str_eq(entries[i].0.as_str(), key) {
                        assert(rest[0].0 == key@);
                        assert(entries_get(rest, key@) == Some(rest[0].1));
                        return Some(&entries[i].1);
                    }
                    assert(rest.drop_first() =~= es.skip(i + 1));
                    i = i + 1;
                }
                None
            },
            _ => None,
        }
    }

    /// One step of the JSON pointer token `0`.
    pub fn step_zero<'a>(&'a self) -> (r: Option<&'a JsonValue>)
        ensures
            opt_ref_view(r) == json_step_zero(self@),
    {
        match self {
            JsonValue::Object(_) => self.member("0"),
            JsonValue::Array(items) => {
                proof {
                    lemma_items_view(items@);
                }
                if items.len() > 0 {
                    Some(&items[0])
                } else {
                    None
                }
            },
            _ => None,
        }
    }

    /// `self[i]`, by reference; `None` stands for `null`.
    pub fn element<'a>(&'a self, i: usize) -> (r: Option<&'a JsonValue>)
        ensures
            ref_view(r) == json_index(self@, i as int),
    {
        match self {
            JsonValue::Array(items) => {
                proof {
                    lemma_items_view(items@);
                }
                if i < items.len() {
                    Some(&items[i])
                } else {
                    None
                }
            },
            _ => None,
        }
    }

    /// `self.as_str()`.
    pub fn as_str(&self) -> (r: Option<&str>)
        ensures
            match r {
                Some(s) => json_str(self@) == Some(s@),
                None => json_str(self@) is None,
            },
    {
        match self {
            JsonValue::Str(s) => Some(s.as_str()),
            _ => None,
        }
    }

    /// `self.as_bool()`.
    pub fn as_bool(&self) -> (r: Option<bool>)
        ensures
            r == json_bool(self@),
    {
        match self {
            JsonValue::Bool(b) => Some(*b),
            _ => None,
        }
    }
}

impl JsonValue {
    /// A copy of the document.
    pub fn duplicate(&self) -> (r: JsonValue)
        ensures
            r@ == self@,
        decreases self,
    {
        match self {
            JsonValue::Null => JsonValue::Null,
            JsonValue::Bool(b) => JsonValue::Bool(*b),
            JsonValue::Number(n) => JsonValue::Number(String::from_str(n.as_str())),
            JsonValue::Str(s) => JsonValue::Str(String::from_str(s.as_str())),
            JsonValue::Array(items) => {
                let mut out: Vec<JsonValue> = Vec::new();
                let mut i: usize = 0;
                proof {
                    lemma_items_view(items@);
                }
                while i < items.len()
                    invariant
                        *self == JsonValue::Array(*items),
                        i <= items@.len(),
                        items_view(out@) == items_view(items@).take(i as int),
                        items_view(items@).len() == items@.len(),
                        forall|j: int| 0 <= j < items@.len() ==> #[trigger] items_view(items@)[j] == json_view(items@[j]),
                    decreases items.len() - i,
                {
                    proof {
                        assert(decreases_to!(*self => (*self)->Array_0));
                        assert(decreases_to!(*items => items@));
                        assert(decreases_to!(items@ => items@[i as int]));
                        assert(decreases_to!(self => items@[i as int]));
                    }
                    let x = items[i].duplicate();
                    let ghost before = out@;
                    out.push(x);
                    proof {
                        assert(out@.drop_last() =~= before);
                        assert(items_view(items@).take(i + 1) =~= items_view(items@).take(i as int).push(x@));
                    }
                    i = i + 1;
                }
                assert(items_view(items@).take(items@.len() as int) =~= items_view(items@));
                JsonValue::Array(out)
            },
            JsonValue::Object(entries) => {
                let mut out: Vec<(String, JsonValue)> = Vec::new();
                let mut i: usize = 0;
                proof {
                    lemma_entries_view(entries@);
                }
                while i < entries.len()
                    invariant
                        *self == JsonValue::Object(*entries),
                        i <= entries@.len(),
                        entries_view(out@) == entries_view(entries@).take(i as int),
                        entries_view(entries@).len() == entries@.len(),
                        forall|j: int| 0 <= j < entries@.len() ==> #[trigger] entries_view(entries@)[j] == (entries@[j].0@, json_view(entries@[j].1)),
                    decreases entries.len() - i,
                {
                    proof {
                        assert(decreases_to!(*self => (*self)->Object_0));
                        assert(decreases_to!(*entries => entries@));
                        assert(decreases_to!(entries@ => entries@[i as int]));
                        assert(decreases_to!(entries@[i as int] => entries@[i as int].1));
                        assert(decreases_to!(self => entries@[i as int].1));
                    }
                    let x = entries[i].1.duplicate();
                    let k = String::from_str(entries[i].0.as_str());
                    let ghost before = out@;
                    out.push((k, x));
                    proof {
                        assert(out@.drop_last() =~= before);
                        assert(entries_view(entries@).take(i + 1) =~= entries_view(entries@).take(i as int).push((k@, x@)));
                    }
                    i = i + 1;
                }
                assert(entries_view(entries@).take(entries@.len() as int) =~= entries_view(entries@));
                JsonValue::Object(out)
            },
        }
    }
}

/// `v[key]` where `v` may itself stand for `null`.
pub fn field_of<'a>(v: Option<&'a JsonValue>, key: &str) -> (r: Option<&'a JsonValue>)
    ensures
        ref_view(r) == json_field(ref_view(v), key@),
{
    match v {
        Some(x) => x.field(key),
        None => None,
    }
}

/// `v[i]` where `v` may itself stand for `null`.
pub fn element_of<'a>(v: Option<&'a JsonValue>, i: usize) -> (r: Option<&'a JsonValue>)
    ensures
        ref_view(r) == json_index(ref_view(v), i as int),
{
    match v {
        Some(x) => x.element(i),
        None => None,
    }
}

/// `v.as_str()` where `v` may stand for `null`.
pub fn str_of<'a>(v: Option<&'a JsonValue>) -> (r: Option<&'a str>)
    ensures
        match r {
            Some(s) => json_str(ref_view(v)) == Some(s@),
            None => json_str(ref_view(v)) is None,
        },
{
    match v {
        Some(x) => x.as_str(),
        None => None,
    }
}

/// `v.as_str().unwrap_or("")` where `v` may stand for `null`.
pub fn str_or_empty<'a>(v: Option<&'a JsonValue>) -> (r: &'a str)
    ensures
        r@ == json_str_or_empty(ref_view(v)),
{
    match str_of(v) {
        Some(s) => s,
        None => {
            let e = "";
            proof {
                reveal_strlit("");
            }
            assert(e@ =~= Seq::<char>::empty());
            e
        },
    }
}

/// `v.as_bool()` where `v` may stand for `null`.
pub fn bool_of(v: Option<&JsonValue>) -> (r: Option<bool>)
    ensures
        r == json_bool(ref_view(v)),
{
    match v {
        Some(x) => x.as_bool(),
        None => None,
    }
}

#[verifier::external_type_specification]
#[verifier::external_body]
pub struct ExSerdeJsonValue(serde_json::Value);

/// Names the document that `serde_json::from_slice::<serde_json::Value>` reads
/// from a byte string (`None` where it reports an error).
pub uninterp spec fn json_parse(bytes: Seq<u8>) -> Option<JsonView>;

/// Converts a `serde_json::Value`, variant by variant, into the library's model.
#[verifier::external_body]
pub(crate) fn from_serde(v: serde_json::Value) -> JsonValue {
    match v {
        serde_json::Value::Null => JsonValue::Null,
        serde_json::Value::Bool(b) => JsonValue::Bool(b),
        serde_json::Value::Number(n) => JsonValue::Number(n.to_string()),
        serde_json::Value::String(s) => JsonValue::Str(s),
        serde_json::Value::Array(a) => JsonValue::Array(a.into_iter().map(from_serde).collect()),
        serde_json::Value::Object(m) => JsonValue::Object(m.into_iter().map(|(k, x)| (k, from_serde(x))).collect()),
    }
}

/// Trusted: `serde_json::from_slice::<serde_json::Value>` on `bytes`; the
/// contract claims only that the document read is the one `json_parse` names.
#[verifier::external_body]
pub(crate) fn parse_json(bytes: &[u8]) -> (r: Option<JsonValue>)
    ensures
        opt_json_view(r) == json_parse(bytes@),
{
    match serde_json::from_slice::<serde_json::Value>(bytes) {
        Ok(v) => Some(from_serde(v)),
        Err(_) => None,
    }
}

} // verus!
