//! JSON documents as plain values.
//!
//! [`Json`] is the tree that the rest of the library reads and builds;
//! [`parse`] and [`compact`] / [`pretty`] carry it to and from text through
//! `serde_json`.

use crate::number::decimal_i64;
use crate::number::decimal_int;
use crate::setup::strip_laws::plain_json;
use crate::text::owned;
use crate::text::str_eq;
use crate::util::name_map::rising;
use serde_json::Value;
use vstd::prelude::*;
use vstd::utf8::encode_utf8;

verus! {

/// A JSON number in the shapes its readers ask for.
#[derive(Debug, PartialEq, Eq)]
pub struct JsonNumber {
    /// The number as `i64`, when it is an integer in that range.
    pub int: Option<i64>,
    /// The number as `u64`, when it is an integer in that range.
    pub uint: Option<u64>,
    /// The bits of the number as an IEEE 754 double.
    pub bits: Option<u64>,
    /// The number as written by `serde_json`.
    pub text: String,
}

/// A JSON document.
#[derive(Debug, PartialEq, Eq)]
pub enum Json {
    Null,
    Bool(bool),
    Number(JsonNumber),
    Str(String),
    Array(Vec<Json>),
    Object(Vec<Member>),
}

/// One `"key": value` pair of an object.
#[derive(Debug, PartialEq, Eq)]
pub struct Member {
    pub key: String,
    pub value: Json,
}

/// The mathematical value of a [`JsonNumber`].
pub struct NumberView {
    pub int: Option<i64>,
    pub uint: Option<u64>,
    pub bits: Option<u64>,
    pub text: Seq<char>,
}

/// The mathematical value of a [`Json`].
#[verifier::ext_equal]
pub enum JsonView {
    Null,
    Bool(bool),
    Number(NumberView),
    Str(Seq<char>),
    Array(Seq<JsonView>),
    Object(Seq<(Seq<char>, JsonView)>),
}

impl View for JsonNumber {
    type V = NumberView;

    open spec fn view(&self) -> NumberView {
        NumberView { int: self.int, uint: self.uint, bits: self.bits, text: self.text@ }
    }
}

/// The mathematical value of a document.
pub open spec fn json_view(j: Json) -> JsonView
    decreases j,
{
    match j {
        Json::Null => JsonView::Null,
        Json::Bool(b) => JsonView::Bool(b),
        Json::Number(n) => JsonView::Number(n@),
        Json::Str(s) => JsonView::Str(s@),
        Json::Array(a) => JsonView::Array(
            Seq::new(
                a@.len(),
                |i: int|
                    if 0 <= i < a@.len() {
                        json_view(a@[i])
                    } else {
                        JsonView::Null
                    },
            ),
        ),
        Json::Object(ms) => JsonView::Object(
            Seq::new(
                ms@.len(),
                |i: int|
                    if 0 <= i < ms@.len() {
                        (ms@[i].key@, json_view(ms@[i].value))
                    } else {
                        (Seq::empty(), JsonView::Null)
                    },
            ),
        ),
    }
}

impl View for Json {
    type V = JsonView;

    open spec fn view(&self) -> JsonView {
        json_view(*self)
    }
}

impl JsonView {
    /// The value of the first member named `key`, if this is an object that
    /// has one.
    pub open spec fn get(self, key: Seq<char>) -> Option<JsonView> {
        match self {
            JsonView::Object(ms) => member_of(ms, key),
            _ => None,
        }
    }

    /// The text, if this is a string.
    pub open spec fn as_str(self) -> Option<Seq<char>> {
        match self {
            JsonView::Str(s) => Some(s),
            _ => None,
        }
    }

    /// The elements, if this is an array.
    pub open spec fn as_array(self) -> Option<Seq<JsonView>> {
        match self {
            JsonView::Array(a) => Some(a),
            _ => None,
        }
    }

    /// The members, if this is an object.
    pub open spec fn as_object(self) -> Option<Seq<(Seq<char>, JsonView)>> {
        match self {
            JsonView::Object(ms) => Some(ms),
            _ => None,
        }
    }

    /// The bits of the number as a double, if this is a number.
    pub open spec fn as_bits(self) -> Option<u64> {
        match self {
            JsonView::Number(n) => n.bits,
            _ => None,
        }
    }

    /// The number, if this is an integer that an `i64` holds.
    pub open spec fn as_i64(self) -> Option<i64> {
        match self {
            JsonView::Number(n) => n.int,
            _ => None,
        }
    }

    /// The truth value, if this is one.
    pub open spec fn as_bool(self) -> Option<bool> {
        match self {
            JsonView::Bool(b) => Some(b),
            _ => None,
        }
    }

    /// The text of the member named `key`, if there is one and it is a string.
    pub open spec fn str_at(self, key: Seq<char>) -> Option<Seq<char>> {
        match self.get(key) {
            Some(v) => v.as_str(),
            None => None,
        }
    }

    /// The number of the member named `key`, if it is an integer in `i64`.
    pub open spec fn i64_at(self, key: Seq<char>) -> Option<i64> {
        match self.get(key) {
            Some(v) => v.as_i64(),
            None => None,
        }
    }
}

/// The value of the first member of `ms` named `key`.
pub open spec fn member_of(ms: Seq<(Seq<char>, JsonView)>, key: Seq<char>) -> Option<JsonView>
    decreases ms.len(),
{
    if ms.len() == 0 {
        None
    } else if ms[0].0 == key {
        Some(ms[0].1)
    } else {
        member_of(ms.drop_first(), key)
    }
}

/// A member whose name no earlier one has is what its name gives.
pub proof fn lemma_member_at(ms: Seq<(Seq<char>, JsonView)>, i: int, key: Seq<char>)
    requires
        0 <= i < ms.len(),
        ms[i].0 == key,
        forall|j: int| 0 <= j < i ==> (#[trigger] ms[j]).0 != key,
    ensures
        member_of(ms, key) == Some(ms[i].1),
        JsonView::Object(ms).get(key) == Some(ms[i].1),
    decreases i,
{
    if i > 0 {
        let rest = ms.drop_first();
        assert(ms[0].0 != key);
        assert forall|j: int| 0 <= j < i - 1 implies (#[trigger] rest[j]).0 != key by {
            assert(rest[j] == ms[j + 1]);
        }
        lemma_member_at(rest, i - 1, key);
    }
}

/// A name that no member has gives nothing.
pub proof fn lemma_member_absent(ms: Seq<(Seq<char>, JsonView)>, key: Seq<char>)
    requires
        forall|j: int| 0 <= j < ms.len() ==> (#[trigger] ms[j]).0 != key,
    ensures
        member_of(ms, key) is None,
        JsonView::Object(ms).get(key) is None,
    decreases ms.len(),
{
    if ms.len() > 0 {
        let rest = ms.drop_first();
        assert(ms[0].0 != key);
        assert forall|j: int| 0 <= j < rest.len() implies (#[trigger] rest[j]).0 != key by {
            assert(rest[j] == ms[j + 1]);
        }
        lemma_member_absent(rest, key);
    }
}

/// The number `n` as a JSON value.
pub open spec fn number_view(n: i64) -> JsonView {
    JsonView::Number(
        NumberView {
            int: Some(n),
            uint: if n >= 0 {
                Some(n as u64)
            } else {
                None
            },
            bits: None,
            text: decimal_int(n as int),
        },
    )
}

impl Json {
    /// The value of the first member named `key`.
    pub fn get(&self, key: &str) -> (r: Option<&Json>)
        ensures
            match r {
                Some(v) => self@.get(key@) == Some(v@),
                None => self@.get(key@) is None,
            },
    {
        match self {
            Json::Object(ms) => {
                let ghost views = self@->Object_0;
                let mut i: usize = 0;
                assert(views.skip(0) == views);
                while i < ms.len()
                    invariant
                        i <= ms.len(),
                        self@ == JsonView::Object(views),
                        *self == Json::Object(*ms),
                        views.len() == ms.len(),
                        member_of(views, key@) == member_of(views.skip(i as int), key@),
                    decreases ms.len() - i,
                {
                    let ghost rest = views.skip(i as int);
                    assert(rest[0] == views[i as int]);
                    assert(views[i as int] == (ms@[i as int].key@, ms@[i as int].value@));
                    if str_eq(ms[i].key.as_str(), key) {
                        return Some(&ms[i].value);
                    }
                    assert(rest.drop_first() == views.skip(i + 1));
                    i = i + 1;
                }
                None
            },
            _ => None,
        }
    }

    /// The text, if this is a string.
    pub fn as_str(&self) -> (r: Option<&str>)
        ensures
            match r {
                Some(s) => self@.as_str() == Some(s@),
                None => self@.as_str() is None,
            },
    {
        match self {
            Json::Str(s) => Some(s.as_str()),
            _ => None,
        }
    }

    /// The elements, if this is an array.
    pub fn as_array(&self) -> (r: Option<&Vec<Json>>)
        ensures
            match r {
                Some(a) => self@.as_array() == Some(views_of(a@)),
                None => self@.as_array() is None,
            },
    {
        match self {
            Json::Array(a) => {
                assert(self@->Array_0 =~= views_of(a@));
                Some(a)
            },
            _ => None,
        }
    }

    /// The members, if this is an object.
    pub fn as_object(&self) -> (r: Option<&Vec<Member>>)
        ensures
            match r {
                Some(ms) => self@.as_object() == Some(members_view(ms@)),
                None => self@.as_object() is None,
            },
    {
        match self {
            Json::Object(ms) => {
                assert(self@->Object_0 =~= members_view(ms@));
                Some(ms)
            },
            _ => None,
        }
    }

    /// The bits of the number as a double, if this is a number.
    pub fn as_bits(&self) -> (r: Option<u64>)
        ensures
            r == self@.as_bits(),
    {
        match self {
            Json::Number(n) => n.bits,
            _ => None,
        }
    }

    /// The number, if this is an integer that an `i64` holds.
    pub fn as_i64(&self) -> (r: Option<i64>)
        ensures
            r == self@.as_i64(),
    {
        match self {
            Json::Number(n) => n.int,
            _ => None,
        }
    }

    /// The truth value, if this is one.
    pub fn as_bool(&self) -> (r: Option<bool>)
        ensures
            r == self@.as_bool(),
    {
        match self {
            Json::Bool(b) => Some(*b),
            _ => None,
        }
    }

    /// The text of the member named `key`.
    pub fn str_at(&self, key: &str) -> (r: Option<&str>)
        ensures
            match r {
                Some(s) => self@.str_at(key@) == Some(s@),
                None => self@.str_at(key@) is None,
            },
    {
        match self.get(key) {
            Some(v) => v.as_str(),
            None => None,
        }
    }

    /// The number of the member named `key`.
    pub fn i64_at(&self, key: &str) -> (r: Option<i64>)
        ensures
            r == self@.i64_at(key@),
    {
        match self.get(key) {
            Some(v) => v.as_i64(),
            None => None,
        }
    }

    /// The string `s` as a JSON value.
    pub fn string(s: &str) -> (r: Json)
        ensures
            r@ == JsonView::Str(s@),
    {
        Json::Str(owned(s))
    }

    /// The number `n` as a JSON value.
    pub fn number(n: i64) -> (r: Json)
        ensures
            r@ == number_view(n),
    {
        Json::Number(
            JsonNumber {
                int: Some(n),
                uint: if n >= 0 {
                    Some(n as u64)
                } else {
                    None
                },
                bits: None,
                text: decimal_i64(n),
            },
        )
    }

    /// An independent copy of the document.
    pub fn copy(&self) -> (r: Json)
        ensures
            r@ == self@,
        decreases self,
    {
        match self {
            Json::Null => Json::Null,
            Json::Bool(b) => Json::Bool(*b),
            Json::Number(n) => Json::Number(
                JsonNumber { int: n.int, uint: n.uint, bits: n.bits, text: owned(n.text.as_str()) },
            ),
            Json::Str(s) => Json::Str(owned(s.as_str())),
            Json::Array(a) => {
                let mut out: Vec<Json> = Vec::new();
                let mut i: usize = 0;
                while i < a.len()
                    invariant
                        i <= a.len(),
                        *self == Json::Array(*a),
                        out.len() == i,
                        forall|k: int| 0 <= k < i ==> (#[trigger] out@[k])@ == a@[k]@,
                    decreases a.len() - i,
                {
                    proof {
                        assert(decreases_to!(self->Array_0 => self->Array_0@));
                        assert(decreases_to!(self->Array_0@ => self->Array_0@[i as int]));
                    }
                    let v = a[i].copy();
                    out.push(v);
                    i = i + 1;
                }
                let r = Json::Array(out);
                assert(r@->Array_0 =~= self@->Array_0);
                r
            },
            Json::Object(ms) => {
                let mut out: Vec<Member> = Vec::new();
                let mut i: usize = 0;
                while i < ms.len()
                    invariant
                        i <= ms.len(),
                        *self == Json::Object(*ms),
                        out.len() == i,
                        forall|k: int|
                            0 <= k < i ==> (#[trigger] out@[k]).key@ == ms@[k].key@
                                && out@[k].value@ == ms@[k].value@,
                    decreases ms.len() - i,
                {
                    proof {
                        assert(decreases_to!(self->Object_0 => self->Object_0@));
                        assert(decreases_to!(self->Object_0@ => self->Object_0@[i as int]));
                    }
                    let v = ms[i].value.copy();
                    out.push(Member { key: owned(ms[i].key.as_str()), value: v });
                    i = i + 1;
                }
                let r = Json::Object(out);
                assert(r@->Object_0 =~= self@->Object_0);
                r
            },
        }
    }
}

/// The pair `"key": value`.
pub fn member(key: &str, value: Json) -> (r: Member)
    ensures
        r.key@ == key@,
        r.value == value,
{
    Member { key: owned(key), value }
}

/// The members of an object, by their views.
pub open spec fn members_view(ms: Seq<Member>) -> Seq<(Seq<char>, JsonView)> {
    Seq::new(ms.len(), |i: int| (ms[i].key@, ms[i].value@))
}

/// The object with these members.
pub fn object(ms: Vec<Member>) -> (r: Json)
    ensures
        r@ == JsonView::Object(members_view(ms@)),
{
    let r = Json::Object(ms);
    assert(r@->Object_0 =~= members_view(ms@));
    r
}

/// The array with these elements.
pub fn array(items: Vec<Json>) -> (r: Json)
    ensures
        r@ == JsonView::Array(views_of(items@)),
{
    let r = Json::Array(items);
    assert(r@->Array_0 =~= views_of(items@));
    r
}

/// `ms` with the member named `key` set to `value`: in place where there is
/// one, else at the end.
pub open spec fn with_member(
    ms: Seq<(Seq<char>, JsonView)>,
    key: Seq<char>,
    value: JsonView,
) -> Seq<(Seq<char>, JsonView)>
    decreases ms.len(),
{
    if ms.len() == 0 {
        seq![(key, value)]
    } else if ms[0].0 == key {
        ms.update(0, (key, value))
    } else {
        seq![ms[0]] + with_member(ms.drop_first(), key, value)
    }
}

/// Setting a member changes what that key gives, and nothing else.
pub proof fn lemma_with_member(
    ms: Seq<(Seq<char>, JsonView)>,
    key: Seq<char>,
    value: JsonView,
    other: Seq<char>,
)
    ensures
        member_of(with_member(ms, key, value), other) == if other == key {
            Some(value)
        } else {
            member_of(ms, other)
        },
    decreases ms.len(),
{
    reveal_with_fuel(member_of, 2);
    let r = with_member(ms, key, value);
    if ms.len() == 0 {
        assert(r.drop_first() =~= Seq::<(Seq<char>, JsonView)>::empty());
    } else if ms[0].0 == key {
        assert(r.drop_first() =~= ms.drop_first());
    } else {
        lemma_with_member(ms.drop_first(), key, value, other);
        assert(r.drop_first() =~= with_member(ms.drop_first(), key, value));
    }
}

/// Set the member named `key`.
pub fn set_member(ms: &mut Vec<Member>, key: &str, value: Json)
    ensures
        members_view(final(ms)@) == with_member(members_view(old(ms)@), key@, value@),
{
    let ghost all = members_view(ms@);
    let ghost before = ms@;
    let mut i: usize = 0;
    assert(all.take(0) + all.skip(0) =~= all);
    assert(with_member(all, key@, value@) =~= all.take(0) + with_member(all.skip(0), key@, value@));
    while i < ms.len()
        invariant
            i <= ms.len(),
            ms@ == before,
            before == old(ms)@,
            all == members_view(before),
            with_member(all, key@, value@) == all.take(i as int) + with_member(
                all.skip(i as int),
                key@,
                value@,
            ),
        decreases ms.len() - i,
    {
        let ghost rest = all.skip(i as int);
        if str_eq(ms[i].key.as_str(), key) {
            let m = member(key, value);
            ms.set(i, m);
            assert(members_view(ms@) =~= all.take(i as int) + rest.update(0, (key@, value@)));
            return;
        }
        assert(rest[0] == all[i as int]);
        assert(rest.drop_first() =~= all.skip(i + 1));
        assert(all.take(i as int) + (seq![rest[0]] + with_member(all.skip(i + 1), key@, value@))
            =~= all.take(i + 1) + with_member(all.skip(i + 1), key@, value@));
        i = i + 1;
    }
    let m = member(key, value);
    ms.push(m);
    assert(all.skip(all.len() as int) =~= Seq::<(Seq<char>, JsonView)>::empty());
    assert(members_view(ms@) =~= all.take(all.len() as int) + seq![(key@, value@)]);
}

/// The views of a sequence of documents.
pub open spec fn views_of(a: Seq<Json>) -> Seq<JsonView> {
    Seq::new(a.len(), |i: int| a[i]@)
}

// ---------------------------------------------------------------------------
// text to document and back
// ---------------------------------------------------------------------------

/// The document tree of `serde_json`.
#[verifier::external_type_specification]
#[verifier::external_body]
pub struct ExValue(serde_json::Value);

/// What `serde_json::from_slice` makes of some bytes: the document, or the
/// text of the error.
pub uninterp spec fn serde_parse(bytes: Seq<u8>) -> Result<JsonView, Seq<char>>;

/// What `serde_json::to_string` writes for a document.
pub uninterp spec fn serde_compact(v: JsonView) -> Seq<char>;

/// What `serde_json::to_string_pretty` writes for a document.
pub uninterp spec fn serde_pretty(v: JsonView) -> Seq<char>;

/// Whether a document is an object of texts, truth values and lists of texts,
/// each key once and the keys in order.
pub open spec fn is_flat(v: JsonView) -> bool {
    match v {
        JsonView::Object(ms) => {
            &&& rising(Seq::new(ms.len(), |i: int| ms[i].0))
            &&& forall|i: int| 0 <= i < ms.len() ==> is_flat_value((#[trigger] ms[i]).1)
        },
        _ => false,
    }
}

/// Whether a document is a text, a truth value or a list of texts.
pub open spec fn is_flat_value(v: JsonView) -> bool {
    match v {
        JsonView::Str(_) => true,
        JsonView::Bool(_) => true,
        JsonView::Array(a) => forall|i: int| 0 <= i < a.len() ==> (#[trigger] a[i]) is Str,
        _ => false,
    }
}

/// Whether a text is read as a document.
pub open spec fn reads_as(text: Seq<char>, v: JsonView) -> bool {
    serde_parse(encode_utf8(text)) == Ok::<JsonView, Seq<char>>(v)
}

/// A `serde_json::Value` as a [`Json`], variant for variant; a number is read
/// through `Number::as_i64`, `as_u64`, `as_f64` and its `Display`. Nothing is
/// claimed of the result.
#[verifier::external_body]
fn json_of(v: Value) -> (r: Json) {
    match v {
        Value::Null => Json::Null,
        Value::Bool(b) => Json::Bool(b),
        Value::Number(n) => {
            let (bits, text) = (n.as_f64().map(|f| f.to_bits()), n.to_string());
            Json::Number(JsonNumber { int: n.as_i64(), uint: n.as_u64(), bits, text })
        },
        Value::String(s) => Json::Str(s),
        Value::Array(a) => Json::Array(a.into_iter().map(json_of).collect()),
        Value::Object(m) => Json::Object(
            m.into_iter().map(|(key, value)| Member { key, value: json_of(value) }).collect(),
        ),
    }
}

/// A [`Json`] as a `serde_json::Value`, variant for variant; an integer is carried
/// over by `Value::from`, any other number by `Number::from_f64` of what
/// `str::parse` reads in its text. Nothing is claimed of the result.
#[verifier::external_body]
fn value_of(j: &Json) -> (r: Value) {
    match j {
        Json::Null => Value::Null,
        Json::Bool(b) => Value::Bool(*b),
        Json::Number(n) => match (n.int, n.uint) {
            (Some(i), _) => Value::from(i),
            (_, Some(u)) => Value::from(u),
            _ => Value::from(n.text.parse().ok().and_then(serde_json::Number::from_f64)),
        },
        Json::Str(s) => Value::String(s.clone()),
        Json::Array(a) => Value::Array(a.iter().map(value_of).collect()),
        Json::Object(ms) => Value::Object(
            ms.iter().map(|m| (m.key.clone(), value_of(&m.value))).collect(),
        ),
    }
}

/// `serde_json::from_slice` into a document: the result depends on the bytes
/// alone, and on an error the text that its `Display` gives is kept. A text is
/// refused that holds, outside strings, a comment, a comma right in front of a
/// closing bracket, or whitespace other than JSON's.
#[verifier::external_body]
pub(crate) fn parse(bytes: &[u8]) -> (r: Result<Json, String>)
    ensures
        match r {
            Ok(v) => serde_parse(bytes@) == Ok::<JsonView, Seq<char>>(v@),
            Err(e) => serde_parse(bytes@) == Err::<JsonView, Seq<char>>(e@),
        },
        r is Ok ==> forall|text: Seq<char>|
            #[trigger] encode_utf8(text) == bytes@ ==> plain_json(text),
{
    match serde_json::from_slice::<Value>(bytes) {
        Ok(v) => Ok(json_of(v)),
        Err(e) => Err(e.to_string()),
    }
}

/// `serde_json::to_string` of a document: the text depends on the document
/// alone.
#[verifier::external_body]
pub(crate) fn compact(j: &Json) -> (r: String)
    ensures
        r@ == serde_compact(j@),
{
    serde_json::to_string(&value_of(j)).unwrap_or_default()
}

/// `serde_json::to_string_pretty` of a document: the text depends on the
/// document alone. A flat document is read back by `serde_json::from_slice`,
/// with or without a line break behind it.
#[verifier::external_body]
pub(crate) fn pretty(j: &Json) -> (r: String)
    ensures
        r@ == serde_pretty(j@),
        is_flat(j@) ==> reads_as(r@, j@) && reads_as(r@ + "\n"@, j@),
{
    serde_json::to_string_pretty(&value_of(j)).unwrap_or_default()
}

} // verus!
