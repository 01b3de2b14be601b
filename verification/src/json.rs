//! JSON values that the node builds, and the parts it reads from JSON text.

use crate::text;
use vstd::prelude::*;

verus! {

/// What a JSON value is. An object keeps its members in the order in which they
/// were added.
pub enum JsonView {
    Null,
    Bool(bool),
    Number(int),
    /// A binary fraction of 64 bits, by its bits.
    Fraction(u64),
    Text(Seq<char>),
    Array(Seq<JsonView>),
    Object(Seq<(Seq<char>, JsonView)>),
}

/// A JSON value.
#[derive(Debug, PartialEq, Eq)]
pub enum Json {
    Null,
    Bool(bool),
    Unsigned(u64),
    Signed(i64),
    /// A binary fraction of 64 bits, by its bits.
    Fraction(u64),
    Text(String),
    Array(Vec<Json>),
    Object(Vec<(String, Json)>),
}

/// What a JSON value is.
pub open spec fn json_view(j: Json) -> JsonView
    decreases j,
{
    match j {
        Json::Null => JsonView::Null,
        Json::Bool(b) => JsonView::Bool(b),
        Json::Unsigned(n) => JsonView::Number(n as int),
        Json::Signed(n) => JsonView::Number(n as int),
        Json::Fraction(bits) => JsonView::Fraction(bits),
        Json::Text(s) => JsonView::Text(s@),
        Json::Array(v) => JsonView::Array(
            Seq::new(
                v@.len(),
                |i: int|
                    if 0 <= i < v@.len() {
                        json_view(v@[i])
                    } else {
                        JsonView::Null
                    },
            ),
        ),
        Json::Object(v) => {
            let values = Seq::new(
                v@.len(),
                |i: int|
                    if 0 <= i < v@.len() {
                        json_view(v@[i].1)
                    } else {
                        JsonView::Null
                    },
            );
            JsonView::Object(Seq::new(v@.len(), |i: int| (v@[i].0@, values[i])))
        },
    }
}

impl View for Json {
    type V = JsonView;

    open spec fn view(&self) -> JsonView {
        json_view(*self)
    }
}

/// The items of an array are those of the vector.
proof fn lemma_array_view(v: Vec<Json>)
    ensures
        json_view(Json::Array(v)) == JsonView::Array(v@.map_values(|j: Json| json_view(j))),
{
    reveal_with_fuel(json_view, 2);
    let got = json_view(Json::Array(v))->Array_0;
    assert(got =~= v@.map_values(|j: Json| json_view(j)));
}

/// The members of an object are those of the vector.
proof fn lemma_object_view(v: Vec<(String, Json)>)
    ensures
        json_view(Json::Object(v)) == JsonView::Object(
            v@.map_values(|e: (String, Json)| (e.0@, json_view(e.1))),
        ),
{
    reveal_with_fuel(json_view, 2);
    let got = json_view(Json::Object(v))->Object_0;
    assert(got =~= v@.map_values(|e: (String, Json)| (e.0@, json_view(e.1))));
}

impl JsonView {
    /// The object with one member more.
    pub open spec fn with(self, key: Seq<char>, value: JsonView) -> JsonView {
        JsonView::Object(members(self).push((key, value)))
    }

    /// The array with one item more.
    pub open spec fn item(self, value: JsonView) -> JsonView {
        JsonView::Array(items(self).push(value))
    }
}

/// A text, as JSON.
pub open spec fn txt(s: Seq<char>) -> JsonView {
    JsonView::Text(s)
}

/// A number, as JSON.
pub open spec fn num(i: int) -> JsonView {
    JsonView::Number(i)
}

/// An object without members.
pub open spec fn empty() -> JsonView {
    JsonView::Object(Seq::empty())
}

/// An array without items.
pub open spec fn none() -> JsonView {
    JsonView::Array(Seq::empty())
}

/// The members of an object; none where the value is no object.
pub open spec fn members(v: JsonView) -> Seq<(Seq<char>, JsonView)> {
    match v {
        JsonView::Object(m) => m,
        _ => Seq::empty(),
    }
}

/// The items of an array; none where the value is no array.
pub open spec fn items(v: JsonView) -> Seq<JsonView> {
    match v {
        JsonView::Array(a) => a,
        _ => Seq::empty(),
    }
}

/// The value of the first member with this name.
pub open spec fn member(m: Seq<(Seq<char>, JsonView)>, key: Seq<char>) -> Option<JsonView>
    decreases m.len(),
{
    if m.len() == 0 {
        None
    } else if m[0].0 == key {
        Some(m[0].1)
    } else {
        member(m.drop_first(), key)
    }
}

/// A member whose name differs from those before it is found by its name.
pub proof fn lemma_member(m: Seq<(Seq<char>, JsonView)>, k: int)
    requires
        0 <= k < m.len(),
        forall|i: int| 0 <= i < k ==> (#[trigger] m[i]).0.len() != m[k].0.len() || m[i].0[0]
            != m[k].0[0] && m[k].0.len() > 0,
    ensures
        member(m, m[k].0) == Some(m[k].1),
    decreases k,
{
    if k > 0 {
        assert(m[0].0 != m[k].0);
        let rest = m.drop_first();
        assert(rest[k - 1] == m[k]);
        assert forall|i: int| 0 <= i < k - 1 implies (#[trigger] rest[i]).0.len()
            != rest[k - 1].0.len() || rest[i].0[0] != rest[k - 1].0[0] && rest[k - 1].0.len()
            > 0 by {
            assert(rest[i] == m[i + 1]);
        }
        lemma_member(rest, k - 1);
    }
}

/// Whether the value is an object that says `value` under the name `key`.
pub open spec fn says(v: JsonView, key: Seq<char>, value: JsonView) -> bool {
    member(members(v), key) == Some(value)
}

/// What an object says under the name `key`; null where it says nothing.
pub open spec fn at(v: JsonView, key: Seq<char>) -> JsonView {
    match member(members(v), key) {
        Some(value) => value,
        None => JsonView::Null,
    }
}

/// A member whose name differs from those before it, in its length or in its
/// letter `c`, is found by its name.
pub proof fn lemma_said(v: JsonView, k: int, c: int)
    requires
        0 <= k < members(v).len(),
        0 <= c < members(v)[k].0.len(),
        forall|i: int|
            0 <= i < k ==> (#[trigger] members(v)[i]).0.len() != members(v)[k].0.len()
                || members(v)[i].0[c] != members(v)[k].0[c],
    ensures
        says(v, members(v)[k].0, members(v)[k].1),
        at(v, members(v)[k].0) == members(v)[k].1,
{
    lemma_first_of_its_name(members(v), k, c);
}

/// The member of a name is the first one that has it.
proof fn lemma_first_of_its_name(m: Seq<(Seq<char>, JsonView)>, k: int, c: int)
    requires
        0 <= k < m.len(),
        0 <= c < m[k].0.len(),
        forall|i: int|
            0 <= i < k ==> (#[trigger] m[i]).0.len() != m[k].0.len() || m[i].0[c] != m[k].0[c],
    ensures
        member(m, m[k].0) == Some(m[k].1),
    decreases k,
{
    if k > 0 {
        assert(m[0].0 != m[k].0);
        let rest = m.drop_first();
        assert(rest[k - 1] == m[k]);
        assert forall|i: int| 0 <= i < k - 1 implies (#[trigger] rest[i]).0.len()
            != rest[k - 1].0.len() || rest[i].0[c] != rest[k - 1].0[c] by {
            assert(rest[i] == m[i + 1]);
        }
        lemma_first_of_its_name(rest, k - 1, c);
    }
}

/// A text or null.
pub open spec fn text_or_null(s: Option<Seq<char>>) -> JsonView {
    match s {
        Some(t) => JsonView::Text(t),
        None => JsonView::Null,
    }
}

/// A text.
pub fn text_of(s: &str) -> (j: Json)
    ensures
        j@ == txt(s@),
{
    Json::Text(text::text(s))
}

/// A number.
pub fn number(n: u64) -> (j: Json)
    ensures
        j@ == JsonView::Number(n as int),
{
    Json::Unsigned(n)
}

/// A number that may be negative.
pub fn signed(n: i64) -> (j: Json)
    ensures
        j@ == JsonView::Number(n as int),
{
    Json::Signed(n)
}

/// A text, or null where there is none.
pub fn optional_text(s: &Option<String>) -> (j: Json)
    ensures
        j@ == text_or_null(
            match *s {
                Some(t) => Some(t@),
                None => None,
            },
        ),
{
    match s {
        Some(t) => text_of(t.as_str()),
        None => Json::Null,
    }
}

/// An object without members.
pub fn object() -> (j: Json)
    ensures
        j@ == empty(),
{
    let j = Json::Object(Vec::new());
    assert(j@->Object_0 =~= Seq::empty());
    j
}

/// An array without items.
pub fn array() -> (j: Json)
    ensures
        j@ == none(),
{
    let j = Json::Array(Vec::new());
    assert(j@->Array_0 =~= Seq::empty());
    j
}

impl Json {
    /// The object with one member more.
    pub fn with(self, key: &str, value: Json) -> (j: Json)
        requires
            self@ is Object,
        ensures
            j@ == self@.with(key@, value@),
    {
        match self {
            Json::Object(mut v) => {
                proof {
                    lemma_object_view(v);
                }
                v.push((text::text(key), value));
                proof {
                    lemma_object_view(v);
                }
                let j = Json::Object(v);
                assert(j@->Object_0 =~= members(self@).push((key@, value@)));
                j
            },
            other => other,
        }
    }

    /// The object with a text more.
    pub fn with_text(self, key: &str, value: &str) -> (j: Json)
        requires
            self@ is Object,
        ensures
            j@ == self@.with(key@, txt(value@)),
    {
        self.with(key, text_of(value))
    }

    /// The object with a number more.
    pub fn with_number(self, key: &str, value: u64) -> (j: Json)
        requires
            self@ is Object,
        ensures
            j@ == self@.with(key@, num(value as int)),
    {
        self.with(key, number(value))
    }

    /// The object with a boolean more.
    pub fn with_bool(self, key: &str, value: bool) -> (j: Json)
        requires
            self@ is Object,
        ensures
            j@ == self@.with(key@, JsonView::Bool(value)),
    {
        self.with(key, Json::Bool(value))
    }

    /// The array with one item more.
    pub fn item(self, value: Json) -> (j: Json)
        requires
            self@ is Array,
        ensures
            j@ == self@.item(value@),
    {
        match self {
            Json::Array(mut v) => {
                proof {
                    lemma_array_view(v);
                }
                v.push(value);
                proof {
                    lemma_array_view(v);
                }
                let j = Json::Array(v);
                assert(j@->Array_0 =~= items(self@).push(value@));
                j
            },
            other => other,
        }
    }

    /// The value of the first member with this name.
    pub fn get(&self, key: &str) -> (r: Option<&Json>)
        ensures
            match member(members(self@), key@) {
                Some(v) => r matches Some(j) && j@ == v,
                None => r is None,
            },
    {
        match self {
            Json::Object(v) => {
                let mut i: usize = 0;
                let ghost m = members(self@);
                proof {
                    lemma_object_view(*v);
                }
                assert(m.skip(0) =~= m);
                while i < v.len()
                    invariant
                        i <= v@.len(),
                        *self == Json::Object(*v),
                        m == members(self@),
                        m == v@.map_values(|e: (String, Json)| (e.0@, json_view(e.1))),
                        member(m, key@) == member(m.skip(i as int), key@),
                    decreases v@.len() - i,
                {
                    assert(m[i as int] == (v@[i as int].0@, v@[i as int].1@));
                    assert(m.skip(i as int)[0] == m[i as int]);
                    if text::same_text(v[i].0.as_str(), key) {
                        return Some(&v[i].1);
                    }
                    assert(m.skip(i as int).drop_first() =~= m.skip(i + 1));
                    i = i + 1;
                }
                None
            },
            _ => None,
        }
    }

    /// The text, where the value is one.
    pub fn as_text(&self) -> (r: Option<&str>)
        ensures
            match self@ {
                JsonView::Text(t) => r matches Some(s) && s@ == t,
                _ => r is None,
            },
    {
        match self {
            Json::Text(s) => Some(s.as_str()),
            _ => None,
        }
    }
}

// ---------------------------------------------------------------------------
// Reading
// ---------------------------------------------------------------------------
/// The boolean that `serde_json::Value::pointer` and `as_bool` find in a JSON
/// text; `None` where there is none, or the text is no JSON.
pub uninterp spec fn bool_in(t: Seq<char>, pointer: Seq<char>) -> Option<bool>;

/// The text that `serde_json::Value::pointer` and `as_str` find in a JSON text.
pub uninterp spec fn text_in(t: Seq<char>, pointer: Seq<char>) -> Option<Seq<char>>;

/// The unsigned number that `serde_json::Value::pointer` and `as_u64` find in a
/// JSON text.
pub uninterp spec fn unsigned_in(t: Seq<char>, pointer: Seq<char>) -> Option<u64>;

/// The number that `serde_json::Value::pointer` and its conversion to a binary
/// fraction of 64 bits find in a JSON text, as the bits of that fraction.
pub uninterp spec fn fraction_bits_in(t: Seq<char>, pointer: Seq<char>) -> Option<u64>;

/// The length of the array that `serde_json::Value::pointer` and `as_array` find
/// in a JSON text.
pub uninterp spec fn array_len_in(t: Seq<char>, pointer: Seq<char>) -> Option<nat>;

/// `serde_json::from_str`, then `Value::pointer` and `Value::as_bool`: the
/// boolean at a place in a JSON text. A text that is no JSON holds none.
#[verifier::external_body]
pub(crate) fn bool_at(t: &str, pointer: &str) -> (r: Option<bool>)
    ensures
        r == bool_in(t@, pointer@),
{
    match serde_json::from_str::<serde_json::Value>(t) {
        Ok(v) => v.pointer(pointer).and_then(serde_json::Value::as_bool),
        Err(_) => None,
    }
}

/// `serde_json::from_str`, then `Value::pointer` and `Value::as_str`: the text at
/// a place in a JSON text. A text that is no JSON holds none.
#[verifier::external_body]
pub(crate) fn text_at(t: &str, pointer: &str) -> (r: Option<String>)
    ensures
        r is Some <==> text_in(t@, pointer@) is Some,
        r matches Some(s) ==> text_in(t@, pointer@) == Some(s@),
{
    match serde_json::from_str::<serde_json::Value>(t) {
        Ok(v) => v.pointer(pointer).and_then(serde_json::Value::as_str).map(String::from),
        Err(_) => None,
    }
}

/// `serde_json::from_str`, then `Value::pointer` and `Value::as_u64`: the
/// unsigned number at a place in a JSON text. A text that is no JSON holds none.
#[verifier::external_body]
pub(crate) fn unsigned_at(t: &str, pointer: &str) -> (r: Option<u64>)
    ensures
        r == unsigned_in(t@, pointer@),
{
    match serde_json::from_str::<serde_json::Value>(t) {
        Ok(v) => v.pointer(pointer).and_then(serde_json::Value::as_u64),
        Err(_) => None,
    }
}

/// `serde_json::from_str`, then `Value::pointer` and `Value::as_array`: the
/// length of the array at a place in a JSON text. A text that is no JSON holds
/// none.
#[verifier::external_body]
pub(crate) fn array_len_at(t: &str, pointer: &str) -> (r: Option<usize>)
    ensures
        r is Some <==> array_len_in(t@, pointer@) is Some,
        r matches Some(n) ==> array_len_in(t@, pointer@) == Some(n as nat),
{
    match serde_json::from_str::<serde_json::Value>(t) {
        Ok(v) => v.pointer(pointer).and_then(serde_json::Value::as_array).map(Vec::len),
        Err(_) => None,
    }
}

/// `serde_json::from_str`, then `Value::pointer` and `Value::as_f64`: the number
/// at a place in a JSON text, as the bits of a binary fraction of 64 bits. A text
/// that is no JSON holds none.
#[verifier::external_body]
pub(crate) fn fraction_bits_at(t: &str, pointer: &str) -> (r: Option<u64>)
    ensures
        r == fraction_bits_in(t@, pointer@),
{
    match serde_json::from_str::<serde_json::Value>(t) {
        Ok(v) => v.pointer(pointer).and_then(serde_json::Value::as_f64).map(|x| x.to_bits()),
        Err(_) => None,
    }
}

/// A text is told as a text and a number as a number; what is missing is told as
/// null.
pub proof fn values_are_told_as_they_are(s: Seq<char>, n: int)
    ensures
        text_or_null(Some(s)) == JsonView::Text(s),
        text_or_null(None) == JsonView::Null,
        txt(s) == JsonView::Text(s),
        num(n) == JsonView::Number(n),
{
}

} // verus!
