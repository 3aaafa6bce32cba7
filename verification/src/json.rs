//! JSON documents.
//!
//! [`Json`] holds a document as plain values. Reading one from bytes, writing
//! one to bytes and rendering one as text is `serde_json`'s work.

use serde_json::{Number, Value};
use vstd::prelude::*;

use crate::text::same_text;

verus! {

/// `serde_json::Number`: carried from a document that is read to the one that
/// is written, and not looked into.
#[verifier::external_type_specification]
#[verifier::external_body]
pub struct ExNumber(serde_json::Number);

/// `serde_json::Value`: what `serde_json` reads and writes.
#[verifier::external_type_specification]
#[verifier::external_body]
pub struct ExValue(serde_json::Value);

/// `serde_json::Error`: why a document could not be read or written.
#[verifier::external_type_specification]
#[verifier::external_body]
pub struct ExError(serde_json::Error);

/// A JSON document. A key that an object holds more than once stands for its
/// first value.
#[derive(Debug, PartialEq)]
pub enum Json {
    Null,
    Bool(bool),
    /// A number without fraction and exponent, from `i64::MIN` to `u64::MAX`.
    Integer(i128),
    /// Any other number.
    Fraction(Number),
    Text(String),
    Array(Vec<Json>),
    Object(Vec<(String, Json)>),
}

/// What a JSON document means: an object is a map from keys to values.
pub enum JsonView {
    Null,
    Bool(bool),
    Integer(int),
    Fraction(Number),
    Text(Seq<char>),
    Array(Seq<JsonView>),
    Object(Map<Seq<char>, JsonView>),
}

/// What the items of an array mean.
pub open spec fn array_view(items: Seq<Json>) -> Seq<JsonView>
    decreases items,
{
    Seq::new(
        items.len(),
        |i: int|
            if 0 <= i < items.len() {
                items[i].view()
            } else {
                JsonView::Null
            },
    )
}

/// What the entries of an object mean: the first one of a key counts.
pub open spec fn object_view(pairs: Seq<(String, Json)>) -> Map<Seq<char>, JsonView>
    decreases pairs,
{
    if pairs.len() == 0 {
        Map::empty()
    } else {
        object_view(pairs.skip(1)).insert(pairs[0].0@, pairs[0].1.view())
    }
}

impl View for Json {
    type V = JsonView;

    open spec fn view(&self) -> JsonView
        decreases self,
    {
        match self {
            Json::Null => JsonView::Null,
            Json::Bool(b) => JsonView::Bool(*b),
            Json::Integer(i) => JsonView::Integer(*i as int),
            Json::Fraction(n) => JsonView::Fraction(*n),
            Json::Text(s) => JsonView::Text(s@),
            Json::Array(items) => JsonView::Array(array_view(items@)),
            Json::Object(pairs) => JsonView::Object(object_view(pairs@)),
        }
    }
}

/// The integer that a `serde_json::Number` is, if it is one.
pub uninterp spec fn number_integer(n: Number) -> Option<int>;

/// The document that a `serde_json::Value` holds.
pub uninterp spec fn value_contents(v: Value) -> JsonView;

/// The text that a `serde_json::Error` is displayed as.
pub uninterp spec fn error_text(e: serde_json::Error) -> Seq<char>;

/// The document that bytes are read as, or the text of the error.
pub uninterp spec fn json_read(data: Seq<u8>) -> Result<JsonView, Seq<char>>;

/// The bytes that a document is written as, or the text of the error.
pub uninterp spec fn json_written(v: JsonView) -> Result<Seq<u8>, Seq<char>>;

/// The text that a document is rendered as.
pub uninterp spec fn json_text(v: JsonView) -> Seq<char>;

/// The document that bytes are read as, if they are one.
pub open spec fn json_parsed(data: Seq<u8>) -> Option<JsonView> {
    match json_read(data) {
        Ok(v) => Some(v),
        Err(_) => None,
    }
}

/// The bytes that a document is written as, if it can be written.
pub open spec fn json_bytes(v: JsonView) -> Option<Seq<u8>> {
    match json_written(v) {
        Ok(bytes) => Some(bytes),
        Err(_) => None,
    }
}

/// Whether a document is read back exactly from the bytes it is written as.
pub open spec fn survives_writing(v: JsonView) -> bool {
    json_bytes(v) matches Some(bytes) ==> json_parsed(bytes) == Some(v)
}

/// Whether no key occurs twice.
pub open spec fn distinct_keys<T>(pairs: Seq<(String, T)>) -> bool {
    forall|i: int, j: int|
        0 <= i < j < pairs.len() ==> (#[trigger] pairs[i]).0@ != (#[trigger] pairs[j]).0@
}

impl Json {
    /// Whether the document can be handed to `serde_json` as it stands: its
    /// integers are in range, its other numbers are no integers, and no object
    /// holds a key twice.
    pub open spec fn storable(&self) -> bool
        decreases self,
    {
        match self {
            Json::Integer(i) => is_storable_integer(*i as int),
            Json::Fraction(n) => number_integer(*n) is None,
            Json::Array(items) => forall|i: int|
                0 <= i < items@.len() ==> (#[trigger] items@[i]).storable(),
            Json::Object(pairs) => distinct_keys(pairs@) && forall|i: int|
                0 <= i < pairs@.len() ==> (#[trigger] pairs@[i]).1.storable(),
            _ => true,
        }
    }
}

/// One level of a `serde_json::Value`.
pub enum Shape {
    Null,
    Bool(bool),
    Number(Number),
    Text(String),
    Array(Vec<Value>),
    Object(Vec<(String, Value)>),
}

/// The document that a number is.
pub open spec fn number_contents(n: Number) -> JsonView {
    match number_integer(n) {
        Some(i) => JsonView::Integer(i),
        None => JsonView::Fraction(n),
    }
}

/// The document whose outermost level is the given one.
pub open spec fn shape_contents(s: Shape) -> JsonView {
    match s {
        Shape::Null => JsonView::Null,
        Shape::Bool(b) => JsonView::Bool(b),
        Shape::Number(n) => number_contents(n),
        Shape::Text(t) => JsonView::Text(t@),
        Shape::Array(items) => JsonView::Array(items@.map_values(|v: Value| value_contents(v))),
        Shape::Object(pairs) => JsonView::Object(value_pairs(pairs@)),
    }
}

/// The map that a list of entries stands for.
pub open spec fn value_pairs(pairs: Seq<(String, Value)>) -> Map<Seq<char>, JsonView>
    decreases pairs.len(),
{
    if pairs.len() == 0 {
        Map::empty()
    } else {
        value_pairs(pairs.skip(1)).insert(pairs[0].0@, value_contents(pairs[0].1))
    }
}

/// Whether no key of an object occurs twice.
pub open spec fn shape_storable(s: Shape) -> bool {
    s matches Shape::Object(pairs) ==> distinct_keys(pairs@)
}

/// Whether `serde_json` holds an integer as such.
pub open spec fn is_storable_integer(i: int) -> bool {
    i64::MIN <= i <= u64::MAX
}

/// Whether a document has at most `depth` levels of arrays and objects.
pub open spec fn levels_within(v: JsonView, depth: nat) -> bool
    decreases depth,
{
    match v {
        JsonView::Array(items) => depth > 0 && forall|i: int|
            0 <= i < items.len() ==> levels_within(#[trigger] items[i], (depth - 1) as nat),
        JsonView::Object(map) => depth > 0 && forall|k: Seq<char>| #[trigger]
            map.contains_key(k) ==> levels_within(map[k], (depth - 1) as nat),
        _ => true,
    }
}

/// Whether the outermost `depth` levels of a document hold no number with a
/// fraction or an exponent.
pub open spec fn integral(v: JsonView, depth: nat) -> bool
    decreases depth,
{
    match v {
        JsonView::Fraction(_) => false,
        JsonView::Array(items) => depth > 0 ==> forall|i: int|
            0 <= i < items.len() ==> integral(#[trigger] items[i], (depth - 1) as nat),
        JsonView::Object(map) => depth > 0 ==> forall|k: Seq<char>| #[trigger]
            map.contains_key(k) ==> integral(map[k], (depth - 1) as nat),
        _ => true,
    }
}

/// Whether a document is read back exactly: it has no more levels than the
/// reader takes, and no number with a fraction or an exponent.
pub open spec fn reads_back(v: JsonView) -> bool {
    levels_within(v, depth_limit()) && integral(v, depth_limit())
}

/// The number of levels that `serde_json` reads.
pub open spec fn depth_limit() -> nat {
    127
}

/// Whether a string is rendered without escapes.
pub open spec fn unescaped(s: Seq<char>) -> bool {
    forall|i: int|
        0 <= i < s.len() ==> (#[trigger] s[i]) as u32 >= 0x20 && s[i] != '"' && s[i] != '\\'
}

/// `serde_json::from_slice` for `Value`: whether the bytes are a document, and
/// which, is a function of the bytes, and so is the text of the error. A document
/// that nests deeper than the reader's limit is refused.
#[verifier::external_body]
fn read_value(data: &[u8]) -> (r: Result<Value, serde_json::Error>)
    ensures
        match r {
            Ok(v) => json_read(data@) == Ok::<_, Seq<char>>(value_contents(v)),
            Err(e) => json_read(data@) == Err::<JsonView, _>(error_text(e)),
        },
        r matches Ok(v) ==> levels_within(value_contents(v), depth_limit()),
{
    serde_json::from_slice(data)
}

/// `serde_json::to_vec` of a `Value`: the bytes are a function of the document,
/// and so is the text of the error where it has none.
/// Reading them gives the document back where it has no number with a fraction
/// or an exponent and stays within the depth limit of the reader.
#[verifier::external_body]
fn write_value(v: &Value) -> (r: Result<Vec<u8>, serde_json::Error>)
    ensures
        match r {
            Ok(bytes) => json_written(value_contents(*v)) == Ok::<_, Seq<char>>(bytes@),
            Err(e) => json_written(value_contents(*v)) == Err::<Seq<u8>, _>(error_text(e)),
        },
        r is Ok && reads_back(value_contents(*v)) ==> json_parsed(r->Ok_0@) == Some(
            value_contents(*v),
        ),
{
    serde_json::to_vec(v)
}

/// `Display` of `serde_json::Value`: the text is a function of the document; a
/// string that needs no escapes is put between quotes.
#[verifier::external_body]
fn render_value(v: &Value) -> (r: String)
    ensures
        r@ == json_text(value_contents(*v)),
        value_contents(*v) matches JsonView::Text(s) ==> unescaped(s) ==> r@ == seq!['"'] + s
            + seq!['"'],
{
    v.to_string()
}

/// `Number::as_i128`: the integer that a number is, if it is one; it is never
/// less than `i64::MIN` and never more than `u64::MAX`.
#[verifier::external_body]
fn integer_of(n: &Number) -> (r: Option<i128>)
    ensures
        match r {
            Some(i) => number_integer(*n) == Some(i as int) && is_storable_integer(i as int),
            None => number_integer(*n) is None,
        },
{
    n.as_i128()
}

/// `Number::from_i128`: the number that is the given integer, if it is in range.
#[verifier::external_body]
fn integer_number(i: i128) -> (r: Option<Number>)
    ensures
        match r {
            Some(n) => number_integer(n) == Some(i as int) && is_storable_integer(i as int),
            None => !is_storable_integer(i as int),
        },
{
    Number::from_i128(i)
}

/// The variants of `serde_json::Value`, with the entries of `serde_json::Map`,
/// in which no key occurs twice.
#[verifier::external_body]
fn open_value(v: Value) -> (s: Shape)
    ensures
        shape_contents(s) == value_contents(v),
        shape_storable(s),
{
    match v {
        Value::Null => Shape::Null,
        Value::Bool(b) => Shape::Bool(b),
        Value::Number(n) => Shape::Number(n),
        Value::String(s) => Shape::Text(s),
        Value::Array(items) => Shape::Array(items),
        Value::Object(map) => Shape::Object(map.into_iter().collect()),
    }
}

/// The variants of `serde_json::Value` again, with `serde_json::Map` collected
/// from entries with distinct keys.
#[verifier::external_body]
fn close_value(s: Shape) -> (v: Value)
    requires
        shape_storable(s),
    ensures
        value_contents(v) == shape_contents(s),
{
    match s {
        Shape::Null => Value::Null,
        Shape::Bool(b) => Value::Bool(b),
        Shape::Number(n) => Value::Number(n),
        Shape::Text(t) => Value::String(t),
        Shape::Array(items) => Value::Array(items),
        Shape::Object(pairs) => Value::Object(pairs.into_iter().collect()),
    }
}

/// Entries with the same keys and contents stand for the same map.
proof fn lemma_pairs_match(pairs: Seq<(String, Json)>, values: Seq<(String, Value)>)
    requires
        pairs.len() == values.len(),
        forall|i: int|
            0 <= i < pairs.len() ==> (#[trigger] pairs[i]).0@ == values[i].0@ && pairs[i].1@
                == value_contents(values[i].1),
    ensures
        object_view(pairs) == value_pairs(values),
    decreases pairs.len(),
{
    if pairs.len() > 0 {
        assert forall|i: int| 0 <= i < pairs.skip(1).len() implies (#[trigger] pairs.skip(
            1,
        )[i]).0@ == values.skip(1)[i].0@ && pairs.skip(1)[i].1@ == value_contents(
            values.skip(1)[i].1,
        ) by {
            assert(pairs.skip(1)[i] == pairs[i + 1]);
        }
        lemma_pairs_match(pairs.skip(1), values.skip(1));
        assert(pairs[0].0@ == values[0].0@);
    }
}

/// The map of an entry list is finite and holds every entry whose key does not
/// occur before it.
proof fn lemma_value_pairs_hold(values: Seq<(String, Value)>)
    requires
        distinct_keys(values),
    ensures
        value_pairs(values).dom().finite(),
        forall|i: int|
            0 <= i < values.len() ==> value_pairs(values).contains_key(
                (#[trigger] values[i]).0@,
            ) && value_pairs(values)[values[i].0@] == value_contents(values[i].1),
    decreases values.len(),
{
    if values.len() > 0 {
        let rest = values.skip(1);
        assert forall|i: int, j: int| 0 <= i < j < rest.len() implies (#[trigger] rest[i]).0@ != (
        #[trigger] rest[j]).0@ by {
            assert(rest[i] == values[i + 1]);
            assert(rest[j] == values[j + 1]);
        }
        lemma_value_pairs_hold(rest);
        assert forall|i: int| 0 <= i < values.len() implies value_pairs(values).contains_key(
            (#[trigger] values[i]).0@,
        ) && value_pairs(values)[values[i].0@] == value_contents(values[i].1) by {
            if i > 0 {
                assert(values[i] == rest[i - 1]);
                assert(values[0].0@ != values[i].0@);
            }
        }
    }
}

/// An item is smaller than its array.
proof fn lemma_item_smaller(v: JsonView, items: Seq<JsonView>, i: int)
    requires
        v == JsonView::Array(items),
        0 <= i < items.len(),
    ensures
        decreases_to!(v => items[i]),
{
    assert(decreases_to!(v => v->Array_0));
    assert(decreases_to!(items => items[i]));
}

/// A member is smaller than its object.
proof fn lemma_member_smaller(v: JsonView, map: Map<Seq<char>, JsonView>, k: Seq<char>)
    requires
        v == JsonView::Object(map),
        map.dom().finite(),
        map.contains_key(k),
    ensures
        decreases_to!(v => map[k]),
{
    assert(decreases_to!(v => v->Object_0));
    assert(decreases_to!(map => map[k]));
}

/// An item is smaller than the array that holds it.
proof fn lemma_held_item_smaller(j: Json, items: Vec<Json>, i: int)
    requires
        j == Json::Array(items),
        0 <= i < items@.len(),
    ensures
        decreases_to!(j => items@[i]),
{
    assert(decreases_to!(j => j->Array_0));
    assert(decreases_to!(items => items@));
    assert(decreases_to!(items@ => items@[i]));
}

/// A member is smaller than the object that holds it.
proof fn lemma_held_member_smaller(j: Json, pairs: Vec<(String, Json)>, i: int)
    requires
        j == Json::Object(pairs),
        0 <= i < pairs@.len(),
    ensures
        decreases_to!(j => pairs@[i].1),
{
    assert(decreases_to!(j => j->Object_0));
    assert(decreases_to!(pairs => pairs@));
    assert(decreases_to!(pairs@ => pairs@[i]));
    assert(decreases_to!(pairs@[i] => pairs@[i].1));
}

/// The document that a value holds.
fn from_value(v: Value) -> (j: Json)
    ensures
        j@ == value_contents(v),
        j.storable(),
    decreases value_contents(v),
{
    match open_value(v) {
        Shape::Null => Json::Null,
        Shape::Bool(b) => Json::Bool(b),
        Shape::Number(n) => match integer_of(&n) {
            Some(i) => Json::Integer(i),
            None => Json::Fraction(n),
        },
        Shape::Text(t) => Json::Text(t),
        Shape::Array(items) => {
            let ghost all = items@;
            let ghost contents = all.map_values(|x: Value| value_contents(x));
            let mut out: Vec<Json> = Vec::new();
            for item in it: items
                invariant
                    it.seq() == all,
                    contents == all.map_values(|x: Value| value_contents(x)),
                    value_contents(v) == JsonView::Array(contents),
                    out@.len() == it.index(),
                    forall|i: int|
                        0 <= i < out@.len() ==> (#[trigger] out@[i])@ == value_contents(all[i])
                            && out@[i].storable(),
            {
                proof {
                    assert(item == all[it.index() as int]);
                    assert(contents[it.index() as int] == value_contents(item));
                    lemma_item_smaller(value_contents(v), contents, it.index() as int);
                }
                let next = from_value(item);
                out.push(next);
            }
            assert(array_view(out@) =~= contents);
            Json::Array(out)
        },
        Shape::Object(pairs) => {
            let ghost all = pairs@;
            let ghost map = value_pairs(all);
            proof {
                lemma_value_pairs_hold(all);
            }
            let mut out: Vec<(String, Json)> = Vec::new();
            for pair in it: pairs
                invariant
                    it.seq() == all,
                    distinct_keys(all),
                    map == value_pairs(all),
                    map.dom().finite(),
                    forall|i: int|
                        0 <= i < all.len() ==> map.contains_key((#[trigger] all[i]).0@)
                            && map[all[i].0@] == value_contents(all[i].1),
                    value_contents(v) == JsonView::Object(map),
                    out@.len() == it.index(),
                    forall|i: int|
                        0 <= i < out@.len() ==> (#[trigger] out@[i]).0@ == all[i].0@
                            && out@[i].1@ == value_contents(all[i].1) && out@[i].1.storable(),
            {
                proof {
                    assert(pair == all[it.index() as int]);
                    lemma_member_smaller(value_contents(v), map, pair.0@);
                }
                let next = from_value(pair.1);
                out.push((pair.0, next));
            }
            proof {
                lemma_pairs_match(out@, all);
                assert forall|i: int, j: int| 0 <= i < j < out@.len() implies (
                #[trigger] out@[i]).0@ != (#[trigger] out@[j]).0@ by {
                    assert(all[i].0@ != all[j].0@);
                }
            }
            Json::Object(out)
        },
    }
}

/// The value that holds a document.
fn to_value(j: Json) -> (v: Value)
    requires
        j.storable(),
    ensures
        value_contents(v) == j@,
    decreases j,
{
    match j {
        Json::Null => close_value(Shape::Null),
        Json::Bool(b) => close_value(Shape::Bool(b)),
        Json::Integer(i) => match integer_number(i) {
            Some(n) => close_value(Shape::Number(n)),
            None => close_value(Shape::Null),
        },
        Json::Fraction(n) => close_value(Shape::Number(n)),
        Json::Text(t) => close_value(Shape::Text(t)),
        Json::Array(items) => {
            let ghost all = items@;
            let mut out: Vec<Value> = Vec::new();
            for item in it: items
                invariant
                    it.seq() == all,
                    j == Json::Array(items),
                    items@ == all,
                    forall|i: int| 0 <= i < all.len() ==> (#[trigger] all[i]).storable(),
                    out@.len() == it.index(),
                    forall|i: int|
                        0 <= i < out@.len() ==> value_contents(#[trigger] out@[i]) == all[i]@,
            {
                proof {
                    assert(item == all[it.index() as int]);
                    lemma_held_item_smaller(j, items, it.index() as int);
                }
                let next = to_value(item);
                out.push(next);
            }
            assert(out@.map_values(|x: Value| value_contents(x)) =~= array_view(all));
            close_value(Shape::Array(out))
        },
        Json::Object(pairs) => {
            let ghost all = pairs@;
            let mut out: Vec<(String, Value)> = Vec::new();
            for pair in it: pairs
                invariant
                    it.seq() == all,
                    j == Json::Object(pairs),
                    pairs@ == all,
                    distinct_keys(all),
                    forall|i: int| 0 <= i < all.len() ==> (#[trigger] all[i]).1.storable(),
                    out@.len() == it.index(),
                    forall|i: int|
                        0 <= i < out@.len() ==> (#[trigger] out@[i]).0@ == all[i].0@
                            && value_contents(out@[i].1) == all[i].1@,
            {
                proof {
                    assert(pair == all[it.index() as int]);
                    lemma_held_member_smaller(j, pairs, it.index() as int);
                }
                let next = to_value(pair.1);
                out.push((pair.0, next));
            }
            proof {
                assert forall|i: int|
                    0 <= i < all.len() implies (#[trigger] all[i]).0@ == out@[i].0@ && all[i].1@
                    == value_contents(out@[i].1) by {
                    assert(out@[i].0@ == all[i].0@);
                }
                lemma_pairs_match(all, out@);
                assert forall|i: int, j: int| 0 <= i < j < out@.len() implies (
                #[trigger] out@[i]).0@ != (#[trigger] out@[j]).0@ by {
                    assert(all[i].0@ != all[j].0@);
                }
            }
            close_value(Shape::Object(out))
        },
    }
}

/// `Display` of `serde_json::Error`: the text is a function of the error.
#[verifier::external_body]
fn describe_error(e: &serde_json::Error) -> (r: String)
    ensures
        r@ == error_text(*e),
{
    e.to_string()
}

/// Why bytes are no document, or a document has no bytes.
#[derive(Debug)]
pub struct JsonError {
    pub detail: String,
}

/// Reads a document from bytes.
pub fn parse_json(data: &[u8]) -> (r: Result<Json, JsonError>)
    ensures
        match r {
            Ok(j) => json_parsed(data@) == Some(j@) && j.storable() && levels_within(
                j@,
                depth_limit(),
            ),
            Err(e) => json_read(data@) == Err::<JsonView, _>(e.detail@),
        },
{
    match read_value(data) {
        Ok(v) => Ok(from_value(v)),
        Err(e) => Err(JsonError { detail: describe_error(&e) }),
    }
}

/// Writes a document to bytes.
pub fn write_json(j: Json) -> (r: Result<Vec<u8>, JsonError>)
    requires
        j.storable(),
    ensures
        match r {
            Ok(bytes) => json_bytes(j@) == Some(bytes@) && (reads_back(j@)
                ==> json_parsed(bytes@) == Some(j@)),
            Err(e) => json_written(j@) == Err::<Seq<u8>, _>(e.detail@),
        },
{
    let v = to_value(j);
    match write_value(&v) {
        Ok(bytes) => Ok(bytes),
        Err(e) => Err(JsonError { detail: describe_error(&e) }),
    }
}

/// Renders a document as text.
pub fn render_json(j: Json) -> (r: String)
    requires
        j.storable(),
    ensures
        r@ == json_text(j@),
        j@ matches JsonView::Text(s) ==> unescaped(s) ==> r@ == seq!['"'] + s + seq!['"'],
{
    let v = to_value(j);
    render_value(&v)
}

/// The member of a document with the given key; only objects have members.
pub open spec fn member(v: JsonView, key: Seq<char>) -> Option<JsonView> {
    match v {
        JsonView::Object(map) => if map.contains_key(key) {
            Some(map[key])
        } else {
            None
        },
        _ => None,
    }
}

/// An object with the member of the given key set.
pub open spec fn with_member(v: JsonView, key: Seq<char>, value: JsonView) -> JsonView {
    JsonView::Object(v->Object_0.insert(key, value))
}

/// Setting a member to what it is changes nothing.
pub proof fn lemma_same_member(v: JsonView, key: Seq<char>)
    requires
        member(v, key) is Some,
    ensures
        with_member(v, key, member(v, key)->0) == v,
{
    assert(v->Object_0.insert(key, v->Object_0[key]) =~= v->Object_0);
}

/// A member is one level below its object.
pub proof fn lemma_member_levels(v: JsonView, key: Seq<char>, depth: nat)
    requires
        member(v, key) is Some,
    ensures
        levels_within(v, depth) ==> depth > 0 && levels_within(
            member(v, key)->0,
            (depth - 1) as nat,
        ),
        integral(v, depth) && depth > 0 ==> integral(member(v, key)->0, (depth - 1) as nat),
{
    assert(v->Object_0.contains_key(key));
}

/// Setting a member adds no levels and no fractions but those of the member.
pub proof fn lemma_with_member_levels(v: JsonView, key: Seq<char>, value: JsonView, depth: nat)
    requires
        v is Object,
        depth > 0,
    ensures
        levels_within(v, depth) && levels_within(value, (depth - 1) as nat) ==> levels_within(
            with_member(v, key, value),
            depth,
        ),
        integral(v, depth) && integral(value, (depth - 1) as nat) ==> integral(
            with_member(v, key, value),
            depth,
        ),
{
    let before = v->Object_0;
    let after = before.insert(key, value);
    assert forall|k: Seq<char>| #[trigger] after.contains_key(k) implies k == key
        || before.contains_key(k) && after[k] == before[k] by {}
    assert(after[key] == value);
    if levels_within(v, depth) && levels_within(value, (depth - 1) as nat) {
        assert forall|k: Seq<char>| #[trigger] after.contains_key(k) implies levels_within(
            after[k],
            (depth - 1) as nat,
        ) by {
            if k != key {
                assert(before.contains_key(k));
            }
        }
    }
    if integral(v, depth) && integral(value, (depth - 1) as nat) {
        assert forall|k: Seq<char>| #[trigger] after.contains_key(k) implies integral(
            after[k],
            (depth - 1) as nat,
        ) by {
            if k != key {
                assert(before.contains_key(k));
            }
        }
    }
}

/// An item is one level below its array.
pub proof fn lemma_item_levels(items: Seq<JsonView>, i: int, depth: nat)
    requires
        0 <= i < items.len(),
        levels_within(JsonView::Array(items), depth),
    ensures
        depth > 0,
        levels_within(items[i], (depth - 1) as nat),
        integral(JsonView::Array(items), depth) ==> integral(items[i], (depth - 1) as nat),
{
    let array = JsonView::Array(items);
    assert(array->Array_0[i] == items[i]);
}

/// Replacing an item adds no levels and no fractions but those of the item.
pub proof fn lemma_array_levels(items: Seq<JsonView>, i: int, item: JsonView, depth: nat)
    requires
        0 <= i < items.len(),
        depth > 0,
        levels_within(JsonView::Array(items), depth),
        integral(JsonView::Array(items), depth),
        levels_within(item, (depth - 1) as nat),
        integral(item, (depth - 1) as nat),
    ensures
        levels_within(JsonView::Array(items.update(i, item)), depth),
        integral(JsonView::Array(items.update(i, item)), depth),
{
    let changed = items.update(i, item);
    assert forall|k: int| 0 <= k < changed.len() implies levels_within(
        #[trigger] changed[k],
        (depth - 1) as nat,
    ) && integral(changed[k], (depth - 1) as nat) by {
        if k != i {
            lemma_item_levels(items, k, depth);
        }
    }
}

/// The text that a document is, if it is one.
pub open spec fn text_in(v: Option<JsonView>) -> Option<Seq<char>> {
    match v {
        Some(JsonView::Text(s)) => Some(s),
        _ => None,
    }
}

/// The items of a document, if it is an array.
pub open spec fn items_in(v: Option<JsonView>) -> Option<Seq<JsonView>> {
    match v {
        Some(JsonView::Array(items)) => Some(items),
        _ => None,
    }
}

/// The truth value that a document is, if it is one.
pub open spec fn bool_in(v: Option<JsonView>) -> Option<bool> {
    match v {
        Some(JsonView::Bool(b)) => Some(b),
        _ => None,
    }
}

/// The unsigned integer that a document is, if it is one.
pub open spec fn u64_in(v: Option<JsonView>) -> Option<u64> {
    match v {
        Some(JsonView::Integer(i)) => if 0 <= i <= u64::MAX {
            Some(i as u64)
        } else {
            None
        },
        _ => None,
    }
}

/// Whether `i` is the first entry with the key.
pub open spec fn first_entry(pairs: Seq<(String, Json)>, key: Seq<char>, i: int) -> bool {
    0 <= i < pairs.len() && pairs[i].0@ == key && forall|j: int|
        0 <= j < i ==> (#[trigger] pairs[j]).0@ != key
}

/// Whether no entry has the key.
pub open spec fn no_entry(pairs: Seq<(String, Json)>, key: Seq<char>) -> bool {
    forall|j: int| 0 <= j < pairs.len() ==> (#[trigger] pairs[j]).0@ != key
}

/// The first entry stands before the others.
proof fn lemma_object_view_step(pairs: Seq<(String, Json)>)
    requires
        pairs.len() > 0,
    ensures
        object_view(pairs) == object_view(pairs.skip(1)).insert(pairs[0].0@, pairs[0].1@),
{
}

/// The first entry of a key gives its member.
pub proof fn lemma_first_entry(pairs: Seq<(String, Json)>, key: Seq<char>, i: int)
    requires
        first_entry(pairs, key, i),
    ensures
        object_view(pairs).contains_key(key),
        object_view(pairs)[key] == pairs[i].1@,
    decreases pairs.len(),
{
    lemma_object_view_step(pairs);
    if i > 0 {
        let rest = pairs.skip(1);
        assert forall|j: int| 0 <= j < i - 1 implies (#[trigger] rest[j]).0@ != key by {
            assert(rest[j] == pairs[j + 1]);
        }
        assert(rest[i - 1] == pairs[i]);
        assert(pairs[0].0@ != key);
        lemma_first_entry(rest, key, i - 1);
    }
}

/// A key without entry has no member.
proof fn lemma_no_entry(pairs: Seq<(String, Json)>, key: Seq<char>)
    requires
        no_entry(pairs, key),
    ensures
        !object_view(pairs).contains_key(key),
    decreases pairs.len(),
{
    if pairs.len() > 0 {
        lemma_object_view_step(pairs);
        let rest = pairs.skip(1);
        assert forall|j: int| 0 <= j < rest.len() implies (#[trigger] rest[j]).0@ != key by {
            assert(rest[j] == pairs[j + 1]);
        }
        assert(pairs[0].0@ != key);
        lemma_no_entry(rest, key);
    }
}

/// Changing the value of the first entry of a key sets its member.
proof fn lemma_update_entry(
    pairs: Seq<(String, Json)>,
    changed: Seq<(String, Json)>,
    key: Seq<char>,
    i: int,
)
    requires
        first_entry(pairs, key, i),
        changed.len() == pairs.len(),
        changed[i].0@ == key,
        forall|j: int| 0 <= j < pairs.len() && j != i ==> #[trigger] changed[j] == pairs[j],
    ensures
        object_view(changed) == object_view(pairs).insert(key, changed[i].1@),
    decreases pairs.len(),
{
    let rest = pairs.skip(1);
    let changed_rest = changed.skip(1);
    lemma_object_view_step(pairs);
    lemma_object_view_step(changed);
    if i == 0 {
        assert(rest =~= changed_rest);
    } else {
        assert forall|j: int| 0 <= j < i - 1 implies (#[trigger] rest[j]).0@ != key by {
            assert(rest[j] == pairs[j + 1]);
        }
        assert forall|j: int|
            0 <= j < rest.len() && j != i - 1 implies #[trigger] changed_rest[j] == rest[j] by {
            assert(changed_rest[j] == changed[j + 1]);
        }
        assert(changed[0] == pairs[0]);
        assert(pairs[0].0@ != key);
        lemma_update_entry(rest, changed_rest, key, i - 1);
        assert(object_view(changed) =~= object_view(pairs).insert(key, changed[i].1@));
    }
}

/// Adding an entry for a new key sets its member.
proof fn lemma_push_entry(pairs: Seq<(String, Json)>, entry: (String, Json))
    requires
        no_entry(pairs, entry.0@),
    ensures
        object_view(pairs.push(entry)) == object_view(pairs).insert(entry.0@, entry.1@),
    decreases pairs.len(),
{
    let longer = pairs.push(entry);
    lemma_object_view_step(longer);
    if pairs.len() == 0 {
        assert(longer.skip(1) =~= pairs);
    } else {
        let rest = pairs.skip(1);
        assert forall|j: int| 0 <= j < rest.len() implies (#[trigger] rest[j]).0@ != entry.0@ by {
            assert(rest[j] == pairs[j + 1]);
        }
        assert(longer.skip(1) =~= rest.push(entry));
        lemma_object_view_step(pairs);
        assert(pairs[0].0@ != entry.0@);
        lemma_push_entry(rest, entry);
        assert(object_view(longer) =~= object_view(pairs).insert(entry.0@, entry.1@));
    }
}

/// Whether the entries of an object keep to what [`Json::storable`] asks.
pub open spec fn entries_storable(pairs: Seq<(String, Json)>) -> bool {
    distinct_keys(pairs) && forall|i: int|
        0 <= i < pairs.len() ==> (#[trigger] pairs[i]).1.storable()
}

/// Changing the value of an entry to a storable one keeps the entries storable.
proof fn lemma_update_storable(pairs: Seq<(String, Json)>, changed: Seq<(String, Json)>, i: int)
    requires
        0 <= i < pairs.len(),
        changed.len() == pairs.len(),
        changed[i].0@ == pairs[i].0@,
        forall|j: int| 0 <= j < pairs.len() && j != i ==> #[trigger] changed[j] == pairs[j],
    ensures
        entries_storable(pairs) && changed[i].1.storable() ==> entries_storable(changed),
{
    if entries_storable(pairs) && changed[i].1.storable() {
        assert forall|a: int, b: int| 0 <= a < b < changed.len() implies (
        #[trigger] changed[a]).0@ != (#[trigger] changed[b]).0@ by {
            assert(pairs[a].0@ != pairs[b].0@);
        }
        assert forall|a: int| 0 <= a < changed.len() implies (
        #[trigger] changed[a]).1.storable() by {
            assert(pairs[a].1.storable());
        }
    }
}

/// The first entry with the key.
fn find_entry(pairs: &Vec<(String, Json)>, key: &str) -> (r: Option<usize>)
    ensures
        match r {
            Some(i) => first_entry(pairs@, key@, i as int),
            None => no_entry(pairs@, key@),
        },
{
    let mut i: usize = 0;
    while i < pairs.len()
        invariant
            i <= pairs@.len(),
            forall|j: int| 0 <= j < i ==> (#[trigger] pairs@[j]).0@ != key@,
        decreases pairs@.len() - i,
    {
        if same_text(pairs[i].0.as_str(), key) {
            return Some(i);
        }
        i = i + 1;
    }
    None
}

impl Json {
    /// The member with the given key.
    pub fn get(&self, key: &str) -> (r: Option<&Json>)
        ensures
            match r {
                Some(j) => member(self@, key@) == Some(j@),
                None => member(self@, key@) is None,
            },
    {
        match self {
            Json::Object(pairs) => match find_entry(pairs, key) {
                Some(i) => {
                    proof {
                        lemma_first_entry(pairs@, key@, i as int);
                    }
                    Some(&pairs[i].1)
                },
                None => {
                    proof {
                        lemma_no_entry(pairs@, key@);
                    }
                    None
                },
            },
            _ => None,
        }
    }

    /// The member with the given key, to change.
    pub fn get_mut(&mut self, key: &str) -> (r: Option<&mut Json>)
        ensures
            match r {
                Some(j) => {
                    &&& member(old(self)@, key@) == Some((*j)@)
                    &&& final(self)@ == with_member(old(self)@, key@, (*final(j))@)
                    &&& old(self).storable() ==> (*j).storable()
                    &&& old(self).storable() && (*final(j)).storable() ==> final(self).storable()
                },
                None => member(old(self)@, key@) is None && *final(self) == *old(self),
            },
    {
        match self {
            Json::Object(pairs) => match find_entry(pairs, key) {
                Some(i) => {
                    let ghost before = pairs@;
                    proof {
                        lemma_first_entry(before, key@, i as int);
                    }
                    let entry = &mut pairs[i];
                    let j = &mut entry.1;
                    proof {
                        let after = after_borrow(*pairs);
                        assert(after@ == before.update(i as int, (before[i as int].0, *final(j))));
                        lemma_update_entry(before, after@, key@, i as int);
                        lemma_update_storable(before, after@, i as int);
                    }
                    Some(j)
                },
                None => {
                    proof {
                        lemma_no_entry(pairs@, key@);
                    }
                    None
                },
            },
            _ => None,
        }
    }

    /// Sets the member with the given key of an object.
    pub fn insert(&mut self, key: &str, value: Json)
        requires
            old(self)@ is Object,
        ensures
            final(self)@ == with_member(old(self)@, key@, value@),
            old(self).storable() && value.storable() ==> final(self).storable(),
    {
        if let Json::Object(pairs) = self {
            let ghost before = pairs@;
            match find_entry(pairs, key) {
                Some(i) => {
                    let kept = pairs[i].0.clone();
                    pairs.set(i, (kept, value));
                    proof {
                        lemma_update_entry(before, pairs@, key@, i as int);
                        lemma_update_storable(before, pairs@, i as int);
                    }
                },
                None => {
                    pairs.push((key.to_owned(), value));
                    proof {
                        let entry = pairs@[before.len() as int];
                        assert(pairs@ == before.push(entry));
                        lemma_push_entry(before, entry);
                        if entries_storable(before) && value.storable() {
                            assert forall|a: int, b: int| 0 <= a < b < pairs@.len() implies (
                            #[trigger] pairs@[a]).0@ != (#[trigger] pairs@[b]).0@ by {
                                assert(before[a].0@ != key@);
                                if b < before.len() {
                                    assert(before[a].0@ != before[b].0@);
                                }
                            }
                            assert forall|a: int| 0 <= a < pairs@.len() implies (
                            #[trigger] pairs@[a]).1.storable() by {
                                if a < before.len() {
                                    assert(before[a].1.storable());
                                }
                            }
                            assert(entries_storable(pairs@));
                        }
                    }
                },
            }
        }
    }

    /// Whether the document is an object.
    pub fn is_object(&self) -> (r: bool)
        ensures
            r == (self@ is Object),
    {
        matches!(self, Json::Object(_))
    }

    /// The text that the document is, if it is one.
    pub fn as_str(&self) -> (r: Option<&str>)
        ensures
            match r {
                Some(s) => self@ == JsonView::Text(s@),
                None => !(self@ is Text),
            },
    {
        match self {
            Json::Text(s) => Some(s.as_str()),
            _ => None,
        }
    }

    /// The truth value that the document is, if it is one.
    pub fn as_bool(&self) -> (r: Option<bool>)
        ensures
            r == bool_in(Some(self@)),
    {
        match self {
            Json::Bool(b) => Some(*b),
            _ => None,
        }
    }

    /// The unsigned integer that the document is, if it is one.
    pub fn as_u64(&self) -> (r: Option<u64>)
        ensures
            r == u64_in(Some(self@)),
    {
        match self {
            Json::Integer(i) => if 0 <= *i && *i <= 0xffff_ffff_ffff_ffff {
                Some(*i as u64)
            } else {
                None
            },
            _ => None,
        }
    }

    /// The items of the document, if it is an array.
    pub fn as_array(&self) -> (r: Option<&Vec<Json>>)
        ensures
            match r {
                Some(items) => self@ == JsonView::Array(array_view(items@)),
                None => !(self@ is Array),
            },
    {
        match self {
            Json::Array(items) => Some(items),
            _ => None,
        }
    }

    /// The items of the document, to change, if it is an array.
    pub fn as_array_mut(&mut self) -> (r: Option<&mut Vec<Json>>)
        ensures
            match r {
                Some(items) => {
                    &&& old(self)@ == JsonView::Array(array_view((*items)@))
                    &&& final(self)@ == JsonView::Array(array_view((*final(items))@))
                    &&& old(self).storable() ==> items_storable((*items)@)
                    &&& items_storable((*final(items))@) ==> final(self).storable()
                },
                None => !(old(self)@ is Array) && *final(self) == *old(self),
            },
    {
        match self {
            Json::Array(items) => Some(items),
            _ => None,
        }
    }
}

/// Whether the items of an array keep to what [`Json::storable`] asks.
pub open spec fn items_storable(items: Seq<Json>) -> bool {
    forall|i: int| 0 <= i < items.len() ==> (#[trigger] items[i]).storable()
}

/// The text of the member with the given key, if it is one.
pub fn member_text<'a>(j: &'a Json, key: &str) -> (r: Option<&'a str>)
    ensures
        match r {
            Some(s) => text_in(member(j@, key@)) == Some(s@),
            None => text_in(member(j@, key@)) is None,
        },
{
    match j.get(key) {
        Some(value) => value.as_str(),
        None => None,
    }
}

/// The first item from `from` on whose member with the given key is the text.
pub open spec fn item_index(
    items: Seq<JsonView>,
    key: Seq<char>,
    text: Seq<char>,
    from: int,
) -> Option<int>
    decreases items.len() - from,
{
    if from >= items.len() {
        None
    } else if text_in(member(items[from], key)) == Some(text) {
        Some(from)
    } else {
        item_index(items, key, text, from + 1)
    }
}

/// An item that is found is there, holds the text, and is an object.
pub proof fn lemma_item_index(items: Seq<JsonView>, key: Seq<char>, text: Seq<char>, from: int)
    requires
        0 <= from,
    ensures
        item_index(items, key, text, from) matches Some(i) ==> from <= i < items.len() && text_in(
            member(items[i], key),
        ) == Some(text) && items[i] is Object,
    decreases items.len() - from,
{
    if from < items.len() && text_in(member(items[from], key)) != Some(text) {
        lemma_item_index(items, key, text, from + 1);
    }
}

/// Items with the same members at the key are found alike.
pub proof fn lemma_same_index(
    items: Seq<JsonView>,
    others: Seq<JsonView>,
    key: Seq<char>,
    text: Seq<char>,
    from: int,
)
    requires
        0 <= from,
        items.len() == others.len(),
        forall|i: int|
            0 <= i < items.len() ==> member(#[trigger] items[i], key) == member(others[i], key),
    ensures
        item_index(items, key, text, from) == item_index(others, key, text, from),
    decreases items.len() - from,
{
    if from < items.len() {
        assert(member(items[from], key) == member(others[from], key));
        lemma_same_index(items, others, key, text, from + 1);
    }
}

/// The first item whose member with the given key is the text.
pub fn find_item(items: &Vec<Json>, key: &str, text: &str) -> (r: Option<usize>)
    ensures
        match r {
            Some(i) => i < items@.len() && item_index(array_view(items@), key@, text@, 0) == Some(
                i as int,
            ) && items@[i as int]@ is Object,
            None => item_index(array_view(items@), key@, text@, 0) is None,
        },
{
    let mut i: usize = 0;
    while i < items.len()
        invariant
            i <= items@.len(),
            item_index(array_view(items@), key@, text@, 0) == item_index(
                array_view(items@),
                key@,
                text@,
                i as int,
            ),
        decreases items@.len() - i,
    {
        assert(array_view(items@)[i as int] == items@[i as int]@);
        if let Some(found) = member_text(&items[i], key) {
            if same_text(found, text) {
                return Some(i);
            }
        }
        i = i + 1;
    }
    None
}

} // verus!
