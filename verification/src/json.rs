//! JSON values as plain trees.

use crate::text::{
    self, chars_of, decimal_text, owned, parse_unsigned, same, starts_with_char, text2, text3,
    text_of,
};
use vstd::prelude::*;

pub mod laws;

verus! {

/// A JSON value. A number is held by its canonical text: digits only for an
/// unsigned integer, a leading minus for a negative one, a point or an
/// exponent for anything else.
#[derive(Debug)]
pub enum Json {
    Null,
    Bool(bool),
    Number(String),
    Text(String),
    Array(Vec<Json>),
    Object(Vec<(String, Json)>),
}

/// The mathematical value of a [`Json`] tree.
pub enum JsonView {
    Null,
    Bool(bool),
    Number(Seq<char>),
    Text(Seq<char>),
    Array(Seq<JsonView>),
    Object(Seq<(Seq<char>, JsonView)>),
}

/// The value of a tree.
pub open spec fn json_view(j: Json) -> JsonView
    decreases j,
{
    match j {
        Json::Null => JsonView::Null,
        Json::Bool(b) => JsonView::Bool(b),
        Json::Number(t) => JsonView::Number(t@),
        Json::Text(t) => JsonView::Text(t@),
        Json::Array(items) => JsonView::Array(array_views(items@)),
        Json::Object(fields) => JsonView::Object(object_views(fields@)),
    }
}

/// The values of a list of trees.
pub open spec fn array_views(items: Seq<Json>) -> Seq<JsonView>
    decreases items,
{
    if items.len() == 0 {
        Seq::empty()
    } else {
        array_views(items.drop_last()).push(json_view(items.last()))
    }
}

/// The values of a list of fields.
pub open spec fn object_views(fields: Seq<(String, Json)>) -> Seq<(Seq<char>, JsonView)>
    decreases fields,
{
    if fields.len() == 0 {
        Seq::empty()
    } else {
        object_views(fields.drop_last()).push((fields.last().0@, json_view(fields.last().1)))
    }
}

impl View for Json {
    type V = JsonView;

    open spec fn view(&self) -> JsonView {
        json_view(*self)
    }
}

pub broadcast proof fn lemma_array_views(items: Seq<Json>)
    ensures
        (#[trigger] array_views(items)).len() == items.len(),
        forall|i: int|
            0 <= i < items.len() ==> #[trigger] array_views(items)[i] == json_view(items[i]),
    decreases items.len(),
{
    if items.len() > 0 {
        lemma_array_views(items.drop_last());
    }
}

pub broadcast proof fn lemma_object_views(fields: Seq<(String, Json)>)
    ensures
        (#[trigger] object_views(fields)).len() == fields.len(),
        forall|i: int|
            0 <= i < fields.len() ==> #[trigger] object_views(fields)[i] == (
                fields[i].0@,
                json_view(fields[i].1),
            ),
    decreases fields.len(),
{
    if fields.len() > 0 {
        lemma_object_views(fields.drop_last());
    }
}

/// Declares `serde_json::Value` as an opaque type.
#[verifier::external_type_specification]
#[verifier::external_body]
pub struct ExJsonValue(serde_json::Value);

/// The tree that a `serde_json::Value` holds.
pub uninterp spec fn json_content(value: serde_json::Value) -> JsonView;

/// What parsing a text as JSON yields: its tree, or nothing when the text is
/// not one JSON value.
pub uninterp spec fn parsed_json(text: Seq<char>) -> Option<JsonView>;

/// `serde_json::from_str::<Value>`: the parsed value, or `None` where the
/// parser reports an error. What counts as JSON is the parser's business; the
/// outcome depends on the text alone.
#[verifier::external_body]
fn parse_value(text: &str) -> (r: Option<serde_json::Value>)
    ensures
        match r {
            Some(value) => parsed_json(text@) == Some(json_content(value)),
            None => parsed_json(text@) is None,
        },
{
    serde_json::from_str(text).ok()
}

/// Walks a `serde_json::Value` into a plain tree: arrays and objects keep
/// their order, a number becomes its canonical text (`Number::to_string`).
#[verifier::external_body]
fn read_value(value: serde_json::Value) -> (r: Json)
    ensures
        r@ == json_content(value),
{
    match value {
        serde_json::Value::Null => Json::Null,
        serde_json::Value::Bool(b) => Json::Bool(b),
        serde_json::Value::Number(n) => Json::Number(n.to_string()),
        serde_json::Value::String(s) => Json::Text(s),
        serde_json::Value::Array(a) => Json::Array(a.into_iter().map(read_value).collect()),
        serde_json::Value::Object(o) => {
            Json::Object(o.into_iter().map(|(k, v)| (k, read_value(v))).collect())
        },
    }
}

/// Parses a text as one JSON value.
pub fn parse_json(text: &str) -> (r: Option<Json>)
    ensures
        match r {
            Some(json) => parsed_json(text@) == Some(json@),
            None => parsed_json(text@) is None,
        },
{
    match parse_value(text) {
        Some(value) => Some(read_value(value)),
        None => None,
    }
}

/// The fields of an object; nothing for any other value.
pub open spec fn fields_of(v: JsonView) -> Seq<(Seq<char>, JsonView)> {
    match v {
        JsonView::Object(fields) => fields,
        _ => Seq::empty(),
    }
}

/// The value of a field.
pub open spec fn field(fields: Seq<(Seq<char>, JsonView)>, key: Seq<char>) -> Option<JsonView>
    decreases fields.len(),
{
    if fields.len() == 0 {
        None
    } else if fields.last().0 == key {
        Some(fields.last().1)
    } else {
        field(fields.drop_last(), key)
    }
}

/// The value of a field of an object.
pub open spec fn get_spec(v: JsonView, key: Seq<char>) -> Option<JsonView> {
    field(fields_of(v), key)
}

/// The text of a string value.
pub open spec fn text_spec(v: Option<JsonView>) -> Option<Seq<char>> {
    match v {
        Some(JsonView::Text(t)) => Some(t),
        _ => None,
    }
}

/// The value of a non-negative integer that fits 64 bits.
pub open spec fn number_u64(t: Seq<char>) -> Option<u64> {
    if t.len() > 0 && t[0] == '+' {
        None
    } else {
        text::unsigned_value(t)
    }
}

/// A field read as a non-negative integer.
pub open spec fn u64_spec(v: Option<JsonView>) -> Option<u64> {
    match v {
        Some(JsonView::Number(t)) => number_u64(t),
        _ => None,
    }
}

pub open spec fn opt_json(v: Option<&Json>) -> Option<JsonView> {
    match v {
        Some(j) => Some(j@),
        None => None,
    }
}

pub open spec fn opt_str(v: Option<&str>) -> Option<Seq<char>> {
    match v {
        Some(s) => Some(s@),
        None => None,
    }
}

impl Json {
    /// The value of a field, when this is an object that has it.
    pub fn get(&self, key: &str) -> (r: Option<&Json>)
        ensures
            opt_json(r) == get_spec(self@, key@),
    {
        match self {
            Json::Object(fields) => {
                find_field(fields, key)
            },
            _ => None,
        }
    }

    /// The text, when this is a string.
    pub fn as_text(&self) -> (r: Option<&str>)
        ensures
            opt_str(r) == text_spec(Some(self@)),
    {
        match self {
            Json::Text(t) => Some(t.as_str()),
            _ => None,
        }
    }

    /// The number, when this is a non-negative integer that fits 64 bits.
    pub fn as_u64(&self) -> (r: Option<u64>)
        ensures
            r == u64_spec(Some(self@)),
    {
        match self {
            Json::Number(t) => {
                if text::starts_with_char(t.as_str(), '+') {
                    None
                } else {
                    text::parse_unsigned(t.as_str())
                }
            },
            _ => None,
        }
    }

    /// The text of a field, when it is there and a string.
    pub fn get_text(&self, key: &str) -> (r: Option<&str>)
        ensures
            opt_str(r) == text_spec(get_spec(self@, key@)),
    {
        match self.get(key) {
            Some(v) => v.as_text(),
            None => None,
        }
    }

    /// The number of a field, when it is there and a non-negative integer.
    pub fn get_u64(&self, key: &str) -> (r: Option<u64>)
        ensures
            r == u64_spec(get_spec(self@, key@)),
    {
        match self.get(key) {
            Some(v) => v.as_u64(),
            None => None,
        }
    }
}

/// The value of a field in a field list.
pub fn find_field<'a>(fields: &'a Vec<(String, Json)>, key: &str) -> (r: Option<&'a Json>)
    ensures
        opt_json(r) == field(object_views(fields@), key@),
{
    let ghost all = object_views(fields@);
    proof {
        lemma_object_views(fields@);
    }
    let mut i: usize = fields.len();
    assert(all.take(all.len() as int) =~= all);
    while i > 0
        invariant
            i <= fields.len(),
            all == object_views(fields@),
            all.len() == fields@.len(),
            field(all, key@) == field(all.take(i as int), key@),
        decreases i,
    {
        i = i - 1;
        proof {
            lemma_object_views(fields@);
        }
        assert(all.take(i as int + 1).last() == all[i as int]);
        assert(all.take(i as int + 1).drop_last() =~= all.take(i as int));
        if same(fields[i].0.as_str(), key) {
            return Some(&fields[i].1);
        }
    }
    None
}

impl Clone for Json {
    fn clone(&self) -> (r: Self)
        ensures
            r@ == self@,
        decreases self,
    {
        match self {
            Json::Null => Json::Null,
            Json::Bool(b) => Json::Bool(*b),
            Json::Number(t) => Json::Number(t.clone()),
            Json::Text(t) => Json::Text(t.clone()),
            Json::Array(items) => Json::Array(copy_items(items)),
            Json::Object(fields) => Json::Object(copy_fields(fields)),
        }
    }
}

fn copy_items(items: &Vec<Json>) -> (r: Vec<Json>)
    ensures
        array_views(r@) == array_views(items@),
    decreases items@,
{
    let mut out: Vec<Json> = Vec::new();
    let mut i: usize = 0;
    assert(array_views(items@.take(0)) =~= array_views(out@));
    while i < items.len()
        invariant
            i <= items.len(),
            array_views(out@) == array_views(items@.take(i as int)),
        decreases items.len() - i,
    {
        assert(items@.take(i as int + 1).drop_last() =~= items@.take(i as int));
        let item: Json = items[i].clone();
        let ghost before = out@;
        out.push(item);
        assert(out@.drop_last() =~= before);
        i = i + 1;
    }
    assert(items@.take(items@.len() as int) =~= items@);
    out
}

fn copy_fields(fields: &Vec<(String, Json)>) -> (r: Vec<(String, Json)>)
    ensures
        object_views(r@) == object_views(fields@),
    decreases fields@,
{
    let mut out: Vec<(String, Json)> = Vec::new();
    let mut i: usize = 0;
    assert(object_views(fields@.take(0)) =~= object_views(out@));
    while i < fields.len()
        invariant
            i <= fields.len(),
            object_views(out@) == object_views(fields@.take(i as int)),
        decreases fields.len() - i,
    {
        assert(fields@.take(i as int + 1).drop_last() =~= fields@.take(i as int));
        let value: Json = fields[i].1.clone();
        let ghost before = out@;
        out.push((fields[i].0.clone(), value));
        assert(out@.drop_last() =~= before);
        i = i + 1;
    }
    assert(fields@.take(fields@.len() as int) =~= fields@);
    out
}

/// Adds a field to a field list.
pub fn put(fields: &mut Vec<(String, Json)>, key: &str, value: Json)
    ensures
        object_views(final(fields)@) == object_views(old(fields)@).push((key@, value@)),
{
    let ghost before = fields@;
    fields.push((owned(key), value));
    assert(fields@.drop_last() =~= before);
}

/// Adds an item to an item list.
pub fn add_item(items: &mut Vec<Json>, item: Json)
    ensures
        array_views(final(items)@) == array_views(old(items)@).push(item@),
{
    let ghost before = items@;
    items.push(item);
    assert(items@.drop_last() =~= before);
}

/// A string value.
pub fn text_json(s: &str) -> (r: Json)
    ensures
        r@ == JsonView::Text(s@),
{
    Json::Text(owned(s))
}

/// An unsigned number.
pub fn number_json(n: u64) -> (r: Json)
    ensures
        r@ == JsonView::Number(text::decimal(n as nat)),
{
    Json::Number(decimal_text(n))
}

// ----- rendering -------------------------------------------------------------

pub open spec fn hex_of(d: int) -> char {
    if d < 10 {
        (d + 48) as char
    } else {
        (d + 87) as char
    }
}

/// One character inside a JSON string.
pub open spec fn escaped_char(c: char) -> Seq<char> {
    let n = c as int;
    if c == '"' {
        seq!['\\', '"']
    } else if c == '\\' {
        seq!['\\', '\\']
    } else if n == 8 {
        seq!['\\', 'b']
    } else if n == 9 {
        seq!['\\', 't']
    } else if n == 10 {
        seq!['\\', 'n']
    } else if n == 12 {
        seq!['\\', 'f']
    } else if n == 13 {
        seq!['\\', 'r']
    } else if n < 32 {
        seq!['\\', 'u', '0', '0', hex_of(n / 16), hex_of(n % 16)]
    } else {
        seq![c]
    }
}

pub open spec fn escaped_text(s: Seq<char>) -> Seq<char>
    decreases s.len(),
{
    if s.len() == 0 {
        Seq::empty()
    } else {
        escaped_text(s.drop_last()) + escaped_char(s.last())
    }
}

/// A text as a JSON string.
pub open spec fn quoted(s: Seq<char>) -> Seq<char> {
    seq!['"'] + escaped_text(s) + seq!['"']
}

/// `serde_json::to_string` of a string: between quotation marks, the quotation
/// mark, the backslash and the control characters below the space escaped,
/// everything else as it is.
#[verifier::external_body]
pub(crate) fn quote(s: &str) -> (r: String)
    ensures
        r@ == quoted(s@),
{
    serde_json::to_string(s).unwrap_or_default()
}

/// A value as compact JSON text.
pub open spec fn rendered(v: JsonView) -> Seq<char>
    decreases v,
{
    match v {
        JsonView::Null => "null"@,
        JsonView::Bool(b) => if b {
            "true"@
        } else {
            "false"@
        },
        JsonView::Number(t) => t,
        JsonView::Text(t) => quoted(t),
        JsonView::Array(items) => "["@ + rendered_items(items) + "]"@,
        JsonView::Object(fields) => "{"@ + rendered_fields(fields) + "}"@,
    }
}

/// Items, with a comma between each two.
pub open spec fn rendered_items(items: Seq<JsonView>) -> Seq<char>
    decreases items,
{
    if items.len() == 0 {
        Seq::empty()
    } else if items.len() == 1 {
        rendered(items.last())
    } else {
        rendered_items(items.drop_last()) + ","@ + rendered(items.last())
    }
}

/// Fields, with a comma between each two.
pub open spec fn rendered_fields(fields: Seq<(Seq<char>, JsonView)>) -> Seq<char>
    decreases fields,
{
    if fields.len() == 0 {
        Seq::empty()
    } else if fields.len() == 1 {
        quoted(fields.last().0) + ":"@ + rendered(fields.last().1)
    } else {
        rendered_fields(fields.drop_last()) + ","@ + quoted(fields.last().0) + ":"@ + rendered(
            fields.last().1,
        )
    }
}

/// Executable [`rendered`].
pub fn render_json(json: &Json) -> (r: String)
    ensures
        r@ == rendered(json@),
    decreases json,
{
    match json {
        Json::Null => owned("null"),
        Json::Bool(b) => if *b {
            owned("true")
        } else {
            owned("false")
        },
        Json::Number(t) => t.clone(),
        Json::Text(t) => quote(t.as_str()),
        Json::Array(items) => {
            let inner: String = render_items(items);
            text3("[", inner.as_str(), "]")
        },
        Json::Object(fields) => {
            let inner: String = render_fields(fields);
            text3("{", inner.as_str(), "}")
        },
    }
}

fn render_items(items: &Vec<Json>) -> (r: String)
    ensures
        r@ == rendered_items(array_views(items@)),
    decreases items@,
{
    let ghost all = array_views(items@);
    proof {
        lemma_array_views(items@);
    }
    let mut out: String = String::new();
    let mut i: usize = 0;
    assert(all.take(0) =~= Seq::empty());
    while i < items.len()
        invariant
            i <= items.len(),
            all == array_views(items@),
            all.len() == items@.len(),
            forall|j: int| 0 <= j < items@.len() ==> #[trigger] all[j] == items@[j]@,
            out@ == rendered_items(all.take(i as int)),
        decreases items.len() - i,
    {
        let item: String = render_json(&items[i]);
        assert(all.take(i as int + 1).drop_last() =~= all.take(i as int));
        assert(all.take(i as int + 1).last() == all[i as int]);
        if i > 0 {
            out.push_str(",");
        }
        out.push_str(item.as_str());
        i = i + 1;
    }
    assert(all.take(all.len() as int) =~= all);
    out
}

fn render_fields(fields: &Vec<(String, Json)>) -> (r: String)
    ensures
        r@ == rendered_fields(object_views(fields@)),
    decreases fields@,
{
    let ghost all = object_views(fields@);
    proof {
        lemma_object_views(fields@);
    }
    let mut out: String = String::new();
    let mut i: usize = 0;
    assert(all.take(0) =~= Seq::empty());
    while i < fields.len()
        invariant
            i <= fields.len(),
            all == object_views(fields@),
            all.len() == fields@.len(),
            forall|j: int|
                0 <= j < fields@.len() ==> #[trigger] all[j] == (fields@[j].0@, fields@[j].1@),
            out@ == rendered_fields(all.take(i as int)),
        decreases fields.len() - i,
    {
        let key: String = quote(fields[i].0.as_str());
        let value: String = render_json(&fields[i].1);
        assert(all.take(i as int + 1).drop_last() =~= all.take(i as int));
        assert(all.take(i as int + 1).last() == all[i as int]);
        let ghost before = out@;
        if i > 0 {
            out.push_str(",");
        }
        out.push_str(key.as_str());
        out.push_str(":");
        out.push_str(value.as_str());
        i = i + 1;
        proof {
            if i == 1 {
                assert(out@ =~= key@ + ":"@ + value@);
            } else {
                assert(out@ =~= before + ","@ + key@ + ":"@ + value@);
            }
        }
    }
    assert(all.take(all.len() as int) =~= all);
    out
}

/// A canonical number text that is an integer of 64 bits with a sign.
pub open spec fn is_i64(t: Seq<char>) -> bool {
    if t.len() > 0 && t[0] == '-' {
        text::unsigned_value(t.skip(1)) matches Some(v) && v <= 0x8000_0000_0000_0000
            && !(t.len() > 1 && t[1] == '+')
    } else {
        number_u64(t) matches Some(v) && v <= 0x7FFF_FFFF_FFFF_FFFF
    }
}

/// Executable [`is_i64`].
pub fn fits_i64(t: &str) -> (r: bool)
    ensures
        r == is_i64(t@),
{
    if starts_with_char(t, '-') {
        let chars: Vec<char> = chars_of(t);
        let rest: String = text_of(&chars, 1, chars.len());
        assert(rest@ =~= t@.skip(1));
        if starts_with_char(rest.as_str(), '+') {
            return false;
        }
        match parse_unsigned(rest.as_str()) {
            Some(v) => v <= 0x8000_0000_0000_0000,
            None => false,
        }
    } else if starts_with_char(t, '+') {
        false
    } else {
        match parse_unsigned(t) {
            Some(v) => v <= 0x7FFF_FFFF_FFFF_FFFF,
            None => false,
        }
    }
}

/// A signed number in decimal notation.
pub open spec fn signed(n: int) -> Seq<char> {
    if n < 0 {
        "-"@ + text::decimal((-n) as nat)
    } else {
        text::decimal(n as nat)
    }
}

/// Executable [`signed`].
pub fn signed_text(n: i64) -> (r: String)
    ensures
        r@ == signed(n as int),
{
    if n < 0 {
        let magnitude: u64 = ((-(n + 1)) as u64) + 1;
        let digits: String = decimal_text(magnitude);
        text2("-", digits.as_str())
    } else {
        decimal_text(n as u64)
    }
}

} // verus!
