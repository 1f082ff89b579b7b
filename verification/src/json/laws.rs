//! What reading and rendering JSON values promises.

use crate::json::{self, JsonView};
use crate::text;
use vstd::prelude::*;

verus! {

/// A field of an object is found by its name, the last of that name where
/// there are several; no other value has fields.
pub proof fn law_field_is_found_by_name(
    fields: Seq<(Seq<char>, JsonView)>,
    i: int,
    key: Seq<char>,
    other: JsonView,
)
    requires
        !(other is Object),
    ensures
        0 <= i < fields.len() && fields[i].0 == key && (forall|k: int|
            i < k < fields.len() ==> (#[trigger] fields[k]).0 != key) ==> json::get_spec(
            JsonView::Object(fields),
            key,
        ) == Some(fields[i].1),
        (forall|k: int| 0 <= k < fields.len() ==> (#[trigger] fields[k]).0 != key)
            ==> json::get_spec(JsonView::Object(fields), key) is None,
        json::get_spec(other, key) is None,
    decreases fields.len(),
{
    if fields.len() > 0 {
        let d = fields.drop_last();
        assert(fields[fields.len() - 1] == fields.last());
        assert(forall|k: int| 0 <= k < d.len() ==> d[k] == fields[k]);
        law_field_is_found_by_name(d, i, key, other);
    }
}

/// A field reads as a text or as a number only where it is one; a number is
/// what its digits say, within 64 bits and without a sign.
pub proof fn law_field_reads_as_what_it_is(n: nat, t: Seq<char>)
    ensures
        json::text_spec(Some(JsonView::Text(t))) == Some(t),
        json::text_spec(Some(JsonView::Number(t))) is None,
        json::text_spec(Some(JsonView::Null)) is None,
        json::text_spec(None) is None,
        json::u64_spec(Some(JsonView::Text(t))) is None,
        json::u64_spec(Some(JsonView::Null)) is None,
        json::u64_spec(None) is None,
        n <= u64::MAX ==> json::u64_spec(Some(JsonView::Number(text::decimal(n)))) == Some(
            n as u64,
        ),
        n > u64::MAX ==> json::u64_spec(Some(JsonView::Number(text::decimal(n)))) is None,
        json::u64_spec(Some(JsonView::Number(seq!['-'] + text::decimal(n)))) is None,
{
    text::laws::law_decimal_reads_back(n);
    let d = text::decimal(n);
    assert(text::is_digit(d[0]));
    let m = seq!['-'] + d;
    assert(m[0] == '-');
    assert(!text::is_digit(m[0]));
}

/// A signed integer of 64 bits is told from one that does not fit.
pub proof fn law_signed_range(n: int)
    ensures
        json::is_i64(json::signed(n)) <==> -0x8000_0000_0000_0000 <= n <= 0x7FFF_FFFF_FFFF_FFFF,
{
    reveal_strlit("-");
    let m: nat = if n < 0 {
        (-n) as nat
    } else {
        n as nat
    };
    text::laws::law_decimal_reads_back(m);
    let d = text::decimal(m);
    assert(text::is_digit(d[0]));
    assert(text::unsigned_digits(d) == d);
    if n < 0 {
        let t = json::signed(n);
        assert(t.skip(1) =~= d);
        assert(t[0] == '-' && t[1] == d[0]);
    }
}

/// Arrays are their items between brackets, with a comma between each two; the
/// plain values are their own words.
pub proof fn law_items_are_rendered_in_order(items: Seq<JsonView>, t: Seq<char>)
    ensures
        json::rendered(JsonView::Array(items)) == "["@ + text::join(
            items.map_values(|v: JsonView| json::rendered(v)),
            ","@,
        ) + "]"@,
        json::rendered(JsonView::Null) == "null"@,
        json::rendered(JsonView::Bool(true)) == "true"@,
        json::rendered(JsonView::Bool(false)) == "false"@,
        json::rendered(JsonView::Number(t)) == t,
        json::rendered(JsonView::Text(t)) == json::quoted(t),
{
    lemma_items(items);
}

proof fn lemma_items(items: Seq<JsonView>)
    ensures
        json::rendered_items(items) == text::join(
            items.map_values(|v: JsonView| json::rendered(v)),
            ","@,
        ),
    decreases items.len(),
{
    let f = |v: JsonView| json::rendered(v);
    let all = items.map_values(f);
    if items.len() == 1 {
        assert(all[0] == json::rendered(items[0]));
    } else if items.len() > 1 {
        lemma_items(items.drop_last());
        assert(all.drop_last() =~= items.drop_last().map_values(f));
        assert(all.last() == json::rendered(items.last()));
    }
}

/// Objects are their fields between braces, each a quoted name, a colon and
/// its value, with a comma between each two.
pub proof fn law_fields_are_rendered_in_order(fields: Seq<(Seq<char>, JsonView)>)
    ensures
        json::rendered(JsonView::Object(fields)) == "{"@ + text::join(
            fields.map_values(
                |f: (Seq<char>, JsonView)| json::quoted(f.0) + ":"@ + json::rendered(f.1),
            ),
            ","@,
        ) + "}"@,
{
    lemma_fields(fields);
}

proof fn lemma_fields(fields: Seq<(Seq<char>, JsonView)>)
    ensures
        json::rendered_fields(fields) == text::join(
            fields.map_values(
                |f: (Seq<char>, JsonView)| json::quoted(f.0) + ":"@ + json::rendered(f.1),
            ),
            ","@,
        ),
    decreases fields.len(),
{
    let g = |f: (Seq<char>, JsonView)| json::quoted(f.0) + ":"@ + json::rendered(f.1);
    let all = fields.map_values(g);
    if fields.len() == 1 {
        assert(all[0] == g(fields[0]));
    } else if fields.len() > 1 {
        lemma_fields(fields.drop_last());
        assert(all.drop_last() =~= fields.drop_last().map_values(g));
        assert(all.last() == g(fields.last()));
        let before = json::rendered_fields(fields.drop_last());
        assert(before + ","@ + json::quoted(fields.last().0) + ":"@ + json::rendered(
            fields.last().1,
        ) =~= before + ","@ + g(fields.last()));
    }
}

} // verus!
