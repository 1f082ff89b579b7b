//! The parameters of the methods.

use crate::commands::{self, RequestError, SelectionError};
use crate::contracts::{
    AnswerSelection, OptionId, ARRAY_MAX_ITEMS, PAGE_DEFAULT, PAGE_MAX, TEXT_MAX_BYTES,
};
use crate::digest::bytes_of;
use crate::json::{self, Json};
use crate::policy::scan::{self, split_by, strip_prefix};
use crate::text::{self, owned, parse_unsigned, same};
use vstd::prelude::*;

verus! {

/// The text of a parameter.
pub open spec fn text_of_param(params: json::JsonView, key: Seq<char>) -> Option<Seq<char>> {
    json::text_spec(json::get_spec(params, key))
}

/// The number of a parameter.
pub open spec fn number_of_param(params: json::JsonView, key: Seq<char>) -> Option<u64> {
    json::u64_spec(json::get_spec(params, key))
}

/// The text of a parameter, owned.
pub fn text_param(params: &Json, key: &str) -> (r: Option<String>)
    ensures
        text::opt_text(r) == text_of_param(params@, key@),
{
    match params.get_text(key) {
        Some(t) => Some(owned(t)),
        None => None,
    }
}

/// A number that is refused.
pub open spec fn number_outcome(r: Result<u64, RequestError>) -> Result<
    u64,
    commands::Refusal,
> {
    match r {
        Ok(n) => Ok(n),
        Err(e) => Err(e@),
    }
}

pub open spec fn limit_outcome(r: Result<u32, RequestError>) -> Result<
    u32,
    commands::Refusal,
> {
    match r {
        Ok(n) => Ok(n),
        Err(e) => Err(e@),
    }
}

/// The cursor that events are read after: zero where none is given.
pub open spec fn cursor_after(params: json::JsonView) -> Result<
    u64,
    commands::Refusal,
> {
    match json::get_spec(params, "after_cursor"@) {
        None => Ok(0u64),
        Some(v) => match json::u64_spec(Some(v)) {
            Some(n) => if n <= i64::MAX {
                Ok(n)
            } else {
                Err(RequestError::InvalidAfterCursor)
            },
            None => Err(RequestError::InvalidAfterCursor),
        },
    }
}

/// Executable [`cursor_after`].
pub fn after_cursor(params: &Json) -> (r: Result<u64, RequestError>)
    ensures
        number_outcome(r) == cursor_after(params@),
{
    match params.get("after_cursor") {
        None => Ok(0),
        Some(v) => match v.as_u64() {
            Some(n) => if n <= 9223372036854775807 {
                Ok(n)
            } else {
                Err(RequestError::InvalidAfterCursor)
            },
            None => Err(RequestError::InvalidAfterCursor),
        },
    }
}

/// The size of a page: the default where none is given, and never more than
/// the maximum.
pub open spec fn limit_of(params: json::JsonView) -> Result<
    u32,
    commands::Refusal,
> {
    match json::get_spec(params, "page"@) {
        None => Ok(PAGE_DEFAULT),
        Some(page) => if !(page is Object) {
            Err(RequestError::InvalidPage)
        } else {
            match json::get_spec(page, "page_size"@) {
                None => Ok(PAGE_DEFAULT),
                Some(v) => match json::u64_spec(Some(v)) {
                    Some(n) => if n == 0 {
                        Err(RequestError::InvalidPageSize)
                    } else if n <= PAGE_MAX {
                        Ok(n as u32)
                    } else {
                        Ok(PAGE_MAX)
                    },
                    None => Err(RequestError::InvalidPageSize),
                },
            }
        },
    }
}

fn is_object(json: &Json) -> (r: bool)
    ensures
        r == (json@ is Object),
{
    match json {
        Json::Object(_) => true,
        _ => false,
    }
}

/// Executable [`limit_of`].
pub fn page_limit(params: &Json) -> (r: Result<u32, RequestError>)
    ensures
        limit_outcome(r) == limit_of(params@),
{
    let page: &Json = match params.get("page") {
        None => {
            return Ok(PAGE_DEFAULT);
        },
        Some(p) => p,
    };
    if !is_object(page) {
        return Err(RequestError::InvalidPage);
    }
    match page.get("page_size") {
        None => Ok(PAGE_DEFAULT),
        Some(v) => match v.as_u64() {
            Some(n) => if n == 0 {
                Err(RequestError::InvalidPageSize)
            } else if n <= PAGE_MAX as u64 {
                Ok(n as u32)
            } else {
                Ok(PAGE_MAX)
            },
            None => Err(RequestError::InvalidPageSize),
        },
    }
}

/// A cursor: a generation, and an offset that is zero where none is given.
pub open spec fn cursor_text(cursor: Seq<char>) -> Result<(u64, u64), commands::Refusal> {
    match scan::stripped(cursor, "gen:"@) {
        None => Err(RequestError::InvalidPageCursor),
        Some(rest) => match scan::parted_by(rest, ":offset:"@) {
            None => match text::unsigned_value(rest) {
                Some(generation) => Ok((generation, 0u64)),
                None => Err(RequestError::InvalidPageCursor),
            },
            Some(pair) => match (
                text::unsigned_value(pair.0),
                text::unsigned_value(pair.1),
            ) {
                (Some(generation), Some(offset)) => if offset > i64::MAX {
                    Err(RequestError::PageCursorOffsetOutOfRange)
                } else {
                    Ok((generation, offset))
                },
                _ => Err(RequestError::InvalidPageCursor),
            },
        },
    }
}

/// The cursor of a page, where one is given.
pub open spec fn cursor_of(params: json::JsonView) -> Result<
    Option<(u64, u64)>,
    commands::Refusal,
> {
    match json::get_spec(params, "page"@) {
        None => Ok(None),
        Some(page) => if !(page is Object) {
            Err(RequestError::InvalidPage)
        } else {
            match json::get_spec(page, "cursor"@) {
                None => Ok(None),
                Some(json::JsonView::Text(t)) => match cursor_text(t) {
                    Ok(c) => Ok(Some(c)),
                    Err(e) => Err(e),
                },
                Some(_) => Err(RequestError::InvalidPageCursor),
            }
        },
    }
}

pub open spec fn cursor_outcome(r: Result<Option<(u64, u64)>, RequestError>) -> Result<
    Option<(u64, u64)>,
    commands::Refusal,
> {
    match r {
        Ok(c) => Ok(c),
        Err(e) => Err(e@),
    }
}

fn parse_cursor(cursor: &str) -> (r: Result<(u64, u64), RequestError>)
    ensures
        match cursor_text(cursor@) {
            Ok(c) => r == Ok::<(u64, u64), RequestError>(c),
            Err(e) => r matches Err(x) && x@ == e,
        },
{
    let rest: String = match strip_prefix(cursor, "gen:") {
        Some(t) => t,
        None => {
            return Err(RequestError::InvalidPageCursor);
        },
    };
    match split_by(rest.as_str(), ":offset:") {
        None => match parse_unsigned(rest.as_str()) {
            Some(generation) => Ok((generation, 0)),
            None => Err(RequestError::InvalidPageCursor),
        },
        Some((generation, offset)) => match (
            parse_unsigned(generation.as_str()),
            parse_unsigned(offset.as_str()),
        ) {
            (Some(g), Some(o)) => if o > 9223372036854775807 {
                Err(RequestError::PageCursorOffsetOutOfRange)
            } else {
                Ok((g, o))
            },
            _ => Err(RequestError::InvalidPageCursor),
        },
    }
}

/// Executable [`cursor_of`].
pub fn status_cursor(params: &Json) -> (r: Result<Option<(u64, u64)>, RequestError>)
    ensures
        cursor_outcome(r) == cursor_of(params@),
{
    let page: &Json = match params.get("page") {
        None => {
            return Ok(None);
        },
        Some(p) => p,
    };
    if !is_object(page) {
        return Err(RequestError::InvalidPage);
    }
    match page.get("cursor") {
        None => Ok(None),
        Some(v) => match v {
            Json::Text(t) => match parse_cursor(t.as_str()) {
                Ok(c) => Ok(Some(c)),
                Err(e) => Err(e),
            },
            _ => Err(RequestError::InvalidPageCursor),
        },
    }
}

/// The selection of an answer: an option by its id, or a text of its own,
/// never both.
pub open spec fn selection_of(value: json::JsonView) -> Result<
    AnswerSelection<Seq<char>>,
    SelectionError,
> {
    let kind = text_of_param(value, "kind"@);
    if kind == Some("option"@) {
        if json::get_spec(value, "text"@) is Some {
            Err(SelectionError::ConflictingFields)
        } else {
            match text_of_param(value, "option_id"@) {
                Some(t) => if t.len() == 0 {
                    Err(SelectionError::MissingOptionId)
                } else {
                    Ok(AnswerSelection::Option { option_id: OptionId(t) })
                },
                None => Err(SelectionError::MissingOptionId),
            }
        }
    } else if kind == Some("custom"@) {
        if json::get_spec(value, "option_id"@) is Some {
            Err(SelectionError::ConflictingFields)
        } else {
            match text_of_param(value, "text"@) {
                Some(t) => if vstd::utf8::encode_utf8(t).len() > TEXT_MAX_BYTES {
                    Err(SelectionError::TextTooLarge)
                } else {
                    Ok(AnswerSelection::Custom { text: t })
                },
                None => Err(SelectionError::MissingText),
            }
        }
    } else {
        Err(SelectionError::UnsupportedKind)
    }
}

/// Executable [`selection_of`].
pub fn parse_selection(value: &Json) -> (r: Result<AnswerSelection, SelectionError>)
    ensures
        match selection_of(value@) {
            Ok(s) => r matches Ok(x) && x@ == s,
            Err(e) => r == Err::<AnswerSelection, SelectionError>(e),
        },
{
    let kind: &str = match value.get_text("kind") {
        Some(k) => k,
        None => {
            return Err(SelectionError::UnsupportedKind);
        },
    };
    proof {
        commands::params::lemma_kinds_differ();
    }
    if same(kind, "option") {
        if value.get("text").is_some() {
            return Err(SelectionError::ConflictingFields);
        }
        match value.get_text("option_id") {
            Some(t) => {
                let chars: Vec<char> = text::chars_of(t);
                if chars.len() == 0 {
                    Err(SelectionError::MissingOptionId)
                } else {
                    Ok(AnswerSelection::Option { option_id: OptionId(owned(t)) })
                }
            },
            None => Err(SelectionError::MissingOptionId),
        }
    } else if same(kind, "custom") {
        if value.get("option_id").is_some() {
            return Err(SelectionError::ConflictingFields);
        }
        match value.get_text("text") {
            Some(t) => if bytes_of(t).len() > TEXT_MAX_BYTES {
                Err(SelectionError::TextTooLarge)
            } else {
                Ok(AnswerSelection::Custom { text: owned(t) })
            },
            None => Err(SelectionError::MissingText),
        }
    } else {
        Err(SelectionError::UnsupportedKind)
    }
}

pub proof fn lemma_kinds_differ()
    ensures
        "option"@ != "custom"@,
{
    reveal_strlit("option");
    reveal_strlit("custom");
    assert("option"@[0] != "custom"@[0]);
}

/// Every item is a string.
pub open spec fn all_strings(items: Seq<json::JsonView>) -> bool {
    forall|i: int| 0 <= i < items.len() ==> (#[trigger] items[i]) is Text
}

pub open spec fn strings_in(items: Seq<json::JsonView>) -> Seq<Seq<char>> {
    Seq::new(
        items.len(),
        |i: int|
            match items[i] {
                json::JsonView::Text(t) => t,
                _ => Seq::empty(),
            },
    )
}

/// A list of strings in a contract: empty where it is not given.
pub open spec fn strings_of(contract: json::JsonView, field: Seq<char>) -> Result<
    Seq<Seq<char>>,
    commands::Refusal,
> {
    match json::get_spec(contract, field) {
        None => Ok(Seq::empty()),
        Some(json::JsonView::Array(items)) => if items.len() > ARRAY_MAX_ITEMS {
            Err(RequestError::ArrayTooLarge { field })
        } else if !all_strings(items) {
            Err(RequestError::ArrayItemNotString { field })
        } else {
            Ok(strings_in(items))
        },
        Some(_) => Err(RequestError::ArrayNotArray { field }),
    }
}

/// Executable [`strings_of`].
pub fn string_array(contract: &Json, field: &'static str) -> (r: Result<Vec<String>, RequestError>)
    ensures
        match strings_of(contract@, field@) {
            Ok(s) => r matches Ok(v) && text::texts(v@) == s,
            Err(e) => r matches Err(x) && x@ == e,
        },
{
    let mut out: Vec<String> = Vec::new();
    assert(text::texts(out@) =~= Seq::empty());
    let items: &Vec<Json> = match contract.get(field) {
        None => {
            return Ok(out);
        },
        Some(Json::Array(items)) => items,
        Some(_) => {
            return Err(RequestError::ArrayNotArray { field });
        },
    };
    let ghost all = json::array_views(items@);
    proof {
        json::lemma_array_views(items@);
    }
    if items.len() > ARRAY_MAX_ITEMS {
        return Err(RequestError::ArrayTooLarge { field });
    }
    let mut i: usize = 0;
    while i < items.len()
        invariant
            i <= items.len(),
            all == json::array_views(items@),
            all.len() == items@.len() <= ARRAY_MAX_ITEMS,
            forall|j: int| 0 <= j < items@.len() ==> #[trigger] all[j] == items@[j]@,
            forall|j: int| 0 <= j < i ==> (#[trigger] all[j]) is Text,
            text::texts(out@) == strings_in(all.take(i as int)),
            json::get_spec(contract@, field@) == Some(json::JsonView::Array(all)),
        decreases items.len() - i,
    {
        assert(all[i as int] == items@[i as int]@);
        match items[i].as_text() {
            Some(t) => {
                let item: String = owned(t);
                proof {
                    text::lemma_texts_push(out@, item);
                }
                out.push(item);
                assert(text::texts(out@) =~= strings_in(all.take(i as int + 1)));
            },
            None => {
                assert(!all_strings(all));
                return Err(RequestError::ArrayItemNotString { field });
            },
        }
        i = i + 1;
    }
    assert(all.take(all.len() as int) =~= all);
    Ok(out)
}

} // verus!
