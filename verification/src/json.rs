//! JSON documents as plain values.

use vstd::prelude::*;

use crate::number::signed_decimal;
use crate::text::{eq_ignore_ascii_case, equal_ignoring_ascii_case, same_text};

verus! {

/// A JSON value. A number keeps its decimal text.
pub enum Json {
    Null,
    Bool(bool),
    Number(String),
    Text(String),
    List(Vec<Json>),
    Object(Vec<(String, Json)>),
}

/// A JSON value, its texts taken by their characters.
pub ghost enum JsonView {
    Null,
    Bool(bool),
    Number(Seq<char>),
    Text(Seq<char>),
    List(Seq<JsonView>),
    Object(Seq<(Seq<char>, JsonView)>),
}

impl View for Json {
    type V = JsonView;

    open spec fn view(&self) -> JsonView
        decreases self,
    {
        match self {
            Json::Null => JsonView::Null,
            Json::Bool(value) => JsonView::Bool(*value),
            Json::Number(text) => JsonView::Number(text@),
            Json::Text(text) => JsonView::Text(text@),
            Json::List(items) => JsonView::List(
                Seq::new(
                    items@.len(),
                    |i: int|
                        if 0 <= i < items@.len() {
                            items@[i].view()
                        } else {
                            JsonView::Null
                        },
                ),
            ),
            Json::Object(members) => JsonView::Object(
                Seq::new(
                    members@.len(),
                    |i: int|
                        if 0 <= i < members@.len() {
                            (members@[i].0@, members@[i].1.view())
                        } else {
                            (Seq::empty(), JsonView::Null)
                        },
                ),
            ),
        }
    }
}

// ---------------------------------------------------------------------------
// Reading
// ---------------------------------------------------------------------------

#[verifier::external_type_specification]
#[verifier::external_body]
pub struct ExValue(serde_json::Value);

/// What a parsed JSON value holds.
pub uninterp spec fn json_held(value: serde_json::Value) -> JsonView;

/// What `serde_json::from_str` reads in a text: a value, or the message of the
/// error that stopped it.
pub uninterp spec fn json_in(text: Seq<char>) -> Result<JsonView, Seq<char>>;

/// `serde_json::from_str::<serde_json::Value>`: parses a whole text as one JSON
/// value. The value, or the text of the error, depends on the text alone.
#[verifier::external_body]
fn read_json(text: &str) -> (result: Result<serde_json::Value, String>)
    ensures
        match result {
            Ok(value) => json_in(text@) == Ok::<JsonView, Seq<char>>(json_held(value)),
            Err(message) => json_in(text@) == Err::<JsonView, Seq<char>>(message@),
        },
{
    serde_json::from_str(text).map_err(|error| error.to_string())
}

/// Takes a `serde_json::Value` apart, variant by variant: the members of an
/// object in the order in which `serde_json::Map` gives them, and a number by
/// the text that `serde_json::Number` writes for it.
#[verifier::external_body]
fn own_json(value: serde_json::Value) -> (result: Json)
    ensures
        result@ == json_held(value),
{
    match value {
        serde_json::Value::Null => Json::Null,
        serde_json::Value::Bool(value) => Json::Bool(value),
        serde_json::Value::Number(number) => Json::Number(number.to_string()),
        serde_json::Value::String(text) => Json::Text(text),
        serde_json::Value::Array(items) => Json::List(items.into_iter().map(own_json).collect()),
        serde_json::Value::Object(members) => Json::Object(
            members.into_iter().map(|(name, value)| (name, own_json(value))).collect(),
        ),
    }
}

/// The JSON value that `text` is, or the reason why it is none.
pub fn parse_json(text: &str) -> (result: Result<Json, String>)
    ensures
        match (result, json_in(text@)) {
            (Ok(value), Ok(expected)) => value@ == expected,
            (Err(message), Err(expected)) => message@ == expected,
            _ => false,
        },
{
    match read_json(text) {
        Ok(value) => Ok(own_json(value)),
        Err(message) => Err(message),
    }
}

// ---------------------------------------------------------------------------
// Writing
// ---------------------------------------------------------------------------

/// What `serde_json::to_string_pretty` writes for a value: a text, or the
/// message of the error that stopped it.
pub uninterp spec fn json_written(value: JsonView) -> Result<Seq<char>, Seq<char>>;

/// `serde_json::to_string_pretty`: writes a value over several lines. The text,
/// or the text of the error, depends on the value alone.
#[verifier::external_body]
fn write_json(value: &serde_json::Value) -> (result: Result<String, String>)
    ensures
        match result {
            Ok(text) => json_written(json_held(*value)) == Ok::<Seq<char>, Seq<char>>(text@),
            Err(message) => json_written(json_held(*value)) == Err::<Seq<char>, Seq<char>>(
                message@,
            ),
        },
{
    serde_json::to_string_pretty(value).map_err(|error| error.to_string())
}

/// `serde_json::Value::is_object`: whether a value is an object.
#[verifier::external_body]
fn is_object(value: &serde_json::Value) -> (result: bool)
    ensures
        result == (members_in(json_held(*value)) is Some),
{
    value.is_object()
}

/// A list of whole numbers in JSON.
pub open spec fn json_numbers(numbers: Seq<i64>) -> JsonView {
    JsonView::List(
        Seq::new(numbers.len(), |i: int| JsonView::Number(signed_decimal(numbers[i] as int))),
    )
}

/// Whether `after` holds what `before` does but for one member, which is
/// `value`.
pub open spec fn has_set_member(
    before: JsonView,
    after: JsonView,
    name: Seq<char>,
    value: JsonView,
) -> bool {
    &&& members_in(before) is Some
    &&& members_in(after) is Some
    &&& member_in(members_in(after)->0, name) == Some(value)
    &&& forall|other: Seq<char>|
        other != name ==> #[trigger] member_in(members_in(after)->0, other) == member_in(
            members_in(before)->0,
            other,
        )
}

/// `serde_json`'s `IndexMut<&str>` for `Value`, and `Value::from` for a list of
/// numbers: assigns a list to one member of an object, which is added where it
/// is missing. Every other member stays. Where a new member stands among the
/// others is left open.
#[verifier::external_body]
fn set_numbers(value: &mut serde_json::Value, name: &str, numbers: &[i64])
    requires
        members_in(json_held(*old(value))) is Some,
    ensures
        has_set_member(
            json_held(*old(value)),
            json_held(*final(value)),
            name@,
            json_numbers(numbers@),
        ),
{
    value[name] = serde_json::Value::from(numbers);
}

/// What rewriting one member of a JSON document can come to.
pub enum Rewrite {
    Text(String),
    /// The document is no JSON, for that reason.
    Invalid(String),
    NotAnObject,
    /// The document could not be written, for that reason.
    Unwritable(String),
}

/// Sets one member of the JSON object in `text` to a list of numbers and leaves
/// the others as they are.
pub fn rewrite_numbers(text: &str, name: &str, numbers: &[i64]) -> (result: Rewrite)
    ensures
        match (json_in(text@), result) {
            (Err(expected), Rewrite::Invalid(message)) => message@ == expected,
            (Ok(value), Rewrite::NotAnObject) => members_in(value) is None,
            (Ok(value), Rewrite::Text(written)) => exists|after: JsonView| #[trigger]
                has_set_member(value, after, name@, json_numbers(numbers@)) && json_written(after)
                    == Ok::<Seq<char>, Seq<char>>(written@),
            (Ok(value), Rewrite::Unwritable(message)) => exists|after: JsonView| #[trigger]
                has_set_member(value, after, name@, json_numbers(numbers@)) && json_written(after)
                    == Err::<Seq<char>, Seq<char>>(message@),
            _ => false,
        },
{
    let mut value = match read_json(text) {
        Ok(value) => value,
        Err(message) => {
            return Rewrite::Invalid(message);
        },
    };
    if !is_object(&value) {
        return Rewrite::NotAnObject;
    }
    set_numbers(&mut value, name, numbers);
    match write_json(&value) {
        Ok(written) => Rewrite::Text(written),
        Err(message) => Rewrite::Unwritable(message),
    }
}

// ---------------------------------------------------------------------------
// Members
// ---------------------------------------------------------------------------

/// The member of an object by its name.
pub open spec fn member_in(members: Seq<(Seq<char>, JsonView)>, name: Seq<char>) -> Option<JsonView>
    decreases members.len(),
{
    if members.len() == 0 {
        None
    } else if members[0].0 == name {
        Some(members[0].1)
    } else {
        member_in(members.skip(1), name)
    }
}

/// The first member of an object whose name is `name` but for ASCII case.
pub open spec fn member_ignoring_case(
    members: Seq<(Seq<char>, JsonView)>,
    name: Seq<char>,
) -> Option<JsonView>
    decreases members.len(),
{
    if members.len() == 0 {
        None
    } else if equal_ignoring_ascii_case(members[0].0, name) {
        Some(members[0].1)
    } else {
        member_ignoring_case(members.skip(1), name)
    }
}

/// The contents of the members of an object.
pub open spec fn member_views(members: Seq<(String, Json)>) -> Seq<(Seq<char>, JsonView)> {
    members.map_values(|member: (String, Json)| (member.0@, member.1@))
}

/// The members of `value`, if it is an object.
pub open spec fn members_in(value: JsonView) -> Option<Seq<(Seq<char>, JsonView)>> {
    match value {
        JsonView::Object(members) => Some(members),
        _ => None,
    }
}

/// The text of `value`, if it is a text.
pub open spec fn text_in(value: JsonView) -> Option<Seq<char>> {
    match value {
        JsonView::Text(text) => Some(text),
        _ => None,
    }
}

impl Json {
    pub fn members(&self) -> (result: Option<&Vec<(String, Json)>>)
        ensures
            match (result, members_in(self@)) {
                (Some(members), Some(expected)) => member_views(members@) == expected,
                (None, None) => true,
                _ => false,
            },
    {
        match self {
            Json::Object(members) => {
                proof {
                    reveal_with_fuel(<Json as View>::view, 2);
                    let expected = members_in(self@)->0;
                    assert(member_views(members@).len() == expected.len());
                    assert forall|i: int| 0 <= i < expected.len() implies member_views(members@)[i]
                        == #[trigger] expected[i] by {
                        assert(expected[i].0 == members@[i].0@);
                        assert(expected[i].1 == members@[i].1@);
                    }
                    assert(member_views(members@) =~= expected);
                }
                Some(members)
            },
            _ => None,
        }
    }

    pub fn text(&self) -> (result: Option<&str>)
        ensures
            match (result, text_in(self@)) {
                (Some(text), Some(expected)) => text@ == expected,
                (None, None) => true,
                _ => false,
            },
    {
        match self {
            Json::Text(text) => Some(text.as_str()),
            _ => None,
        }
    }
}

pub fn member<'a>(members: &'a Vec<(String, Json)>, name: &str) -> (result: Option<&'a Json>)
    ensures
        match (result, member_in(member_views(members@), name@)) {
            (Some(value), Some(expected)) => value@ == expected,
            (None, None) => true,
            _ => false,
        },
{
    let ghost views = member_views(members@);
    let mut i: usize = 0;
    assert(views.skip(0) =~= views);
    while i < members.len()
        invariant
            i <= members@.len(),
            views == member_views(members@),
            member_in(views, name@) == member_in(views.skip(i as int), name@),
        decreases members@.len() - i,
    {
        assert(views.skip(i as int)[0] == views[i as int]);
        assert(views.skip(i as int).skip(1) =~= views.skip(i + 1));
        if same_text(members[i].0.as_str(), name) {
            return Some(&members[i].1);
        }
        i = i + 1;
    }
    None
}

pub fn member_any_case<'a>(members: &'a Vec<(String, Json)>, name: &str) -> (result: Option<
    &'a Json,
>)
    ensures
        match (result, member_ignoring_case(member_views(members@), name@)) {
            (Some(value), Some(expected)) => value@ == expected,
            (None, None) => true,
            _ => false,
        },
{
    let ghost views = member_views(members@);
    let mut i: usize = 0;
    assert(views.skip(0) =~= views);
    while i < members.len()
        invariant
            i <= members@.len(),
            views == member_views(members@),
            member_ignoring_case(views, name@) == member_ignoring_case(
                views.skip(i as int),
                name@,
            ),
        decreases members@.len() - i,
    {
        assert(views.skip(i as int)[0] == views[i as int]);
        assert(views.skip(i as int).skip(1) =~= views.skip(i + 1));
        if eq_ignore_ascii_case(members[i].0.as_str(), name) {
            return Some(&members[i].1);
        }
        i = i + 1;
    }
    None
}

} // verus!
