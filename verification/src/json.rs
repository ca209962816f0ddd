//! JSON values. Text is read and written by `serde_json`; in between the
//! library works on a value type of its own.

use vstd::prelude::*;

use crate::order;
use crate::order::comes_after;
use crate::text::same_text;

verus! {

/// The value type of `serde_json`.
#[verifier::external_type_specification]
#[verifier::external_body]
pub struct ExValue(serde_json::Value);

/// The number type of `serde_json`.
#[verifier::external_type_specification]
#[verifier::external_body]
pub struct ExNumber(serde_json::Number);

/// What a JSON value is. The members of an object stand in the ascending order
/// of their keys.
#[verifier::ext_equal]
pub enum JsonTree {
    Null,
    Bool(bool),
    Unsigned(u64),
    Negative(i64),
    OtherNumber(serde_json::Number),
    Text(Seq<char>),
    List(Seq<JsonTree>),
    Object(Seq<(Seq<char>, JsonTree)>),
}

/// What `serde_json::Number::as_u64` gives: the number itself where it is a
/// whole number that is not negative and fits.
pub uninterp spec fn number_unsigned(number: serde_json::Number) -> Option<u64>;

/// What `serde_json::Number::as_i64` gives: the number itself where it is a
/// whole number that fits.
pub uninterp spec fn number_signed(number: serde_json::Number) -> Option<i64>;

/// What a number is as a JSON value.
pub open spec fn number_tree(number: serde_json::Number) -> JsonTree {
    match (number_unsigned(number), number_signed(number)) {
        (Some(value), _) => JsonTree::Unsigned(value),
        (None, Some(value)) => JsonTree::Negative(value),
        (None, None) => JsonTree::OtherNumber(number),
    }
}

/// Whether the two readings of a number as a whole one agree: one that is not
/// negative reads the same where both take it, and what reads with a sign alone
/// is negative.
pub open spec fn readings_agree(unsigned: Option<u64>, signed: Option<i64>) -> bool {
    match (unsigned, signed) {
        (Some(value), Some(same)) => value == same,
        (Some(value), None) => value > i64::MAX,
        (None, Some(value)) => value < 0,
        (None, None) => true,
    }
}

/// A JSON value.
#[derive(Debug)]
pub enum Json {
    Null,
    Bool(bool),
    Number(serde_json::Number),
    Text(String),
    List(Vec<Json>),
    Object(Vec<JsonMember>),
}

/// A member of a JSON object.
#[derive(Debug)]
pub struct JsonMember {
    pub key: String,
    pub value: Json,
}

/// What the value holds.
pub open spec fn tree(json: Json) -> JsonTree
    decreases json,
{
    match json {
        Json::Null => JsonTree::Null,
        Json::Bool(value) => JsonTree::Bool(value),
        Json::Number(number) => number_tree(number),
        Json::Text(text) => JsonTree::Text(text@),
        Json::List(items) => JsonTree::List(
            Seq::new(
                items@.len(),
                |i: int|
                    if 0 <= i < items@.len() {
                        tree(items@[i])
                    } else {
                        JsonTree::Null
                    },
            ),
        ),
        Json::Object(members) => JsonTree::Object(
            Seq::new(
                members@.len(),
                |i: int|
                    if 0 <= i < members@.len() {
                        (members@[i].key@, tree(members@[i].value))
                    } else {
                        (Seq::empty(), JsonTree::Null)
                    },
            ),
        ),
    }
}

impl View for Json {
    type V = JsonTree;

    open spec fn view(&self) -> JsonTree {
        tree(*self)
    }
}

/// What a list of values holds.
pub open spec fn trees(items: Seq<Json>) -> Seq<JsonTree> {
    items.map_values(|item: Json| item@)
}

/// What a list of members holds.
pub open spec fn member_trees(members: Seq<JsonMember>) -> Seq<(Seq<char>, JsonTree)> {
    members.map_values(|member: JsonMember| (member.key@, member.value@))
}

/// The view of a list and of an object in terms of their parts.
pub proof fn tree_parts(json: Json)
    ensures
        json matches Json::List(items) ==> json@ == JsonTree::List(trees(items@)),
        json matches Json::Object(members) ==> json@ == JsonTree::Object(member_trees(members@)),
{
    match json {
        Json::List(items) => {
            assert(json@->List_0 =~= trees(items@));
        },
        Json::Object(members) => {
            assert(json@->Object_0 =~= member_trees(members@));
        },
        _ => {},
    }
}

/// What a `serde_json::Value` holds.
pub uninterp spec fn value_tree(value: serde_json::Value) -> JsonTree;

/// What `serde_json` reads from a text: a value, or the message of its error.
pub uninterp spec fn json_reading(text: Seq<char>) -> Result<JsonTree, Seq<char>>;

/// What `serde_json` writes for a value, with its indentation: a text, or the
/// message of its error.
pub uninterp spec fn json_pretty(value: JsonTree) -> Result<Seq<char>, Seq<char>>;

/// The outermost layer of a `serde_json::Value`.
#[derive(Debug)]
pub enum JsonParts {
    Null,
    Bool(bool),
    Number(serde_json::Number),
    Text(String),
    List(Vec<serde_json::Value>),
    Object(Vec<(String, serde_json::Value)>),
}

/// Whether members stand in the ascending order of their keys, each key once.
pub open spec fn ascending(members: Seq<(Seq<char>, JsonTree)>) -> bool {
    forall|i: int, j: int|
        0 <= i < j < members.len() ==> order::text_above((#[trigger] members[j]).0, (
        #[trigger] members[i]).0)
}

/// What the values of a list hold.
pub open spec fn value_trees(items: Seq<serde_json::Value>) -> Seq<JsonTree> {
    items.map_values(|item: serde_json::Value| value_tree(item))
}

/// What the members of an object hold.
pub open spec fn value_members(members: Seq<(String, serde_json::Value)>) -> Seq<
    (Seq<char>, JsonTree),
> {
    members.map_values(|member: (String, serde_json::Value)| (member.0@, value_tree(member.1)))
}

/// What the layer with the values below it holds.
pub open spec fn parts_tree(parts: JsonParts) -> JsonTree {
    match parts {
        JsonParts::Null => JsonTree::Null,
        JsonParts::Bool(value) => JsonTree::Bool(value),
        JsonParts::Number(number) => number_tree(number),
        JsonParts::Text(text) => JsonTree::Text(text@),
        JsonParts::List(items) => JsonTree::List(value_trees(items@)),
        JsonParts::Object(members) => JsonTree::Object(value_members(members@)),
    }
}

/// Whether the keys of the layer stand in ascending order, where it is an
/// object.
pub open spec fn parts_ordered(parts: JsonParts) -> bool {
    match parts {
        JsonParts::Object(members) => ascending(value_members(members@)),
        _ => true,
    }
}

/// `serde_json::Number::as_u64`.
#[verifier::external_body]
pub(crate) fn unsigned_of(number: &serde_json::Number) -> (value: Option<u64>)
    ensures
        value == number_unsigned(*number),
{
    number.as_u64()
}

/// `serde_json::Number::as_i64`: it takes a whole number of either sign that
/// fits, and `as_u64` takes those that are not negative.
#[verifier::external_body]
pub(crate) fn signed_of(number: &serde_json::Number) -> (value: Option<i64>)
    ensures
        value == number_signed(*number),
        readings_agree(number_unsigned(*number), value),
{
    number.as_i64()
}

/// `serde_json::Number::from` on a `u64`: the number that `as_u64` gives back.
#[verifier::external_body]
pub(crate) fn unsigned_number(value: u64) -> (number: serde_json::Number)
    ensures
        number_unsigned(number) == Some(value),
{
    serde_json::Number::from(value)
}

/// `serde_json::from_str` for a `serde_json::Value`, with the error written by
/// its `Display`: a function of the text alone.
#[verifier::external_body]
pub(crate) fn parse_value(text: &str) -> (parsed: Result<serde_json::Value, String>)
    ensures
        match parsed {
            Ok(value) => json_reading(text@) is Ok && json_reading(text@)->Ok_0 == value_tree(
                value,
            ),
            Err(message) => json_reading(text@) is Err && json_reading(text@)->Err_0 == message@,
        },
{
    serde_json::from_str::<serde_json::Value>(text).map_err(|error| error.to_string())
}

/// Takes a `serde_json::Value` apart, one layer deep. An object is a
/// `serde_json::Map`, which hands its members out in the ascending order of
/// their keys, each key once.
#[verifier::external_body]
pub(crate) fn open_value(value: serde_json::Value) -> (parts: JsonParts)
    ensures
        parts_tree(parts) == value_tree(value),
        parts_ordered(parts),
{
    match value {
        serde_json::Value::Null => JsonParts::Null,
        serde_json::Value::Bool(inner) => JsonParts::Bool(inner),
        serde_json::Value::Number(inner) => JsonParts::Number(inner),
        serde_json::Value::String(inner) => JsonParts::Text(inner),
        serde_json::Value::Array(inner) => JsonParts::List(inner),
        serde_json::Value::Object(inner) => JsonParts::Object(inner.into_iter().collect()),
    }
}

/// Puts a `serde_json::Value` together from one layer. Members in the ascending
/// order of their keys are all kept as they stand.
#[verifier::external_body]
pub(crate) fn close_value(parts: JsonParts) -> (value: serde_json::Value)
    ensures
        parts_ordered(parts) ==> value_tree(value) == parts_tree(parts),
{
    match parts {
        JsonParts::Null => serde_json::Value::Null,
        JsonParts::Bool(inner) => serde_json::Value::Bool(inner),
        JsonParts::Number(inner) => serde_json::Value::Number(inner),
        JsonParts::Text(inner) => serde_json::Value::String(inner),
        JsonParts::List(inner) => serde_json::Value::Array(inner),
        JsonParts::Object(inner) => serde_json::Value::Object(inner.into_iter().collect()),
    }
}

/// How many levels of lists and objects `serde_json::from_str` reads: it begins
/// with 128 and refuses the level at which none is left.
pub const READABLE_LEVELS: usize = 127;

/// Whether a value holds no number but whole ones, and has no more than so many
/// levels of lists and objects.
pub open spec fn plain(value: JsonTree, levels: nat) -> bool
    decreases levels,
{
    match value {
        JsonTree::OtherNumber(number) => false,
        JsonTree::List(items) => levels > 0 && forall|i: int|
            0 <= i < items.len() ==> plain(#[trigger] items[i], (levels - 1) as nat),
        JsonTree::Object(members) => levels > 0 && forall|i: int|
            0 <= i < members.len() ==> plain((#[trigger] members[i]).1, (levels - 1) as nat),
        _ => true,
    }
}

/// Whether the values of some members are plain.
pub open spec fn plain_members(members: Seq<(Seq<char>, JsonTree)>, levels: nat) -> bool {
    forall|i: int| 0 <= i < members.len() ==> plain((#[trigger] members[i]).1, levels)
}

/// Whether some values are plain.
pub open spec fn plain_items(items: Seq<JsonTree>, levels: nat) -> bool {
    forall|i: int| 0 <= i < items.len() ==> plain(#[trigger] items[i], levels)
}

/// Whether a text reads as `value`, with a line break behind it or without, in
/// case `value` is plain.
pub open spec fn reads_back(text: Seq<char>, value: JsonTree) -> bool {
    plain(value, READABLE_LEVELS as nat) ==> (json_reading(text) matches Ok(found) && found
        == value) && (json_reading(text.push('\n')) matches Ok(found) && found == value)
}

/// `serde_json::to_string_pretty`, with the error written by its `Display`: a
/// function of what the value holds. A `Value` has nothing that cannot be
/// written. What was written of a plain value reads back as that value, with a
/// line break behind it or without. Nothing is said of what a number that is not
/// whole, or too large, reads back as: it is written in its shortest form and
/// read without a promise to the last digit.
#[verifier::external_body]
pub(crate) fn print_value(value: &serde_json::Value) -> (printed: Result<String, String>)
    ensures
        printed is Ok,
        match printed {
            Ok(text) => json_pretty(value_tree(*value)) is Ok && json_pretty(
                value_tree(*value),
            )->Ok_0 == text@ && reads_back(text@, value_tree(*value)),
            Err(message) => json_pretty(value_tree(*value)) is Err && json_pretty(
                value_tree(*value),
            )->Err_0 == message@,
        },
{
    serde_json::to_string_pretty(value).map_err(|error| error.to_string())
}

/// Whether every object within a value has its members in ascending order.
pub open spec fn ordered(value: JsonTree) -> bool
    decreases value,
{
    match value {
        JsonTree::List(items) => ordered_items(items),
        JsonTree::Object(members) => ascending(members) && ordered_members(members),
        _ => true,
    }
}

/// Whether every object within some values has its members in ascending order.
pub open spec fn ordered_items(items: Seq<JsonTree>) -> bool
    decreases items,
{
    items.len() > 0 ==> {
        proof {
            assert(decreases_to!(items => items.drop_last()));
            assert(decreases_to!(items => items[items.len() - 1]));
        }
        ordered_items(items.drop_last()) && ordered(items[items.len() - 1])
    }
}

/// Whether every object within some members has its members in ascending
/// order.
pub open spec fn ordered_members(members: Seq<(Seq<char>, JsonTree)>) -> bool
    decreases members,
{
    members.len() > 0 ==> {
        proof {
            assert(decreases_to!(members => members.drop_last()));
            assert(decreases_to!(members => members[members.len() - 1]));
        }
        ordered_members(members.drop_last()) && ordered(members[members.len() - 1].1)
    }
}

/// Values are ordered when each of them is.
pub proof fn ordered_items_each(items: Seq<JsonTree>)
    ensures
        ordered_items(items) <==> (forall|i: int|
            0 <= i < items.len() ==> ordered(#[trigger] items[i])),
    decreases items.len(),
{
    if items.len() > 0 {
        let front = items.drop_last();
        ordered_items_each(front);
        assert forall|i: int| 0 <= i < items.len() && ordered_items(items) implies ordered(
            #[trigger] items[i],
        ) by {
            if i < items.len() - 1 {
                assert(front[i] == items[i]);
            }
        }
        if forall|i: int| 0 <= i < items.len() ==> ordered(#[trigger] items[i]) {
            assert forall|i: int| 0 <= i < front.len() implies ordered(#[trigger] front[i]) by {
                assert(front[i] == items[i]);
            }
            assert(ordered(items[items.len() - 1]));
        }
    }
}

/// Members are ordered within when each of them is.
pub proof fn ordered_members_each(members: Seq<(Seq<char>, JsonTree)>)
    ensures
        ordered_members(members) <==> (forall|i: int|
            0 <= i < members.len() ==> ordered((#[trigger] members[i]).1)),
    decreases members.len(),
{
    if members.len() > 0 {
        let front = members.drop_last();
        ordered_members_each(front);
        assert forall|i: int| 0 <= i < members.len() && ordered_members(members) implies ordered(
            (#[trigger] members[i]).1,
        ) by {
            if i < members.len() - 1 {
                assert(front[i] == members[i]);
            }
        }
        if forall|i: int| 0 <= i < members.len() ==> ordered((#[trigger] members[i]).1) {
            assert forall|i: int| 0 <= i < front.len() implies ordered((#[trigger] front[i]).1) by {
                assert(front[i] == members[i]);
            }
            assert(ordered(members[members.len() - 1].1));
        }
    }
}

/// Takes a value over from `serde_json`.
pub fn read_value(value: serde_json::Value) -> (json: Json)
    ensures
        json@ == value_tree(value),
        ordered(json@),
    decreases value_tree(value),
{
    let ghost whole = value_tree(value);
    let json = match open_value(value) {
        JsonParts::Null => Json::Null,
        JsonParts::Bool(inner) => Json::Bool(inner),
        JsonParts::Number(inner) => Json::Number(inner),
        JsonParts::Text(inner) => Json::Text(inner),
        JsonParts::List(inner) => {
            let ghost all = inner@;
            let mut rest = inner;
            let mut back: Vec<Json> = Vec::new();
            while rest.len() > 0
                invariant
                    whole == JsonTree::List(value_trees(all)),
                    rest.len() + back.len() == all.len(),
                    rest@ == all.take(rest.len() as int),
                    forall|k: int|
                        0 <= k < back.len() ==> (#[trigger] back@[k])@ == value_tree(
                            all[all.len() - 1 - k],
                        ) && ordered(back@[k]@),
                decreases rest.len(),
            {
                let ghost at = rest.len() - 1;
                match rest.pop() {
                    Some(item) => {
                        proof {
                            assert(item == all[at]);
                            assert(whole->List_0[at] == value_tree(item));
                            assert(decreases_to!(whole => whole->List_0[at]));
                        }
                        back.push(read_value(item));
                    },
                    None => {},
                }
            }
            let items = reversed(back);
            proof {
                tree_parts(Json::List(items));
                assert(trees(items@) =~= value_trees(all));
                ordered_items_each(trees(items@));
                assert forall|i: int| 0 <= i < trees(items@).len() implies ordered(
                    #[trigger] trees(items@)[i],
                ) by {
                    assert(items@[i] == back@[all.len() - 1 - i]);
                }
            }
            Json::List(items)
        },
        JsonParts::Object(inner) => {
            let ghost all = inner@;
            let mut rest = inner;
            let mut back: Vec<JsonMember> = Vec::new();
            while rest.len() > 0
                invariant
                    whole == JsonTree::Object(value_members(all)),
                    rest.len() + back.len() == all.len(),
                    rest@ == all.take(rest.len() as int),
                    forall|k: int|
                        0 <= k < back.len() ==> (#[trigger] back@[k]).key@ == all[all.len() - 1
                            - k].0@ && back@[k].value@ == value_tree(all[all.len() - 1 - k].1)
                            && ordered(back@[k].value@),
                decreases rest.len(),
            {
                let ghost at = rest.len() - 1;
                match rest.pop() {
                    Some(member) => {
                        let (key, item) = member;
                        proof {
                            assert(member == all[at]);
                            assert(whole->Object_0[at].1 == value_tree(item));
                            assert(decreases_to!(whole => whole->Object_0[at].1));
                        }
                        back.push(JsonMember { key, value: read_value(item) });
                    },
                    None => {},
                }
            }
            let members = reversed(back);
            proof {
                tree_parts(Json::Object(members));
                assert(member_trees(members@) =~= value_members(all));
                ordered_members_each(member_trees(members@));
                assert forall|i: int| 0 <= i < member_trees(members@).len() implies ordered(
                    (#[trigger] member_trees(members@)[i]).1,
                ) by {
                    assert(members@[i] == back@[all.len() - 1 - i]);
                }
            }
            Json::Object(members)
        },
    };
    json
}

/// A list from its back to its front.
fn reversed<A>(list: Vec<A>) -> (back: Vec<A>)
    ensures
        back@ == list@.reverse(),
{
    let ghost all = list@;
    let mut list = list;
    let mut back: Vec<A> = Vec::new();
    while list.len() > 0
        invariant
            list.len() + back.len() == all.len(),
            list@ == all.take(list.len() as int),
            forall|k: int| 0 <= k < back.len() ==> #[trigger] back@[k] == all[all.len() - 1 - k],
        decreases list.len(),
    {
        match list.pop() {
            Some(item) => {
                back.push(item);
            },
            None => {},
        }
    }
    assert(back@ =~= all.reverse());
    back
}

/// Hands a value over to `serde_json`.
pub fn write_value(json: &Json) -> (value: serde_json::Value)
    ensures
        ordered(json@) ==> value_tree(value) == json@,
    decreases json,
{
    proof {
        tree_parts(*json);
    }
    match json {
        Json::Null => close_value(JsonParts::Null),
        Json::Bool(inner) => close_value(JsonParts::Bool(*inner)),
        Json::Number(inner) => close_value(JsonParts::Number(clone_number(inner))),
        Json::Text(inner) => close_value(JsonParts::Text(inner.clone())),
        Json::List(items) => {
            let mut list: Vec<serde_json::Value> = Vec::new();
            let mut i: usize = 0;
            while i < items.len()
                invariant
                    i <= items.len(),
                    list.len() == i,
                    json == Json::List(*items),
                    json@ == JsonTree::List(trees(items@)),
                    ordered(json@) ==> forall|k: int|
                        0 <= k < i ==> value_tree(#[trigger] list@[k]) == items@[k]@,
                decreases items.len() - i,
            {
                proof {
                    let whole = trees(items@);
                    assert(whole[i as int] == items@[i as int]@);
                    assert(i < whole.len());
                    ordered_items_each(whole);
                    assert(decreases_to!(*json => items@[i as int]));
                }
                list.push(write_value(&items[i]));
                i += 1;
            }
            proof {
                if ordered(json@) {
                    assert(value_trees(list@) =~= trees(items@));
                }
            }
            close_value(JsonParts::List(list))
        },
        Json::Object(members) => {
            let mut list: Vec<(String, serde_json::Value)> = Vec::new();
            let mut i: usize = 0;
            while i < members.len()
                invariant
                    i <= members.len(),
                    list.len() == i,
                    json == Json::Object(*members),
                    json@ == JsonTree::Object(member_trees(members@)),
                    ordered(json@) ==> forall|k: int|
                        0 <= k < i ==> (#[trigger] list@[k]).0@ == members@[k].key@ && value_tree(
                            list@[k].1,
                        ) == members@[k].value@,
                decreases members.len() - i,
            {
                proof {
                    let whole = member_trees(members@);
                    assert(whole[i as int] == (members@[i as int].key@, members@[i as int].value@));
                    ordered_members_each(whole);
                    assert(decreases_to!(*json => members@[i as int].value));
                }
                list.push((members[i].key.clone(), write_value(&members[i].value)));
                i += 1;
            }
            proof {
                if ordered(json@) {
                    assert(value_members(list@) =~= member_trees(members@));
                }
            }
            close_value(JsonParts::Object(list))
        },
    }
}

/// `Clone` of `serde_json::Number` gives the same number.
#[verifier::external_body]
pub(crate) fn clone_number(number: &serde_json::Number) -> (copy: serde_json::Number)
    ensures
        copy == *number,
{
    number.clone()
}

/// Reads a JSON text.
pub fn read_json(text: &str) -> (parsed: Result<Json, String>)
    ensures
        match parsed {
            Ok(json) => json_reading(text@) is Ok && json_reading(text@)->Ok_0 == json@ && ordered(
                json@,
            ),
            Err(message) => json_reading(text@) is Err && json_reading(text@)->Err_0 == message@,
        },
{
    match parse_value(text) {
        Ok(value) => Ok(read_value(value)),
        Err(message) => Err(message),
    }
}

/// Writes a JSON text with indentation.
pub fn write_json(json: &Json) -> (printed: Result<String, String>)
    ensures
        ordered(json@) ==> match printed {
            Ok(text) => json_pretty(json@) is Ok && json_pretty(json@)->Ok_0 == text@,
            Err(message) => json_pretty(json@) is Err && json_pretty(json@)->Err_0 == message@,
        },
        ordered(json@) ==> (printed matches Ok(text) && reads_back(text@, json@)),
{
    print_value(&write_value(json))
}

/// The test whether a member has this key.
pub open spec fn has_key(key: Seq<char>) -> spec_fn((Seq<char>, JsonTree)) -> bool {
    |member: (Seq<char>, JsonTree)| member.0 == key
}

/// The member of an object with this key.
pub open spec fn member_of(members: Seq<(Seq<char>, JsonTree)>, key: Seq<char>) -> Option<
    JsonTree,
> {
    match crate::order::position(members, has_key(key)) {
        Some(at) => Some(members[at].1),
        None => None,
    }
}

/// The member of a value with this key: a value that is no object has none.
pub open spec fn field(value: JsonTree, key: Seq<char>) -> Option<JsonTree> {
    match value {
        JsonTree::Object(members) => member_of(members, key),
        _ => None,
    }
}

/// The text of a value that is one.
pub open spec fn text_in(value: Option<JsonTree>) -> Option<Seq<char>> {
    match value {
        Some(JsonTree::Text(text)) => Some(text),
        _ => None,
    }
}

/// The values of a list.
pub open spec fn list_in(value: Option<JsonTree>) -> Option<Seq<JsonTree>> {
    match value {
        Some(JsonTree::List(items)) => Some(items),
        _ => None,
    }
}

/// The place of a member with this key.
pub fn find_member(members: &Vec<JsonMember>, key: &str) -> (place: Option<usize>)
    ensures
        crate::order::place_view(place) == crate::order::position(
            member_trees(members@),
            has_key(key@),
        ),
        place matches Some(at) ==> at < members.len() && members@[at as int].key@ == key@,
{
    let ghost all = member_trees(members@);
    let ghost test = has_key(key@);
    let mut i: usize = 0;
    while i < members.len()
        invariant
            i <= members.len(),
            all == member_trees(members@),
            test == has_key(key@),
            forall|k: int| 0 <= k < i ==> !test(#[trigger] all[k]),
        decreases members.len() - i,
    {
        assert(all[i as int] == (members@[i as int].key@, members@[i as int].value@));
        if same_text(members[i].key.as_str(), key) {
            proof {
                crate::order::position_found(all, test, i as int);
            }
            return Some(i);
        }
        i += 1;
    }
    proof {
        crate::order::position_missing(all, test);
    }
    None
}

/// The member of a value with this key.
pub fn get_field<'a>(json: &'a Json, key: &str) -> (found: Option<&'a Json>)
    ensures
        (match found {
            Some(value) => Some(value@),
            None => None,
        }) == field(json@, key@),
{
    proof {
        tree_parts(*json);
    }
    match json {
        Json::Object(members) => match find_member(members, key) {
            Some(at) => {
                assert(member_trees(members@)[at as int] == (
                    members@[at as int].key@,
                    members@[at as int].value@,
                ));
                Some(&members[at].value)
            },
            None => None,
        },
        _ => None,
    }
}

/// The text of a value that is one.
pub fn as_text<'a>(json: Option<&'a Json>) -> (text: Option<&'a str>)
    ensures
        (match text {
            Some(text) => Some(text@),
            None => None,
        }) == text_in(
            match json {
                Some(value) => Some(value@),
                None => None,
            },
        ),
{
    match json {
        Some(Json::Text(text)) => Some(text.as_str()),
        _ => None,
    }
}

/// The values of a list.
pub fn as_list<'a>(json: Option<&'a Json>) -> (items: Option<&'a Vec<Json>>)
    ensures
        (match items {
            Some(items) => Some(trees(items@)),
            None => None,
        }) == list_in(
            match json {
                Some(value) => Some(value@),
                None => None,
            },
        ),
{
    match json {
        Some(value) => {
            proof {
                tree_parts(*value);
            }
            match value {
                Json::List(items) => Some(items),
                _ => None,
            }
        },
        None => None,
    }
}

/// Where a key goes among members in ascending order.
pub open spec fn key_slot(members: Seq<(Seq<char>, JsonTree)>, key: Seq<char>) -> int
    decreases members.len(),
{
    if members.len() > 0 && order::text_above(members.last().0, key) {
        key_slot(members.drop_last(), key)
    } else {
        members.len() as int
    }
}

/// Members with one of them set: it is replaced where it is there, else it
/// goes to its place in the order.
pub open spec fn with_member(
    members: Seq<(Seq<char>, JsonTree)>,
    key: Seq<char>,
    value: JsonTree,
) -> Seq<(Seq<char>, JsonTree)> {
    match crate::order::position(members, has_key(key)) {
        Some(at) => members.update(at, (key, value)),
        None => members.insert(key_slot(members, key), (key, value)),
    }
}

proof fn key_slot_bounds(members: Seq<(Seq<char>, JsonTree)>, key: Seq<char>)
    ensures
        0 <= key_slot(members, key) <= members.len(),
        forall|k: int|
            key_slot(members, key) <= k < members.len() ==> order::text_above(
                (#[trigger] members[k]).0,
                key,
            ),
        key_slot(members, key) > 0 ==> !order::text_above(members[key_slot(members, key) - 1].0, key),
    decreases members.len(),
{
    if members.len() > 0 && order::text_above(members.last().0, key) {
        key_slot_bounds(members.drop_last(), key);
        let at = key_slot(members, key);
        assert forall|k: int| at <= k < members.len() implies order::text_above(
            (#[trigger] members[k]).0,
            key,
        ) by {
            if k < members.len() - 1 {
                assert(members.drop_last()[k] == members[k]);
            }
        }
    }
}

/// A value that is plain within some levels is plain within more.
pub proof fn plain_within_more(value: JsonTree, levels: nat, more: nat)
    requires
        plain(value, levels),
        levels <= more,
    ensures
        plain(value, more),
    decreases levels,
{
    match value {
        JsonTree::List(items) => {
            assert forall|i: int| 0 <= i < items.len() implies plain(
                #[trigger] items[i],
                (more - 1) as nat,
            ) by {
                plain_within_more(items[i], (levels - 1) as nat, (more - 1) as nat);
            }
        },
        JsonTree::Object(members) => {
            assert forall|i: int| 0 <= i < members.len() implies plain(
                (#[trigger] members[i]).1,
                (more - 1) as nat,
            ) by {
                plain_within_more(members[i].1, (levels - 1) as nat, (more - 1) as nat);
            }
        },
        _ => {},
    }
}

/// Setting a member to a plain value leaves plain members plain.
pub proof fn setting_stays_plain(
    members: Seq<(Seq<char>, JsonTree)>,
    key: Seq<char>,
    value: JsonTree,
    levels: nat,
)
    requires
        plain_members(members, levels),
        plain(value, levels),
    ensures
        plain_members(with_member(members, key, value), levels),
{
    let after = with_member(members, key, value);
    crate::order::position_is_first(members, has_key(key));
    key_slot_bounds(members, key);
    let at = match crate::order::position(members, has_key(key)) {
        Some(at) => at,
        None => key_slot(members, key),
    };
    let gone = crate::order::position(members, has_key(key)) is Some;
    assert forall|i: int| 0 <= i < after.len() implies plain((#[trigger] after[i]).1, levels) by {
        if i < at || (gone && i > at) {
            assert(after[i] == members[i]);
        } else if i > at {
            assert(after[i] == members[i - 1]);
        }
    }
}

/// A member of plain members is plain.
pub proof fn found_is_plain(members: Seq<(Seq<char>, JsonTree)>, key: Seq<char>, levels: nat)
    requires
        plain_members(members, levels),
    ensures
        member_of(members, key) matches Some(value) ==> plain(value, levels),
{
    crate::order::position_is_first(members, has_key(key));
}

/// Setting a member keeps the members in order and the values ordered within,
/// sets that member and leaves every other as it is.
pub proof fn setting_a_member(
    members: Seq<(Seq<char>, JsonTree)>,
    key: Seq<char>,
    value: JsonTree,
    other: Seq<char>,
)
    requires
        ascending(members),
    ensures
        ascending(with_member(members, key, value)),
        member_of(with_member(members, key, value), key) == Some(value),
        other != key ==> member_of(with_member(members, key, value), other) == member_of(
            members,
            other,
        ),
        ordered_members(members) && ordered(value) ==> ordered_members(
            with_member(members, key, value),
        ),
{
    let test = has_key(key);
    let also = has_key(other);
    let after = with_member(members, key, value);
    crate::order::position_is_first(members, test);
    crate::order::position_is_first(members, also);
    key_slot_bounds(members, key);
    let found = crate::order::position(members, test);
    let slot = key_slot(members, key);
    let at = match found {
        Some(at) => at,
        None => slot,
    };
    assert forall|i: int, j: int| 0 <= i < j < after.len() implies order::text_above(
        (#[trigger] after[j]).0,
        (#[trigger] after[i]).0,
    ) by {
        match found {
            Some(place) => {
                assert(after[i].0 == members[i].0 && after[j].0 == members[j].0);
            },
            None => {
                let x = if i < slot { i } else { i - 1 };
                let y = if j < slot { j } else { j - 1 };
                if i != slot && j != slot {
                    assert(after[i] == members[x] && after[j] == members[y]);
                } else if j == slot {
                    assert(after[i] == members[x]);
                    assert(!test(members[slot - 1]));
                    order::text_above_orders(members[slot - 1].0, key, key);
                    order::text_above_orders(key, members[slot - 1].0, key);
                    if x < slot - 1 {
                        assert(order::text_above(members[slot - 1].0, members[x].0));
                        order::text_above_orders(key, members[slot - 1].0, members[x].0);
                        order::text_above_orders(members[x].0, members[slot - 1].0, key);
                        order::text_above_orders(members[slot - 1].0, members[x].0, members[x].0);
                    }
                } else {
                    assert(after[j] == members[y]);
                }
            },
        }
    }
    assert(after[at].0 == key);
    assert forall|k: int| 0 <= k < at implies !test(#[trigger] after[k]) by {
        assert(order::text_above(after[at].0, after[k].0));
        order::text_above_orders(key, key, key);
    }
    crate::order::position_found(after, test, at);
    if other != key {
        match crate::order::position(members, also) {
            Some(place) => {
                let now = if found is None && place >= slot {
                    place + 1
                } else {
                    place
                };
                assert(after[now] == members[place]);
                assert forall|k: int| 0 <= k < now implies !also(#[trigger] after[k]) by {
                    assert(order::text_above(after[now].0, after[k].0));
                    order::text_above_orders(other, other, other);
                }
                crate::order::position_found(after, also, now);
            },
            None => {
                assert forall|k: int| 0 <= k < after.len() implies !also(#[trigger] after[k]) by {
                    if k != at {
                        let was = if found is None && k > slot {
                            k - 1
                        } else {
                            k
                        };
                        assert(after[k] == members[was]);
                    }
                }
                crate::order::position_missing(after, also);
            },
        }
    }
    if ordered_members(members) && ordered(value) {
        ordered_members_each(members);
        ordered_members_each(after);
        assert forall|i: int| 0 <= i < after.len() implies ordered((#[trigger] after[i]).1) by {
            if i != at {
                let was = if found is None && i > slot {
                    i - 1
                } else {
                    i
                };
                assert(after[i] == members[was]);
            }
        }
    }
}

/// Sets a member.
pub fn put_member(members: &mut Vec<JsonMember>, key: &str, value: Json)
    ensures
        member_trees(final(members)@) == with_member(
            member_trees(old(members)@),
            key@,
            value@,
        ),
{
    let ghost all = member_trees(members@);
    match find_member(members, key) {
        Some(at) => {
            let ghost held = members@;
            members.set(at, JsonMember { key: key.to_owned(), value });
            assert(member_trees(members@) =~= all.update(at as int, (key@, value@)));
        },
        None => {
            let mut at: usize = members.len();
            assert(all.take(all.len() as int) =~= all);
            while at > 0 && comes_after(members[at - 1].key.as_str(), key)
                invariant
                    at <= members.len(),
                    all == member_trees(members@),
                    key_slot(all, key@) == key_slot(all.take(at as int), key@),
                decreases at,
            {
                proof {
                    assert(all.take(at as int).drop_last() =~= all.take(at - 1));
                    assert(all.take(at as int).last() == (
                        members@[at - 1].key@,
                        members@[at - 1].value@,
                    ));
                }
                at -= 1;
            }
            proof {
                if at > 0 {
                    assert(all.take(at as int).last() == (
                        members@[at - 1].key@,
                        members@[at - 1].value@,
                    ));
                }
                assert(key_slot(all, key@) == at);
            }
            let member = JsonMember { key: key.to_owned(), value };
            members.insert(at, member);
            assert(member_trees(members@) =~= all.insert(at as int, (key@, value@)));
        },
    }
}

/// Whether a value holds no number but whole ones.
pub open spec fn whole_only(value: JsonTree) -> bool
    decreases value,
{
    match value {
        JsonTree::OtherNumber(number) => false,
        JsonTree::List(items) => whole_items(items),
        JsonTree::Object(members) => whole_members(members),
        _ => true,
    }
}

/// Whether some values hold no other number.
pub open spec fn whole_items(items: Seq<JsonTree>) -> bool
    decreases items,
{
    items.len() > 0 ==> {
        proof {
            assert(decreases_to!(items => items.drop_last()));
            assert(decreases_to!(items => items[items.len() - 1]));
        }
        whole_items(items.drop_last()) && whole_only(items[items.len() - 1])
    }
}

/// Whether some members hold no other number.
pub open spec fn whole_members(members: Seq<(Seq<char>, JsonTree)>) -> bool
    decreases members,
{
    members.len() > 0 ==> {
        proof {
            assert(decreases_to!(members => members.drop_last()));
            assert(decreases_to!(members => members[members.len() - 1]));
        }
        whole_members(members.drop_last()) && whole_only(members[members.len() - 1].1)
    }
}

/// Values hold no other number when none of them does.
pub proof fn whole_items_all(items: Seq<JsonTree>)
    requires
        forall|i: int| 0 <= i < items.len() ==> whole_only(#[trigger] items[i]),
    ensures
        whole_items(items),
    decreases items.len(),
{
    if items.len() > 0 {
        assert forall|i: int| 0 <= i < items.drop_last().len() implies whole_only(
            #[trigger] items.drop_last()[i],
        ) by {
            assert(items.drop_last()[i] == items[i]);
        }
        whole_items_all(items.drop_last());
        assert(whole_only(items[items.len() - 1]));
    }
}

/// Members hold no other number when none of them does.
pub proof fn whole_members_all(members: Seq<(Seq<char>, JsonTree)>)
    requires
        forall|i: int| 0 <= i < members.len() ==> whole_only((#[trigger] members[i]).1),
    ensures
        whole_members(members),
    decreases members.len(),
{
    if members.len() > 0 {
        assert forall|i: int| 0 <= i < members.drop_last().len() implies whole_only(
            (#[trigger] members.drop_last()[i]).1,
        ) by {
            assert(members.drop_last()[i] == members[i]);
        }
        whole_members_all(members.drop_last());
        assert(whole_only(members[members.len() - 1].1));
    }
}

proof fn whole_items_at(items: Seq<JsonTree>, at: int)
    requires
        whole_items(items),
        0 <= at < items.len(),
    ensures
        whole_only(items[at]),
    decreases items.len(),
{
    if at < items.len() - 1 {
        whole_items_at(items.drop_last(), at);
    }
}

proof fn whole_members_at(members: Seq<(Seq<char>, JsonTree)>, at: int)
    requires
        whole_members(members),
        0 <= at < members.len(),
    ensures
        whole_only(members[at].1),
    decreases members.len(),
{
    if at < members.len() - 1 {
        whole_members_at(members.drop_last(), at);
    }
}

/// Whether two values are the same. The second holds no number but whole ones.
pub fn same_json(left: &Json, right: &Json) -> (same: bool)
    requires
        whole_only(right@),
    ensures
        same == (left@ == right@),
    decreases right,
{
    proof {
        tree_parts(*left);
        tree_parts(*right);
    }
    match (left, right) {
        (Json::Null, Json::Null) => true,
        (Json::Bool(a), Json::Bool(b)) => *a == *b,
        (Json::Number(a), Json::Number(b)) => match (unsigned_of(a), unsigned_of(b)) {
            (Some(x), Some(y)) => x == y,
            (None, None) => match (signed_of(a), signed_of(b)) {
                (Some(x), Some(y)) => x == y,
                _ => false,
            },
            _ => false,
        },
        (Json::Text(a), Json::Text(b)) => same_text(a.as_str(), b.as_str()),
        (Json::List(a), Json::List(b)) => {
            let ghost x = trees(a@);
            let ghost y = trees(b@);
            if a.len() != b.len() {
                assert(x.len() != y.len());
                return false;
            }
            let mut i: usize = 0;
            while i < a.len()
                invariant
                    i <= a.len() == b.len(),
                    x == trees(a@),
                    y == trees(b@),
                    right == Json::List(*b),
                    whole_items(y),
                    forall|k: int| 0 <= k < i ==> #[trigger] x[k] == y[k],
                decreases a.len() - i,
            {
                proof {
                    whole_items_at(y, i as int);
                    assert(x[i as int] == a@[i as int]@ && y[i as int] == b@[i as int]@);
                    assert(decreases_to!(*right => b@[i as int]));
                }
                if !same_json(&a[i], &b[i]) {
                    assert(x[i as int] != y[i as int]);
                    return false;
                }
                i += 1;
            }
            assert(x =~= y);
            true
        },
        (Json::Object(a), Json::Object(b)) => {
            let ghost x = member_trees(a@);
            let ghost y = member_trees(b@);
            if a.len() != b.len() {
                assert(x.len() != y.len());
                return false;
            }
            let mut i: usize = 0;
            while i < a.len()
                invariant
                    i <= a.len() == b.len(),
                    x == member_trees(a@),
                    y == member_trees(b@),
                    right == Json::Object(*b),
                    whole_members(y),
                    forall|k: int| 0 <= k < i ==> #[trigger] x[k] == y[k],
                decreases a.len() - i,
            {
                proof {
                    whole_members_at(y, i as int);
                    assert(x[i as int] == (a@[i as int].key@, a@[i as int].value@));
                    assert(y[i as int] == (b@[i as int].key@, b@[i as int].value@));
                    assert(decreases_to!(*right => b@[i as int].value));
                }
                if !same_text(a[i].key.as_str(), b[i].key.as_str()) || !same_json(
                    &a[i].value,
                    &b[i].value,
                ) {
                    assert(x[i as int] != y[i as int]);
                    return false;
                }
                i += 1;
            }
            assert(x =~= y);
            true
        },
        _ => false,
    }
}

/// Copies a value.
pub fn clone_json(json: &Json) -> (copy: Json)
    ensures
        copy@ == json@,
    decreases json,
{
    proof {
        tree_parts(*json);
    }
    match json {
        Json::Null => Json::Null,
        Json::Bool(inner) => Json::Bool(*inner),
        Json::Number(inner) => Json::Number(clone_number(inner)),
        Json::Text(inner) => Json::Text(inner.clone()),
        Json::List(items) => {
            let mut list: Vec<Json> = Vec::new();
            let mut i: usize = 0;
            while i < items.len()
                invariant
                    i <= items.len(),
                    list.len() == i,
                    json == Json::List(*items),
                    forall|k: int| 0 <= k < i ==> (#[trigger] list@[k])@ == items@[k]@,
                decreases items.len() - i,
            {
                assert(decreases_to!(*json => items@[i as int]));
                list.push(clone_json(&items[i]));
                i += 1;
            }
            proof {
                tree_parts(Json::List(list));
                assert(trees(list@) =~= trees(items@));
            }
            Json::List(list)
        },
        Json::Object(members) => {
            let mut list: Vec<JsonMember> = Vec::new();
            let mut i: usize = 0;
            while i < members.len()
                invariant
                    i <= members.len(),
                    list.len() == i,
                    json == Json::Object(*members),
                    forall|k: int|
                        0 <= k < i ==> (#[trigger] list@[k]).key@ == members@[k].key@
                            && list@[k].value@ == members@[k].value@,
                decreases members.len() - i,
            {
                assert(decreases_to!(*json => members@[i as int].value));
                list.push(
                    JsonMember {
                        key: members[i].key.clone(),
                        value: clone_json(&members[i].value),
                    },
                );
                i += 1;
            }
            proof {
                tree_parts(Json::Object(list));
                assert(member_trees(list@) =~= member_trees(members@));
            }
            Json::Object(list)
        },
    }
}

} // verus!
