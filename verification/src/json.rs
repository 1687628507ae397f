//! Reading JSON text.
//!
//! The parts of a document are passed on as JSON text of their own and read
//! once it is known what they should be.

use serde::de::IgnoredAny;
use serde_json::Value;
use std::collections::BTreeMap;
use vstd::prelude::*;
use vstd::std_specs::iter::IteratorSpec;
use vstd::string::to_string_from_display_ensures;

verus! {

/// What is wrong with a JSON text.
#[verifier::external_type_specification]
#[verifier::external_body]
pub struct ExJsonError(serde_json::Error);

/// Whether a text is a JSON object, and what is wrong if not.
pub uninterp spec fn json_object(text: Seq<char>) -> Result<(), Seq<char>>;

/// How many items the JSON array that a text is has, or what is wrong.
pub uninterp spec fn json_array(text: Seq<char>) -> Result<usize, Seq<char>>;

/// The JSON string that a text is, or what is wrong.
pub uninterp spec fn json_string(text: Seq<char>) -> Result<Seq<char>, Seq<char>>;

/// The string that the JSON value of a text is, or what is wrong.
pub uninterp spec fn json_text(text: Seq<char>) -> Result<Seq<char>, Seq<char>>;

/// The number that the JSON value of a text is, a whole one that fits, or what is
/// wrong.
pub uninterp spec fn json_integer(text: Seq<char>) -> Result<i64, Seq<char>>;

/// As `json_integer`, with `null` accepted in place of a number.
pub uninterp spec fn json_optional_integer(text: Seq<char>) -> Result<Option<i64>, Seq<char>>;

/// The array of arrays of two strings each that the JSON value of a text is, or
/// what is wrong.
pub uninterp spec fn json_pairs(text: Seq<char>) -> Result<Seq<(Seq<char>, Seq<char>)>, Seq<char>>;

/// Whether a text is a JSON value, of any kind, and what is wrong if not.
pub uninterp spec fn json_value(text: Seq<char>) -> Result<(), Seq<char>>;

/// The error says `message`.
pub open spec fn says(e: serde_json::Error, message: Seq<char>) -> bool {
    forall|s: String| #[trigger] to_string_from_display_ensures(&e, s) ==> s@ == message
}

/// The two texts of a pair.
pub open spec fn pair_texts(pair: [String; 2]) -> (Seq<char>, Seq<char>) {
    (pair@[0]@, pair@[1]@)
}

/// The texts of a list of pairs.
pub open spec fn pairs_texts(pairs: Seq<[String; 2]>) -> Seq<(Seq<char>, Seq<char>)> {
    pairs.map_values(|pair: [String; 2]| pair_texts(pair))
}

/// `serde_json::from_str` into a map from names to values of which only whether
/// they could be read is kept.
#[verifier::external_body]
pub(crate) fn read_object(text: &str) -> (r: Result<(), serde_json::Error>)
    ensures
        match r {
            Ok(_) => json_object(text@) is Ok,
            Err(e) => json_object(text@) is Err && says(e, json_object(text@)->Err_0),
        },
{
    serde_json::from_str::<BTreeMap<String, IgnoredAny>>(text).map(|_| ())
}

/// `serde_json::from_str` into a vector of values, of which only the number is
/// kept.
#[verifier::external_body]
pub(crate) fn read_array(text: &str) -> (r: Result<usize, serde_json::Error>)
    ensures
        match r {
            Ok(count) => json_array(text@) == Ok::<_, Seq<char>>(count),
            Err(e) => json_array(text@) is Err && says(e, json_array(text@)->Err_0),
        },
{
    serde_json::from_str::<Vec<IgnoredAny>>(text).map(|items| items.len())
}

/// `serde_json::from_str` into a `String`.
#[verifier::external_body]
pub(crate) fn read_string(text: &str) -> (r: Result<String, serde_json::Error>)
    ensures
        match r {
            Ok(s) => json_string(text@) == Ok::<_, Seq<char>>(s@),
            Err(e) => json_string(text@) is Err && says(e, json_string(text@)->Err_0),
        },
{
    serde_json::from_str::<String>(text)
}

/// `serde_json::from_value` into a `String`, of the value that a text is. What it
/// says is wrong names no position.
#[verifier::external_body]
pub(crate) fn read_text(text: &str) -> (r: Result<String, serde_json::Error>)
    ensures
        match r {
            Ok(s) => json_text(text@) == Ok::<_, Seq<char>>(s@),
            Err(e) => json_text(text@) is Err && says(e, json_text(text@)->Err_0),
        },
{
    serde_json::from_value::<String>(serde_json::from_str::<Value>(text)?)
}

/// `serde_json::from_value` into an `i64`, of the value that a text is.
#[verifier::external_body]
pub(crate) fn read_integer(text: &str) -> (r: Result<i64, serde_json::Error>)
    ensures
        match r {
            Ok(i) => json_integer(text@) == Ok::<_, Seq<char>>(i),
            Err(e) => json_integer(text@) is Err && says(e, json_integer(text@)->Err_0),
        },
{
    serde_json::from_value::<i64>(serde_json::from_str::<Value>(text)?)
}

/// `serde_json::from_value` into an `Option<i64>`, of the value that a text is.
#[verifier::external_body]
pub(crate) fn read_optional_integer(text: &str) -> (r: Result<Option<i64>, serde_json::Error>)
    ensures
        match r {
            Ok(i) => json_optional_integer(text@) == Ok::<_, Seq<char>>(i),
            Err(e) => {
                &&& json_optional_integer(text@) is Err
                &&& says(e, json_optional_integer(text@)->Err_0)
            },
        },
{
    serde_json::from_value::<Option<i64>>(serde_json::from_str::<Value>(text)?)
}

/// `serde_json::from_value` into a vector of pairs of strings, of the value that a
/// text is.
#[verifier::external_body]
pub(crate) fn read_pairs(text: &str) -> (r: Result<Vec<[String; 2]>, serde_json::Error>)
    ensures
        match r {
            Ok(pairs) => json_pairs(text@) == Ok::<_, Seq<char>>(pairs_texts(pairs@)),
            Err(e) => json_pairs(text@) is Err && says(e, json_pairs(text@)->Err_0),
        },
{
    serde_json::from_value::<Vec<[String; 2]>>(serde_json::from_str::<Value>(text)?)
}

/// `serde_json::from_str` into a `serde_json::Value`, of which only whether it
/// could be read is kept.
#[verifier::external_body]
pub(crate) fn read_value(text: &str) -> (r: Result<(), serde_json::Error>)
    ensures
        match r {
            Ok(_) => json_value(text@) is Ok,
            Err(e) => json_value(text@) is Err && says(e, json_value(text@)->Err_0),
        },
{
    serde_json::from_str::<Value>(text).map(|_| ())
}

/// A part of a JSON object or array: a member or an item.
pub struct Part {
    /// The name of a member, as the JSON string that stands there; empty for an
    /// item.
    pub name: Seq<char>,
    /// The text of the value.
    pub value: Seq<char>,
}

/// How far a walk over the characters of a JSON text has come.
pub struct Walk {
    /// How many brackets are open.
    pub depth: nat,
    /// The last character read stands in a string.
    pub in_string: bool,
    /// The last character read takes the meaning from the next one.
    pub escaped: bool,
    /// Where the last string starts and, once it has been closed, ends.
    pub start: int,
    pub end: int,
    /// Where the name of the part that is being read starts and ends.
    pub name_start: int,
    pub name_end: int,
    /// Where its value starts.
    pub value_start: int,
    /// The parts of the outermost object or array that have been read.
    pub parts: Seq<Part>,
}

impl Walk {
    /// The part that is being read, where its value ends at `end`.
    pub open spec fn part(self, text: Seq<char>, end: int) -> Part {
        Part {
            name: text.subrange(self.name_start, self.name_end),
            value: text.subrange(self.value_start, end),
        }
    }
}

/// The walk over the first `n` characters of a JSON text.
///
/// Only what stands outside of strings counts. A colon at the first level ends
/// the name of a member and starts its value; a comma there, or the bracket that
/// closes the level, ends a value; a bracket that opens the level, or a comma
/// there, starts the value of an item.
pub open spec fn walk(text: Seq<char>, n: nat) -> Walk
    decreases n,
{
    if n == 0 {
        Walk {
            depth: 0,
            in_string: false,
            escaped: false,
            start: 0,
            end: 0,
            name_start: 0,
            name_end: 0,
            value_start: 0,
            parts: seq![],
        }
    } else {
        let at = walk(text, (n - 1) as nat);
        let c = text[n - 1];
        if at.in_string {
            if at.escaped {
                Walk { escaped: false, ..at }
            } else if c == '\\' {
                Walk { escaped: true, ..at }
            } else if c == '"' {
                Walk { in_string: false, end: n as int, ..at }
            } else {
                at
            }
        } else if c == '"' {
            Walk { in_string: true, start: n - 1, end: n - 1, ..at }
        } else if c == '{' || c == '[' {
            if at.depth == 0 {
                Walk { depth: 1, value_start: n as int, ..at }
            } else {
                Walk { depth: at.depth + 1, ..at }
            }
        } else if c == '}' || c == ']' {
            if at.depth == 1 {
                Walk { depth: 0, parts: at.parts.push(at.part(text, n - 1)), ..at }
            } else if at.depth > 1 {
                Walk { depth: (at.depth - 1) as nat, ..at }
            } else {
                at
            }
        } else if at.depth == 1 && c == ':' {
            Walk { name_start: at.start, name_end: at.end, value_start: n as int, ..at }
        } else if at.depth == 1 && c == ',' {
            Walk {
                name_start: 0,
                name_end: 0,
                value_start: n as int,
                parts: at.parts.push(at.part(text, n - 1)),
                ..at
            }
        } else {
            at
        }
    }
}

/// The members of the JSON object that a text is, or the items of the JSON array,
/// in the order of the text. An empty object or array has one part, without a
/// name, that holds no value.
pub open spec fn parts_written(text: Seq<char>) -> Seq<Part> {
    walk(text, text.len()).parts
}

/// How many of the parts are members called `name`.
pub open spec fn count_named(parts: Seq<Part>, name: Seq<char>) -> nat
    decreases parts.len(),
{
    if parts.len() == 0 {
        0
    } else {
        count_named(parts.drop_last(), name) + if is_named(parts.last(), name) {
            1nat
        } else {
            0
        }
    }
}

/// The part is a member called `name`.
pub open spec fn is_named(part: Part, name: Seq<char>) -> bool {
    json_string(part.name) == Ok::<_, Seq<char>>(name)
}

/// A member of a JSON object, or an item of a JSON array, as it was read.
#[derive(Debug, Clone, PartialEq, Eq)]
pub struct TextPart {
    /// The name of a member, as the JSON string that stands there; empty for an
    /// item.
    pub name: String,
    /// The text of the value.
    pub value: String,
}

impl View for TextPart {
    type V = Part;

    open spec fn view(&self) -> Part {
        Part { name: self.name@, value: self.value@ }
    }
}

/// What the parts hold.
pub open spec fn part_views(parts: Seq<TextPart>) -> Seq<Part> {
    parts.map_values(|part: TextPart| part@)
}

/// Cuts the part out of a JSON text whose name and value stand at these places.
fn cut(text: &str, name_start: usize, name_end: usize, value_start: usize, value_end: usize) -> (part:
    TextPart)
    requires
        name_start <= name_end <= text@.len(),
        value_start <= value_end <= text@.len(),
    ensures
        part@ == (Part {
            name: text@.subrange(name_start as int, name_end as int),
            value: text@.subrange(value_start as int, value_end as int),
        }),
{
    TextPart {
        name: text.substring_char(name_start, name_end).to_owned(),
        value: text.substring_char(value_start, value_end).to_owned(),
    }
}

/// The members of the JSON object that a text is, or the items of the JSON array.
pub fn parts_of(text: &str) -> (parts: Vec<TextPart>)
    ensures
        part_views(parts@) == parts_written(text@),
{
    let mut parts: Vec<TextPart> = Vec::new();
    let mut depth: u64 = 0;
    let mut in_string = false;
    let mut escaped = false;
    let mut start: usize = 0;
    let mut end: usize = 0;
    let mut name_start: usize = 0;
    let mut name_end: usize = 0;
    let mut value_start: usize = 0;
    let length: usize = text.unicode_len();
    let mut chars = text.chars();
    let mut n: usize = 0;
    while n < length
        invariant
            length == text@.len(),
            n <= length,
            chars.remaining() == text@.skip(n as int),
            depth == walk(text@, n as nat).depth,
            depth <= n,
            in_string == walk(text@, n as nat).in_string,
            escaped == walk(text@, n as nat).escaped,
            start == walk(text@, n as nat).start,
            end == walk(text@, n as nat).end,
            start <= end <= n,
            name_start == walk(text@, n as nat).name_start,
            name_end == walk(text@, n as nat).name_end,
            name_start <= name_end <= n,
            value_start == walk(text@, n as nat).value_start,
            value_start <= n,
            part_views(parts@) == walk(text@, n as nat).parts,
        decreases length - n,
    {
        match chars.next() {
            Some(c) => {
                if in_string {
                    if escaped {
                        escaped = false;
                    } else if c == '\\' {
                        escaped = true;
                    } else if c == '"' {
                        in_string = false;
                        end = n + 1;
                    }
                } else if c == '"' {
                    in_string = true;
                    start = n;
                    end = n;
                } else if c == '{' || c == '[' {
                    if depth == 0 {
                        value_start = n + 1;
                    }
                    depth = depth + 1;
                } else if c == '}' || c == ']' {
                    if depth == 1 {
                        let ghost before = part_views(parts@);
                        parts.push(cut(text, name_start, name_end, value_start, n));
                        assert(part_views(parts@) =~= before.push(parts@.last()@));
                    }
                    if depth > 0 {
                        depth = depth - 1;
                    }
                } else if depth == 1 && c == ':' {
                    name_start = start;
                    name_end = end;
                    value_start = n + 1;
                } else if depth == 1 && c == ',' {
                    let ghost before = part_views(parts@);
                    parts.push(cut(text, name_start, name_end, value_start, n));
                    assert(part_views(parts@) =~= before.push(parts@.last()@));
                    name_start = 0;
                    name_end = 0;
                    value_start = n + 1;
                }
            },
            None => {},
        }
        n = n + 1;
        assert(text@.skip(n - 1).drop_first() =~= text@.skip(n as int));
    }
    parts
}

/// Whether a part is a member called `name`.
pub(crate) fn is_called(part: &TextPart, name: &str) -> (called: bool)
    ensures
        called == is_named(part@, name@),
{
    let wanted = name.to_owned();
    match read_string(part.name.as_str()) {
        Ok(s) => s == wanted,
        Err(_) => false,
    }
}

/// Whether more than one of the parts is a member called `name`.
pub fn is_repeated(parts: &Vec<TextPart>, name: &str) -> (repeated: bool)
    ensures
        repeated == (count_named(part_views(parts@), name@) > 1),
{
    let ghost views = part_views(parts@);
    let mut count: usize = 0;
    for i in 0..parts.len()
        invariant
            views == part_views(parts@),
            count <= i,
            count == count_named(views.take(i as int), name@),
    {
        assert(views.take(i + 1).drop_last() =~= views.take(i as int));
        assert(views.take(i + 1).last() == parts[i as int]@);
        if is_called(&parts[i], name) {
            count = count + 1;
        }
    }
    assert(views.take(parts.len() as int) =~= views);
    count > 1
}

} // verus!
