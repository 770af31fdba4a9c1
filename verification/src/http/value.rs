//! Structured values, as form decoders build them, and the bracket notation
//! that places a value inside one.

use crate::string_map::{has_key, lemma_position_is, lookup, position, put};
use crate::text::{
    copy_range, find_class, from_chars, index_of, lemma_index_of, parse_index, parse_usize,
    starts_with, to_chars, CharClass,
};
use vstd::prelude::*;

verus! {

/// A structured value: what a decoded form or a JSON text holds.
#[derive(Debug)]
pub enum Value {
    Null,
    Bool(bool),
    /// A number, kept as the decimal text that denotes it.
    Number(String),
    Text(String),
    Array(Vec<Value>),
    /// Named fields, in the order in which the names were first set.
    Object(Vec<(String, Value)>),
}

/// The mathematical value that a `Value` stands for.
pub enum Json {
    Null,
    Bool(bool),
    Number(Seq<char>),
    Text(Seq<char>),
    Array(Seq<Json>),
    Object(Seq<(Seq<char>, Json)>),
}

/// The names of the fields of an object.
pub open spec fn field_names(fields: Seq<(String, Value)>) -> Seq<Seq<char>> {
    Seq::new(fields.len(), |i: int| fields[i].0@)
}

/// The pairs of a name and the value at the same index.
pub open spec fn named(names: Seq<Seq<char>>, values: Seq<Json>) -> Seq<(Seq<char>, Json)> {
    Seq::new(names.len(), |i: int| (names[i], values[i]))
}

impl View for Value {
    type V = Json;

    open spec fn view(&self) -> Json
        decreases self,
    {
        match self {
            Value::Null => Json::Null,
            Value::Bool(b) => Json::Bool(*b),
            Value::Number(n) => Json::Number(n@),
            Value::Text(s) => Json::Text(s@),
            Value::Array(items) => Json::Array(
                Seq::new(
                    items@.len(),
                    |i: int|
                        if 0 <= i < items@.len() {
                            items@[i].view()
                        } else {
                            Json::Null
                        },
                ),
            ),
            Value::Object(fields) => Json::Object(
                named(
                    field_names(fields@),
                    Seq::new(
                        fields@.len(),
                        |i: int|
                            if 0 <= i < fields@.len() {
                                fields@[i].1.view()
                            } else {
                                Json::Null
                            },
                    ),
                ),
            ),
        }
    }
}

/// The values that the items of an array stand for.
pub open spec fn items_view(items: Seq<Value>) -> Seq<Json> {
    Seq::new(items.len(), |i: int| items[i]@)
}

/// The names and values that the fields of an object stand for.
pub open spec fn fields_view(fields: Seq<(String, Value)>) -> Seq<(Seq<char>, Json)> {
    Seq::new(fields.len(), |i: int| (fields[i].0@, fields[i].1@))
}

pub proof fn lemma_array_view(items: Vec<Value>)
    ensures
        Value::Array(items)@ == Json::Array(items_view(items@)),
{
    assert(Value::Array(items)@->Array_0 =~= items_view(items@));
}

pub proof fn lemma_object_view(fields: Vec<(String, Value)>)
    ensures
        Value::Object(fields)@ == Json::Object(fields_view(fields@)),
{
    assert(Value::Object(fields)@->Object_0 =~= fields_view(fields@));
}

impl Value {
    /// The object without fields.
    pub fn empty_object() -> (v: Value)
        ensures
            v@ == Json::Object(Seq::empty()),
    {
        let fields: Vec<(String, Value)> = Vec::new();
        proof {
            lemma_object_view(fields);
            assert(fields_view(fields@) =~= Seq::<(Seq<char>, Json)>::empty());
        }
        Value::Object(fields)
    }

    /// The array without items.
    pub fn empty_array() -> (v: Value)
        ensures
            v@ == Json::Array(Seq::empty()),
    {
        let items: Vec<Value> = Vec::new();
        proof {
            lemma_array_view(items);
            assert(items_view(items@) =~= Seq::<Json>::empty());
        }
        Value::Array(items)
    }

    /// A value that stands for the same as `self`.
    #[verifier::loop_isolation(false)]
    pub fn duplicate(&self) -> (out: Value)
        ensures
            out@ == self@,
        decreases self,
    {
        match self {
            Value::Null => Value::Null,
            Value::Bool(b) => Value::Bool(*b),
            Value::Number(n) => Value::Number(n.clone()),
            Value::Text(s) => Value::Text(s.clone()),
            Value::Array(items) => {
                let mut out: Vec<Value> = Vec::new();
                let mut i: usize = 0;
                while i < items.len()
                    invariant
                        i <= items@.len(),
                        out@.len() == i,
                        forall|j: int| 0 <= j < i ==> (#[trigger] out@[j])@ == items@[j]@,
                    decreases items@.len() - i,
                {
                    out.push(items[i].duplicate());
                    i = i + 1;
                }
                proof {
                    lemma_array_view(out);
                    lemma_array_view(*items);
                    assert(items_view(out@) =~= items_view(items@));
                }
                Value::Array(out)
            },
            Value::Object(fields) => {
                let mut out: Vec<(String, Value)> = Vec::new();
                let mut i: usize = 0;
                while i < fields.len()
                    invariant
                        i <= fields@.len(),
                        out@.len() == i,
                        forall|j: int|
                            0 <= j < i ==> (#[trigger] out@[j]).0@ == fields@[j].0@ && out@[j].1@
                                == fields@[j].1@,
                    decreases fields@.len() - i,
                {
                    out.push((fields[i].0.clone(), fields[i].1.duplicate()));
                    i = i + 1;
                }
                proof {
                    lemma_object_view(out);
                    lemma_object_view(*fields);
                    assert(fields_view(out@) =~= fields_view(fields@));
                }
                Value::Object(out)
            },
        }
    }
}

/// One segment of a key in bracket notation.
#[derive(Debug)]
pub struct KeyPart {
    /// The text of the segment; empty for a pair of brackets with nothing
    /// between them.
    pub name: String,
    /// Whether the segment addresses an array: it is a number, or it is an
    /// empty pair of brackets.
    pub is_index: bool,
}

impl View for KeyPart {
    type V = (Seq<char>, bool);

    open spec fn view(&self) -> (Seq<char>, bool) {
        (self.name@, self.is_index)
    }
}

/// The views of the parts of `parts`, in order.
pub open spec fn parts_view(parts: Seq<KeyPart>) -> Seq<(Seq<char>, bool)> {
    Seq::new(parts.len(), |i: int| parts[i]@)
}

/// The segments of `key`, from the left: each pair of brackets with nothing
/// between them is an empty index segment; each run of characters without a
/// bracket is a segment of its own, which is an index if it is the decimal
/// notation of a `usize`; any other bracket only separates.
pub open spec fn key_parts(key: Seq<char>) -> Seq<(Seq<char>, bool)>
    decreases key.len(),
{
    if key.len() == 0 {
        Seq::empty()
    } else if starts_with(key, seq!['[', ']']) {
        seq![(Seq::<char>::empty(), true)] + key_parts(key.skip(2))
    } else if CharClass::Bracket.has(key[0]) {
        key_parts(key.skip(1))
    } else {
        let end = index_of(key, CharClass::Bracket);
        if 0 < end <= key.len() {
            seq![(key.take(end), parse_index(key.take(end)).is_some())] + key_parts(key.skip(end))
        } else {
            Seq::empty()
        }
    }
}

/// The container that a missing field gets when the segment after it is
/// `next`: an array before an index, an object before a name.
pub open spec fn container_for(next: (Seq<char>, bool)) -> Json {
    if next.1 {
        Json::Array(Seq::empty())
    } else {
        Json::Object(Seq::empty())
    }
}

/// `items` made at least `n` long by empty objects at its end.
pub open spec fn grow(items: Seq<Json>, n: int) -> Seq<Json> {
    if items.len() >= n {
        items
    } else {
        items + Seq::new((n - items.len()) as nat, |i: int| Json::Object(Seq::empty()))
    }
}

/// The container that is created for what the segment after `index`
/// addresses: an array where that segment is an index, an object where it
/// is a name or where no segment follows.
pub open spec fn next_container(parts: Seq<(Seq<char>, bool)>, index: int) -> Json {
    if 0 <= index + 1 < parts.len() {
        container_for(parts[index + 1])
    } else {
        Json::Object(Seq::empty())
    }
}

/// The array `items` after `value` was placed by the segments of `parts`
/// from `index` on, where the segment at `index` addresses the array.
///
/// An empty segment appends an element. Any other segment addresses the
/// element at the number it denotes (at 0 if it denotes none); where the
/// array is too short, it is first grown by empty objects up to that place,
/// and the element is created there. An element that is created is the
/// container that the next segment asks for.
pub open spec fn array_set(
    items: Seq<Json>,
    parts: Seq<(Seq<char>, bool)>,
    index: int,
    value: Json,
) -> Seq<Json>
    decreases parts.len() - index, 0int,
{
    if index < 0 || index >= parts.len() {
        items
    } else if parts[index].0.len() == 0 {
        items.push(set_at(next_container(parts, index), parts, index + 1, value))
    } else {
        let at: int = match parse_index(parts[index].0) {
            Some(n) => n as int,
            None => 0,
        };
        let grown = if at < items.len() {
            items
        } else {
            grow(items, at).push(next_container(parts, index))
        };
        grown.update(at, set_at(grown[at], parts, index + 1, value))
    }
}

/// `current` after `value` was placed by the segments of `parts` from
/// `index` on. Past the last segment the result is `value` itself.
///
/// In an object, a name segment selects the field of that name, which is
/// created if it is missing; an index segment selects the array kept under
/// the name of the segment before it, likewise created if missing, and does
/// nothing if that field is no array. In an array, every segment addresses
/// the array. Any other value is left as it is.
pub open spec fn set_at(
    current: Json,
    parts: Seq<(Seq<char>, bool)>,
    index: int,
    value: Json,
) -> Json
    decreases parts.len() - index, 1int,
{
    if index < 0 || index >= parts.len() {
        value
    } else {
        match current {
            Json::Object(fields) => if parts[index].1 {
                let name = parts[index - 1].0;
                match lookup(fields, name) {
                    Some(Json::Array(items)) => Json::Object(
                        put(fields, name, Json::Array(array_set(items, parts, index, value))),
                    ),
                    Some(_) => current,
                    None => Json::Object(
                        put(fields, name, Json::Array(array_set(Seq::empty(), parts, index, value))),
                    ),
                }
            } else {
                let name = parts[index].0;
                let slot = match lookup(fields, name) {
                    Some(v) => v,
                    None => if index + 1 < parts.len() {
                        container_for(parts[index + 1])
                    } else {
                        value
                    },
                };
                Json::Object(put(fields, name, set_at(slot, parts, index + 1, value)))
            },
            Json::Array(items) => Json::Array(array_set(items, parts, index, value)),
            _ => current,
        }
    }
}

/// The fields of an object after `value` was placed under `key`, a key in
/// bracket notation such as `user[addresses][][city]`. A key without
/// segments changes nothing.
pub open spec fn set_nested(
    fields: Seq<(Seq<char>, Json)>,
    key: Seq<char>,
    value: Json,
) -> Seq<(Seq<char>, Json)> {
    let parts = key_parts(key);
    if parts.len() == 0 {
        fields
    } else {
        let root = parts[0].0;
        let slot = match lookup(fields, root) {
            Some(v) => v,
            None => if parts.len() > 1 {
                container_for(parts[1])
            } else {
                Json::Object(Seq::empty())
            },
        };
        put(fields, root, set_at(slot, parts, 1, value))
    }
}

/// A key without brackets is one segment, and placing a value under it
/// binds the key to the value: a field that had the key keeps its place.
pub proof fn lemma_plain_key(fields: Seq<(Seq<char>, Json)>, key: Seq<char>, value: Json)
    requires
        key.len() > 0,
        forall|i: int| 0 <= i < key.len() ==> !CharClass::Bracket.has(#[trigger] key[i]),
    ensures
        key_parts(key) == seq![(key, parse_index(key).is_some())],
        set_nested(fields, key, value) == put(fields, key, value),
{
    crate::text::lemma_index_of_is(key, CharClass::Bracket, key.len() as int);
    assert(key.take(key.len() as int) =~= key);
    assert(key.skip(key.len() as int) =~= Seq::<char>::empty());
    if starts_with(key, seq!['[', ']']) {
        assert(key.subrange(0, 2)[0] == key[0]);
        assert(seq!['[', ']'][0] == '[');
    }
    assert(!CharClass::Bracket.has(key[0]));
    assert(key_parts(Seq::<char>::empty()) =~= Seq::<(Seq<char>, bool)>::empty());
    assert(key_parts(key) =~= seq![(key, parse_index(key).is_some())]);
    let parts = key_parts(key);
    assert(parts.len() == 1);
    assert(parts[0].0 == key);
}

/// Splits a key in bracket notation into its segments.
pub fn parse_key(key: &str) -> (parts: Vec<KeyPart>)
    ensures
        parts_view(parts@) == key_parts(key@),
{
    let chars = to_chars(key);
    let mut parts: Vec<KeyPart> = Vec::new();
    let mut pos: usize = 0;
    proof {
        assert(chars@.skip(0) =~= chars@);
        assert(parts_view(parts@) + key_parts(chars@) =~= key_parts(chars@));
    }
    while pos < chars.len()
        invariant
            pos <= chars@.len(),
            chars@ == key@,
            parts_view(parts@) + key_parts(chars@.skip(pos as int)) == key_parts(key@),
        decreases chars@.len() - pos,
    {
        let rest = vstd::slice::slice_subrange(chars.as_slice(), pos, chars.len());
        assert(rest@ =~= chars@.skip(pos as int));
        let ghost before = parts_view(parts@);
        if rest.len() >= 2 && rest[0] == '[' && rest[1] == ']' {
            parts.push(KeyPart { name: String::new(), is_index: true });
            proof {
                assert(rest@.subrange(0, 2) =~= seq!['[', ']']);
                assert(rest@.skip(2) =~= chars@.skip(pos + 2));
                assert(parts_view(parts@) =~= before.push((Seq::<char>::empty(), true)));
                assert(parts_view(parts@) + key_parts(rest@.skip(2)) =~= before + key_parts(rest@));
            }
            pos = pos + 2;
        } else if rest[0] == '[' || rest[0] == ']' {
            proof {
                if starts_with(rest@, seq!['[', ']']) {
                    assert(rest@.subrange(0, 2)[0] == rest@[0]);
                    assert(rest@.subrange(0, 2)[1] == rest@[1]);
                }
                assert(rest@.skip(1) =~= chars@.skip(pos + 1));
            }
            pos = pos + 1;
        } else {
            let end = find_class(rest, CharClass::Bracket);
            proof {
                lemma_index_of(rest@, CharClass::Bracket);
                if starts_with(rest@, seq!['[', ']']) {
                    assert(rest@.subrange(0, 2)[0] == rest@[0]);
                }
                if end == 0 {
                    assert(CharClass::Bracket.has(rest@[0]));
                }
            }
            let name = copy_range(rest, 0, end);
            assert(name@ =~= rest@.take(end as int));
            let is_index = parse_usize(name.as_slice()).is_some();
            parts.push(KeyPart { name: from_chars(name.as_slice()), is_index });
            proof {
                assert(rest@.skip(end as int) =~= chars@.skip(pos + end));
                assert(parts_view(parts@) =~= before.push((name@, is_index)));
                assert(parts_view(parts@) + key_parts(rest@.skip(end as int)) =~= before
                    + key_parts(rest@));
            }
            pos = pos + end;
        }
    }
    proof {
        assert(parts_view(parts@) + Seq::<(Seq<char>, bool)>::empty() =~= parts_view(parts@));
    }
    parts
}

/// The index of the field named `name`, which is added with the value
/// `default` where no field has that name.
fn entry(fields: &mut Vec<(String, Value)>, name: &String, default: Value) -> (pos: usize)
    ensures
        pos == position(fields_view(old(fields)@), name@),
        pos < final(fields)@.len(),
        final(fields)@[pos as int].0@ == name@,
        has_key(fields_view(old(fields)@), name@) ==> final(fields)@ == old(fields)@,
        !has_key(fields_view(old(fields)@), name@) ==> final(fields)@.len() == old(fields)@.len()
            + 1 && final(fields)@[pos as int].1 == default && forall|j: int|
            0 <= j < old(fields)@.len() ==> final(fields)@[j] == old(fields)@[j],
{
    let mut i: usize = 0;
    while i < fields.len() && !(fields[i].0 == *name)
        invariant
            i <= fields@.len(),
            fields@ == old(fields)@,
            forall|j: int| 0 <= j < i ==> (#[trigger] fields_view(fields@)[j]).0 != name@,
        decreases fields@.len() - i,
    {
        i = i + 1;
    }
    proof {
        lemma_position_is(fields_view(fields@), name@, i as int);
    }
    if i == fields.len() {
        fields.push((name.clone(), default));
    }
    i
}

/// Places `value` in the array `items` by the segments of `parts` from
/// `index` on.
fn set_in_array(items: &mut Vec<Value>, parts: &Vec<KeyPart>, index: usize, value: &Value)
    requires
        1 <= index < parts@.len(),
    ensures
        items_view(final(items)@) == array_set(
            items_view(old(items)@),
            parts_view(parts@),
            index as int,
            value@,
        ),
    decreases parts@.len() - index, 0int,
{
    let ghost before = items_view(items@);
    let ghost path = parts_view(parts@);
    let count: usize = parts.len();
    let created = if index + 1 < count && parts[index + 1].is_index {
        Value::empty_array()
    } else {
        Value::empty_object()
    };
    assert(created@ == next_container(path, index as int));
    if parts[index].name.as_str().is_empty() {
        let mut element = created;
        set_value_recursive(&mut element, parts, index + 1, value);
        items.push(element);
        assert(items_view(items@) =~= before.push(element@));
    } else {
        let name = to_chars(parts[index].name.as_str());
        let at: usize = match parse_usize(name.as_slice()) {
            Some(n) => n,
            None => 0,
        };
        if at >= items.len() {
            while items.len() < at
                invariant
                    before.len() <= items@.len() <= at,
                    items_view(items@) == grow(before, items@.len() as int),
                decreases at - items@.len(),
            {
                let ghost grown = items_view(items@);
                items.push(Value::empty_object());
                assert(items_view(items@) =~= grown.push(Json::Object(Seq::empty())));
                assert(items_view(items@) =~= grow(before, items@.len() as int));
            }
            let ghost grown = items_view(items@);
            items.push(created);
            assert(items_view(items@) =~= grow(before, at as int).push(
                next_container(path, index as int),
            ));
        }
        let ghost grown = items_view(items@);
        set_value_recursive(&mut items[at], parts, index + 1, value);
        assert(items_view(items@) =~= grown.update(at as int, items@[at as int]@));
    }
}

/// Places `value` in `current` by the segments of `parts` from `index` on.
fn set_value_recursive(current: &mut Value, parts: &Vec<KeyPart>, index: usize, value: &Value)
    requires
        1 <= index,
    ensures
        final(current)@ == set_at(old(current)@, parts_view(parts@), index as int, value@),
    decreases parts@.len() - index, 1int,
{
    if index >= parts.len() {
        *current = value.duplicate();
        return ;
    }
    let ghost path = parts_view(parts@);
    match current {
        Value::Object(fields) => {
            let ghost before = fields_view(fields@);
            proof {
                lemma_object_view(*fields);
            }
            if parts[index].is_index {
                let pos = entry(fields, &parts[index - 1].name, Value::empty_array());
                match &mut fields[pos].1 {
                    Value::Array(items) => {
                        proof {
                            lemma_array_view(*items);
                        }
                        set_in_array(items, parts, index, value);
                        proof {
                            lemma_array_view(*items);
                        }
                    },
                    _ => {},
                }
                proof {
                    lemma_object_view(*fields);
                    assert(fields_view(fields@) =~= set_at(
                        Json::Object(before),
                        path,
                        index as int,
                        value@,
                    )->Object_0);
                }
            } else {
                let default = if index + 1 < parts.len() {
                    if parts[index + 1].is_index {
                        Value::empty_array()
                    } else {
                        Value::empty_object()
                    }
                } else {
                    value.duplicate()
                };
                let pos = entry(fields, &parts[index].name, default);
                set_value_recursive(&mut fields[pos].1, parts, index + 1, value);
                proof {
                    lemma_object_view(*fields);
                    assert(fields_view(fields@) =~= set_at(
                        Json::Object(before),
                        path,
                        index as int,
                        value@,
                    )->Object_0);
                }
            }
        },
        Value::Array(items) => {
            proof {
                lemma_array_view(*items);
            }
            set_in_array(items, parts, index, value);
            proof {
                lemma_array_view(*items);
            }
        },
        _ => {},
    }
}


/// Places `value` under `key` in the fields of an object, where `key` is in
/// bracket notation: `a[b][]` names the next free element of the array `b`
/// of the object `a`. Containers that are missing on the way are created.
pub fn set_nested_value(fields: &mut Vec<(String, Value)>, key: &str, value: Value)
    ensures
        fields_view(final(fields)@) == set_nested(fields_view(old(fields)@), key@, value@),
{
    let parts = parse_key(key);
    if parts.len() == 0 {
        return ;
    }
    let ghost before = fields_view(fields@);
    let default = if parts.len() > 1 && parts[1].is_index {
        Value::empty_array()
    } else {
        Value::empty_object()
    };
    let pos = entry(fields, &parts[0].name, default);
    set_value_recursive(&mut fields[pos].1, &parts, 1, &value);
    assert(fields_view(fields@) =~= set_nested(before, key@, value@));
}


/// Binds the field `name` to `value`; a field that had the name keeps its
/// place.
pub fn set_field(fields: &mut Vec<(String, Value)>, name: &str, value: Value)
    ensures
        fields_view(final(fields)@) == put(fields_view(old(fields)@), name@, value@),
{
    let ghost before = fields_view(fields@);
    let owned = name.to_owned();
    let pos = entry(fields, &owned, Value::Null);
    fields.set(pos, (owned, value));
    assert(fields_view(fields@) =~= put(before, name@, value@));
}

/// The value of the field `name`.
pub fn get_field<'a>(fields: &'a Vec<(String, Value)>, name: &str) -> (r: Option<&'a Value>)
    ensures
        match r {
            Some(v) => lookup(fields_view(fields@), name@) == Some(v@),
            None => lookup(fields_view(fields@), name@).is_none(),
        },
{
    let owned = name.to_owned();
    let mut i: usize = 0;
    while i < fields.len() && !(fields[i].0 == owned)
        invariant
            i <= fields@.len(),
            forall|j: int| 0 <= j < i ==> (#[trigger] fields_view(fields@)[j]).0 != owned@,
        decreases fields@.len() - i,
    {
        i = i + 1;
    }
    proof {
        lemma_position_is(fields_view(fields@), owned@, i as int);
    }
    if i < fields.len() {
        Some(&fields[i].1)
    } else {
        None
    }
}

} // verus!
