use vstd::prelude::*;

verus! {

/// A JSON number, as `serde_json` keeps it: a non-negative integer, a
/// negative integer, or a double given by its IEEE-754 bit pattern.
#[derive(Clone, Copy, Debug, PartialEq, Eq, Structural)]
pub enum JsonNumber {
    PosInt(u64),
    NegInt(i64),
    Float(u64),
}

/// A JSON value. Object members are kept in order; the values this library
/// reads come from parsed text, whose object keys are distinct.
pub enum JsonValue {
    Null,
    Bool(bool),
    Number(JsonNumber),
    Str(String),
    Array(Vec<JsonValue>),
    Object(Vec<(String, JsonValue)>),
}

/// The mathematical content of a [`JsonValue`].
pub enum Json {
    Null,
    Bool(bool),
    Number(JsonNumber),
    Str(Seq<char>),
    Array(Seq<Json>),
    Object(Seq<(Seq<char>, Json)>),
}

/// The contents of a sequence of JSON values.
pub open spec fn json_items(items: Seq<JsonValue>) -> Seq<Json>
    decreases items,
{
    Seq::new(items.len(), |i: int| if 0 <= i < items.len() { json_of(items[i]) } else { Json::Null })
}

/// The contents of a sequence of object members.
pub open spec fn json_fields(fields: Seq<(String, JsonValue)>) -> Seq<(Seq<char>, Json)>
    decreases fields,
{
    Seq::new(
        fields.len(),
        |i: int|
            if 0 <= i < fields.len() {
                (fields[i].0@, json_of(fields[i].1))
            } else {
                (Seq::<char>::empty(), Json::Null)
            },
    )
}

/// The contents of a JSON value.
pub open spec fn json_of(v: JsonValue) -> Json
    decreases v,
{
    match v {
        JsonValue::Null => Json::Null,
        JsonValue::Bool(b) => Json::Bool(b),
        JsonValue::Number(n) => Json::Number(n),
        JsonValue::Str(s) => Json::Str(s@),
        JsonValue::Array(items) => Json::Array(json_items(items@)),
        JsonValue::Object(fields) => Json::Object(json_fields(fields@)),
    }
}

impl View for JsonValue {
    type V = Json;

    open spec fn view(&self) -> Json {
        json_of(*self)
    }
}

/// The value of the first member named `key`, if any.
pub open spec fn lookup(fields: Seq<(Seq<char>, Json)>, key: Seq<char>) -> Option<Json>
    decreases fields.len(),
{
    if fields.len() == 0 {
        None
    } else if fields[0].0 == key {
        Some(fields[0].1)
    } else {
        lookup(fields.drop_first(), key)
    }
}

/// `value[key]` as `serde_json` reads it: the member's value for an object
/// that has it, `null` otherwise.
pub open spec fn json_get(j: Json, key: Seq<char>) -> Json {
    match j {
        Json::Object(fields) => match lookup(fields, key) {
            Some(v) => v,
            None => Json::Null,
        },
        _ => Json::Null,
    }
}

/// `value.as_str()`: the text of a string.
pub open spec fn json_as_str(j: Json) -> Option<Seq<char>> {
    match j {
        Json::Str(s) => Some(s),
        _ => None,
    }
}

/// `value.as_u64()`: a number that is a non-negative integer.
pub open spec fn json_as_u64(j: Json) -> Option<u64> {
    match j {
        Json::Number(JsonNumber::PosInt(n)) => Some(n),
        _ => None,
    }
}

/// The text of a string value, or `default` for anything else.
pub open spec fn str_or(j: Json, default: Seq<char>) -> Seq<char> {
    match json_as_str(j) {
        Some(s) => s,
        None => default,
    }
}

/// A JSON string.
pub open spec fn jstr(s: Seq<char>) -> Json {
    Json::Str(s)
}

impl JsonValue {
    /// The value of member `key`, as `value[key]` reads it (`None` stands for `null`).
    pub fn get(&self, key: &str) -> (r: Option<&JsonValue>)
        ensures
            r matches Some(v) ==> json_get(self@, key@) == v@,
            r is None ==> json_get(self@, key@) == Json::Null,
    {
        match self {
            JsonValue::Object(fields) => {
                let key_s = key.to_owned();
                let ghost fs = json_fields(fields@);
                assert(fs.skip(0) == fs);
                assert(self@ == Json::Object(fs));
                for i in 0..fields.len()
                    invariant
                        fs == json_fields(fields@),
                        self@ == Json::Object(fs),
                        key_s@ == key@,
                        lookup(fs, key@) == lookup(fs.skip(i as int), key@),
                {
                    let ghost rest = fs.skip(i as int);
                    assert(rest[0] == fs[i as int]);
                    assert(rest.drop_first() == fs.skip(i + 1));
                    assert(fs[i as int] == (fields@[i as int].0@, json_of(fields@[i as int].1)));
                    if fields[i].0 == key_s {
                        assert(lookup(rest, key@) == Some(json_of(fields@[i as int].1)));
                        return Some(&fields[i].1);
                    }
                }
                None
            },
            _ => None,
        }
    }

    /// The text of a string value (`value.as_str()`).
    pub fn as_text(&self) -> (r: Option<String>)
        ensures
            match r {
                Some(s) => json_as_str(self@) == Some(s@),
                None => json_as_str(self@) is None,
            },
    {
        match self {
            JsonValue::Str(s) => Some(s.clone()),
            _ => None,
        }
    }

    /// The value of a non-negative integer (`value.as_u64()`).
    pub fn as_u64(&self) -> (r: Option<u64>)
        ensures
            r == json_as_u64(self@),
    {
        match self {
            JsonValue::Number(JsonNumber::PosInt(n)) => Some(*n),
            _ => None,
        }
    }

    /// A JSON string holding `s`.
    pub fn text(s: &str) -> (v: JsonValue)
        ensures
            v@ == jstr(s@),
    {
        JsonValue::Str(s.to_owned())
    }

    /// A JSON object with the given members.
    pub fn object(fields: Vec<(String, JsonValue)>) -> (v: JsonValue)
        ensures
            v@ == Json::Object(json_fields(fields@)),
    {
        JsonValue::Object(fields)
    }

    /// A JSON array with the given items.
    pub fn array(items: Vec<JsonValue>) -> (v: JsonValue)
        ensures
            v@ == Json::Array(json_items(items@)),
    {
        JsonValue::Array(items)
    }
}

/// The text of an optional member (`value[key].as_str().unwrap_or(default)`):
/// the member's text, or `default` when it is missing or not a string.
pub fn text_or(v: Option<&JsonValue>, default: &str) -> (s: String)
    ensures
        s@ == str_or(member_view(v), default@),
{
    match v {
        Some(x) => match x.as_text() {
            Some(t) => t,
            None => default.to_owned(),
        },
        None => default.to_owned(),
    }
}

/// Appends member `key: value` to an object under construction.
pub fn push_field(fields: &mut Vec<(String, JsonValue)>, key: &str, value: JsonValue)
    ensures
        json_fields(final(fields)@) == json_fields(old(fields)@).push((key@, value@)),
{
    let ghost before = fields@;
    fields.push((key.to_owned(), value));
    assert(json_fields(fields@) =~= json_fields(before).push((key@, value@)));
}

/// Appends an item to an array under construction.
pub fn push_item(items: &mut Vec<JsonValue>, value: JsonValue)
    ensures
        json_items(final(items)@) == json_items(old(items)@).push(value@),
{
    let ghost before = items@;
    items.push(value);
    assert(json_items(items@) =~= json_items(before).push(value@));
}

/// The view of an optional member, `null` standing for a missing one.
pub open spec fn member_view(v: Option<&JsonValue>) -> Json {
    match v {
        Some(x) => x@,
        None => Json::Null,
    }
}

/// `value[key]` on a value that may be missing (`None` stands for `null`).
pub fn member<'a>(v: Option<&'a JsonValue>, key: &str) -> (r: Option<&'a JsonValue>)
    ensures
        member_view(r) == json_get(member_view(v), key@),
{
    match v {
        Some(x) => x.get(key),
        None => None,
    }
}

/// `value[key].as_u64().unwrap_or(default)`.
pub fn u64_or(v: Option<&JsonValue>, default: u64) -> (n: u64)
    ensures
        n == match json_as_u64(member_view(v)) {
            Some(k) => k,
            None => default,
        },
{
    match v {
        Some(x) => match x.as_u64() {
            Some(k) => k,
            None => default,
        },
        None => default,
    }
}

/// The value of the first member named `key`, taken out of the members.
fn take_field(members: Vec<(String, JsonValue)>, key: &str) -> (r: JsonValue)
    ensures
        r@ == match lookup(json_fields(members@), key@) {
            Some(j) => j,
            None => Json::Null,
        },
{
    let mut fields = members;
    let key_s = key.to_owned();
    let ghost fs = json_fields(fields@);
    assert(fs.skip(0) == fs);
    let mut i: usize = 0;
    while i < fields.len()
        invariant
            fs == json_fields(fields@),
            fs == json_fields(members@),
            key_s@ == key@,
            i <= fields.len(),
            lookup(fs, key@) == lookup(fs.skip(i as int), key@),
        decreases fields.len() - i,
    {
        let ghost rest = fs.skip(i as int);
        assert(rest[0] == fs[i as int]);
        assert(rest.drop_first() == fs.skip(i + 1));
        assert(fs[i as int] == (fields@[i as int].0@, json_of(fields@[i as int].1)));
        if fields[i].0 == key_s {
            assert(lookup(rest, key@) == Some(json_of(fields@[i as int].1)));
            let elem = fields.remove(i);
            return elem.1;
        }
        i = i + 1;
    }
    JsonValue::Null
}

/// The value of member `key` of `v`, taken out of it (`null` when missing).
pub fn take_member(v: JsonValue, key: &str) -> (r: JsonValue)
    ensures
        r@ == json_get(v@, key@),
{
    match v {
        JsonValue::Object(fields) => take_field(fields, key),
        _ => JsonValue::Null,
    }
}

} // verus!
