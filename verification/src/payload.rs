use vstd::prelude::*;
use crate::json::{json_fields, json_get, json_items, jstr, lookup, push_field, push_item, Json, JsonNumber, JsonValue};
use crate::ranking::{hit_views, HitView, SearchHit};
use crate::record::{record_views, MemoryRecord, RecordView};

verus! {

/// `a` followed by `b`.
pub fn concat(a: &str, b: &str) -> (s: String)
    ensures
        s@ == a@ + b@,
{
    let mut s = a.to_owned();
    s.append(b);
    s
}

/// A JSON object with the given members, in order.
pub open spec fn jobj(fields: Seq<(Seq<char>, Json)>) -> Json {
    Json::Object(fields)
}

/// `{"id": .., "text": ..}`: a fact as the listings show it.
pub open spec fn fact_entry_json(r: RecordView) -> Json {
    jobj(seq![("id"@, jstr(r.id)), ("text"@, jstr(r.text))])
}

/// The answer to a listing: `{"status": "success", "results": [facts]}`.
pub open spec fn list_payload(rs: Seq<RecordView>) -> Json {
    jobj(seq![
        ("status"@, jstr("success"@)),
        ("results"@, Json::Array(rs.map_values(|r: RecordView| fact_entry_json(r)))),
    ])
}

/// Whether a double's bit pattern stands for a finite number.
pub open spec fn is_finite_bits(bits: u64) -> bool {
    (bits >> 52u64) & 0x7ffu64 != 0x7ffu64
}

/// A score as JSON: the number when it is finite, `null` otherwise (as
/// `serde_json` turns a float into a value).
pub open spec fn score_json(bits: u64) -> Json {
    if is_finite_bits(bits) {
        Json::Number(JsonNumber::Float(bits))
    } else {
        Json::Null
    }
}

/// A search reports each finite score as the very number computed: the
/// JSON number with exactly that bit pattern, sign included (a negative
/// similarity is reported negative); an infinite or NaN score, whose
/// exponent bits are all set, as `null`.
pub proof fn lemma_score_reported_as_computed(bits: u64)
    ensures
        bits & 0x7FF0_0000_0000_0000u64 != 0x7FF0_0000_0000_0000u64 ==> score_json(bits) == Json::Number(
            JsonNumber::Float(bits),
        ),
        bits & 0x7FF0_0000_0000_0000u64 == 0x7FF0_0000_0000_0000u64 ==> score_json(bits) == Json::Null,
{
    assert(((bits >> 52u64) & 0x7ffu64 != 0x7ffu64) == (bits & 0x7FF0_0000_0000_0000u64
        != 0x7FF0_0000_0000_0000u64)) by (bit_vector);
}

/// Each result of a search answer is its hit, in the order given: its
/// identifier, its score as computed (see [`lemma_score_reported_as_computed`])
/// and its text.
pub proof fn lemma_search_results_are_the_hits(query: Seq<char>, hits: Seq<HitView>, k: int)
    requires
        0 <= k < hits.len(),
    ensures
        json_get(search_payload(query, hits), "results"@) matches Json::Array(items) && items.len() == hits.len()
            && items[k] == Json::Object(seq![
                ("id"@, Json::Str(hits[k].record.id)),
                ("score"@, score_json(hits[k].score_bits)),
                ("text"@, Json::Str(hits[k].record.text)),
            ]),
{
    reveal_strlit("status");
    reveal_strlit("query");
    reveal_strlit("results");
    assert("results"@[0] != "status"@[0] && "results"@[0] != "query"@[0]);
    let fields = seq![
        ("status"@, jstr("success"@)),
        ("query"@, jstr(query)),
        ("results"@, Json::Array(hits.map_values(|h: HitView| hit_entry_json(h)))),
    ];
    assert(fields.drop_first().drop_first() =~= seq![fields[2]]);
    assert(lookup(fields.drop_first().drop_first(), "results"@) == Some(fields[2].1));
    assert(lookup(fields.drop_first(), "results"@) == Some(fields[2].1));
    assert(lookup(fields, "results"@) == Some(fields[2].1));
}

/// `{"id": .., "score": .., "text": ..}`: a search hit as answered.
pub open spec fn hit_entry_json(h: HitView) -> Json {
    jobj(seq![("id"@, jstr(h.record.id)), ("score"@, score_json(h.score_bits)), ("text"@, jstr(h.record.text))])
}

/// The answer to a search: `{"status": "success", "query": .., "results": [hits]}`.
pub open spec fn search_payload(query: Seq<char>, hits: Seq<HitView>) -> Json {
    jobj(seq![
        ("status"@, jstr("success"@)),
        ("query"@, jstr(query)),
        ("results"@, Json::Array(hits.map_values(|h: HitView| hit_entry_json(h)))),
    ])
}

/// The answer to an addition: `{"status": "success", "memory_id": .., "fact": ..}`.
pub open spec fn add_payload(id: Seq<char>, fact: Seq<char>) -> Json {
    jobj(seq![("status"@, jstr("success"@)), ("memory_id"@, jstr(id)), ("fact"@, jstr(fact))])
}

/// The command line's answer to an addition, which also names the user.
pub open spec fn add_payload_with_user(id: Seq<char>, fact: Seq<char>, user: Seq<char>) -> Json {
    jobj(seq![
        ("status"@, jstr("success"@)),
        ("memory_id"@, jstr(id)),
        ("fact"@, jstr(fact)),
        ("user_id"@, jstr(user)),
    ])
}

/// The answer to a deletion: success with `Deleted memory <id>` when the
/// identifier was found, an error with `Memory ID <id> not found` otherwise.
pub open spec fn delete_payload(removed: bool, id: Seq<char>) -> Json {
    if removed {
        jobj(seq![("status"@, jstr("success"@)), ("message"@, jstr("Deleted memory "@ + id))])
    } else {
        jobj(seq![("status"@, jstr("error"@)), ("message"@, jstr("Memory ID "@ + id + " not found"@))])
    }
}

/// The answer to clearing a user: `Cleared all memories for user <user>`.
pub open spec fn clear_payload(user: Seq<char>) -> Json {
    jobj(seq![("status"@, jstr("success"@)), ("message"@, jstr("Cleared all memories for user "@ + user))])
}

/// Builds [`fact_entry_json`].
pub fn fact_entry(r: &MemoryRecord) -> (v: JsonValue)
    ensures
        v@ == fact_entry_json(r@),
{
    let mut fields: Vec<(String, JsonValue)> = Vec::new();
    push_field(&mut fields, "id", JsonValue::text(r.id.as_str()));
    push_field(&mut fields, "text", JsonValue::text(r.text.as_str()));
    let v = JsonValue::object(fields);
    assert(json_fields(fields@) =~= seq![("id"@, jstr(r@.id)), ("text"@, jstr(r@.text))]);
    v
}

/// Builds [`list_payload`].
pub fn list_response(records: &Vec<MemoryRecord>) -> (v: JsonValue)
    ensures
        v@ == list_payload(record_views(records@)),
{
    let ghost rs = record_views(records@);
    let mut items: Vec<JsonValue> = Vec::new();
    for i in 0..records.len()
        invariant
            rs == record_views(records@),
            json_items(items@) == rs.take(i as int).map_values(|r: RecordView| fact_entry_json(r)),
    {
        let e = fact_entry(&records[i]);
        push_item(&mut items, e);
        assert(rs.take(i + 1).map_values(|r: RecordView| fact_entry_json(r))
            =~= rs.take(i as int).map_values(|r: RecordView| fact_entry_json(r)).push(fact_entry_json(rs[i as int])));
    }
    assert(rs.take(records.len() as int) == rs);
    let mut fields: Vec<(String, JsonValue)> = Vec::new();
    push_field(&mut fields, "status", JsonValue::text("success"));
    let ghost iv = json_items(items@);
    push_field(&mut fields, "results", JsonValue::array(items));
    assert(json_fields(fields@) =~= seq![("status"@, jstr("success"@)), ("results"@, Json::Array(iv))]);
    JsonValue::object(fields)
}


/// Builds [`score_json`].
pub fn score_value(bits: u64) -> (v: JsonValue)
    ensures
        v@ == score_json(bits),
{
    if (bits >> 52u64) & 0x7ffu64 != 0x7ffu64 {
        JsonValue::Number(JsonNumber::Float(bits))
    } else {
        JsonValue::Null
    }
}

/// Builds [`hit_entry_json`].
pub fn hit_entry(h: &SearchHit) -> (v: JsonValue)
    ensures
        v@ == hit_entry_json(h@),
{
    let mut fields: Vec<(String, JsonValue)> = Vec::new();
    push_field(&mut fields, "id", JsonValue::text(h.record.id.as_str()));
    push_field(&mut fields, "score", score_value(h.score_bits));
    push_field(&mut fields, "text", JsonValue::text(h.record.text.as_str()));
    assert(json_fields(fields@) =~= seq![
        ("id"@, jstr(h@.record.id)),
        ("score"@, score_json(h.score_bits)),
        ("text"@, jstr(h@.record.text)),
    ]);
    JsonValue::object(fields)
}

/// Builds [`search_payload`] from ranked hits.
pub fn search_response(query: &str, hits: &Vec<SearchHit>) -> (v: JsonValue)
    ensures
        v@ == search_payload(query@, hit_views(hits@)),
{
    let ghost hs = hit_views(hits@);
    let mut items: Vec<JsonValue> = Vec::new();
    for i in 0..hits.len()
        invariant
            hs == hit_views(hits@),
            json_items(items@) == hs.take(i as int).map_values(|h: HitView| hit_entry_json(h)),
    {
        let e = hit_entry(&hits[i]);
        push_item(&mut items, e);
        assert(hs.take(i + 1).map_values(|h: HitView| hit_entry_json(h))
            =~= hs.take(i as int).map_values(|h: HitView| hit_entry_json(h)).push(hit_entry_json(hs[i as int])));
    }
    assert(hs.take(hits.len() as int) == hs);
    let ghost iv = json_items(items@);
    let mut fields: Vec<(String, JsonValue)> = Vec::new();
    push_field(&mut fields, "status", JsonValue::text("success"));
    push_field(&mut fields, "query", JsonValue::text(query));
    push_field(&mut fields, "results", JsonValue::array(items));
    assert(json_fields(fields@) =~= seq![
        ("status"@, jstr("success"@)),
        ("query"@, jstr(query@)),
        ("results"@, Json::Array(iv)),
    ]);
    JsonValue::object(fields)
}

/// Builds [`add_payload`].
pub fn add_response(id: &str, fact: &str) -> (v: JsonValue)
    ensures
        v@ == add_payload(id@, fact@),
{
    let mut fields: Vec<(String, JsonValue)> = Vec::new();
    push_field(&mut fields, "status", JsonValue::text("success"));
    push_field(&mut fields, "memory_id", JsonValue::text(id));
    push_field(&mut fields, "fact", JsonValue::text(fact));
    assert(json_fields(fields@) =~= seq![("status"@, jstr("success"@)), ("memory_id"@, jstr(id@)), ("fact"@, jstr(fact@))]);
    JsonValue::object(fields)
}

/// Builds [`add_payload_with_user`].
pub fn add_response_with_user(id: &str, fact: &str, user: &str) -> (v: JsonValue)
    ensures
        v@ == add_payload_with_user(id@, fact@, user@),
{
    let mut fields: Vec<(String, JsonValue)> = Vec::new();
    push_field(&mut fields, "status", JsonValue::text("success"));
    push_field(&mut fields, "memory_id", JsonValue::text(id));
    push_field(&mut fields, "fact", JsonValue::text(fact));
    push_field(&mut fields, "user_id", JsonValue::text(user));
    assert(json_fields(fields@) =~= seq![
        ("status"@, jstr("success"@)),
        ("memory_id"@, jstr(id@)),
        ("fact"@, jstr(fact@)),
        ("user_id"@, jstr(user@)),
    ]);
    JsonValue::object(fields)
}

/// A `{"status": .., "message": ..}` object.
pub fn status_message(status: &str, message: String) -> (v: JsonValue)
    ensures
        v@ == jobj(seq![("status"@, jstr(status@)), ("message"@, jstr(message@))]),
{
    let mut fields: Vec<(String, JsonValue)> = Vec::new();
    push_field(&mut fields, "status", JsonValue::text(status));
    push_field(&mut fields, "message", JsonValue::Str(message));
    assert(json_fields(fields@) =~= seq![("status"@, jstr(status@)), ("message"@, jstr(message@))]);
    JsonValue::object(fields)
}

/// Builds [`delete_payload`].
pub fn delete_response(removed: bool, id: &str) -> (v: JsonValue)
    ensures
        v@ == delete_payload(removed, id@),
{
    if removed {
        status_message("success", concat("Deleted memory ", id))
    } else {
        let m = concat("Memory ID ", id);
        let m = concat(m.as_str(), " not found");
        status_message("error", m)
    }
}

/// Builds [`clear_payload`].
pub fn clear_response(user: &str) -> (v: JsonValue)
    ensures
        v@ == clear_payload(user@),
{
    status_message("success", concat("Cleared all memories for user ", user))
}

} // verus!
