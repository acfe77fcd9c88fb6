use std::path::PathBuf;

use mem0_rust::json::{JsonNumber, JsonValue};
use mem0_rust::payload::{add_response_with_user, clear_response, delete_response, list_response, search_response};
use mem0_rust::ranking::{pair_scores, rank_hits, rank_order, score_order_key, SearchHit};
use mem0_rust::record::MemoryRecord;
use mem0_rust::store::Database;

fn render(v: &JsonValue) -> String {
    match v {
        JsonValue::Null => "null".to_string(),
        JsonValue::Bool(b) => b.to_string(),
        JsonValue::Number(JsonNumber::PosInt(n)) => n.to_string(),
        JsonValue::Number(JsonNumber::NegInt(n)) => n.to_string(),
        JsonValue::Number(JsonNumber::Float(bits)) => f64::from_bits(*bits).to_string(),
        JsonValue::Str(s) => format!("{:?}", s),
        JsonValue::Array(items) => format!("[{}]", items.iter().map(render).collect::<Vec<_>>().join(",")),
        JsonValue::Object(fields) => format!(
            "{{{}}}",
            fields.iter().map(|(k, v)| format!("{:?}:{}", k, render(v))).collect::<Vec<_>>().join(",")
        ),
    }
}

fn db_with(records: &[(&str, &str, &str)]) -> Database {
    let mut db = Database::empty(PathBuf::from("memories.json"));
    for (id, text, user) in records {
        db.records.push(MemoryRecord::new(id.to_string(), text.to_string(), vec![1, 2], user.to_string()));
    }
    db
}

fn ids(rs: &[MemoryRecord]) -> Vec<String> {
    rs.iter().map(|r| r.id.clone()).collect()
}

#[test]
fn add_then_list_shows_the_new_fact_last() {
    let mut db = db_with(&[("a", "likes tea", "u1"), ("b", "likes rust", "u2")]);
    let id = db.add_fact("plays chess".to_string(), vec![7, 8, 9], "u1".to_string());
    let listed = db.facts_for_user("u1");
    assert_eq!(listed.len(), 2);
    assert_eq!(listed[0].id, "a");
    assert_eq!(listed[1].id, id);
    assert_eq!(listed[1].text, "plays chess");
    assert_eq!(listed[1].vector, vec![7, 8, 9]);
    assert_eq!(ids(&db.facts_for_user("u2")), vec!["b"]);
    assert_eq!(db.records.len(), 3);
    assert_eq!(db.path, PathBuf::from("memories.json"));
}

#[test]
fn delete_reports_whether_found() {
    let mut db = db_with(&[("a", "1", "u"), ("b", "2", "u"), ("c", "3", "v")]);
    assert!(db.delete_fact("b"));
    assert_eq!(ids(&db.records), vec!["a", "c"]);
    assert!(!db.delete_fact("b"));
    assert_eq!(ids(&db.records), vec!["a", "c"]);
    assert!(!db.delete_fact(""));
}

#[test]
fn add_then_delete_restores_store() {
    let mut db = db_with(&[("a", "1", "u")]);
    let id = db.add_fact("new".to_string(), vec![], "u".to_string());
    assert!(db.delete_fact(&id));
    assert_eq!(ids(&db.records), vec!["a"]);
}

#[test]
fn clear_removes_only_that_user() {
    let mut db = db_with(&[("a", "1", "u"), ("b", "2", "v"), ("c", "3", "u"), ("d", "4", "w")]);
    db.clear_user("u");
    assert_eq!(ids(&db.records), vec!["b", "d"]);
    assert!(db.facts_for_user("u").is_empty());
    assert_eq!(ids(&db.facts_for_user("v")), vec!["b"]);
    db.clear_user("u");
    assert_eq!(ids(&db.records), vec!["b", "d"]);
}

fn hit(id: &str, score: f64) -> SearchHit {
    SearchHit {
        score_bits: score.to_bits(),
        record: MemoryRecord::new(id.to_string(), format!("text {}", id), vec![], "u".to_string()),
    }
}

#[test]
fn score_keys_follow_float_order() {
    let values = [-f64::INFINITY, -2.5, -1.0, -1e-300, -0.0, 0.0, 1e-300, 0.25, 0.5, 1.0, f64::INFINITY];
    for (i, a) in values.iter().enumerate() {
        for b in values.iter().skip(i) {
            let ka = score_order_key(a.to_bits());
            let kb = score_order_key(b.to_bits());
            match a.partial_cmp(b).unwrap() {
                std::cmp::Ordering::Less => assert!(ka < kb, "{} {}", a, b),
                std::cmp::Ordering::Equal => assert_eq!(ka, kb, "{} {}", a, b),
                std::cmp::Ordering::Greater => assert!(ka > kb, "{} {}", a, b),
            }
        }
    }
}

#[test]
fn ranking_is_best_first_and_stable() {
    let hits = vec![hit("a", 0.2), hit("b", 0.9), hit("c", 0.2), hit("d", -0.5), hit("e", 0.9)];
    let ranked = rank_hits(&hits, 10);
    assert_eq!(ids(&ranked.iter().map(|h| h.record.duplicate()).collect::<Vec<_>>()), vec!["b", "e", "a", "c", "d"]);
    let top2 = rank_hits(&hits, 2);
    assert_eq!(top2.len(), 2);
    assert_eq!(top2[0].record.id, "b");
    assert_eq!(top2[1].record.id, "e");
    assert!(rank_hits(&hits, 0).is_empty());
    assert!(rank_hits(&Vec::new(), 5).is_empty());
}

#[test]
fn ranking_matches_a_stable_descending_sort() {
    let scores = [0.3, -0.1, 0.3, 0.0, -0.0, 0.7, 0.3, -0.9, 0.0];
    let hits: Vec<SearchHit> = scores.iter().enumerate().map(|(i, s)| hit(&i.to_string(), *s)).collect();
    let mut expected: Vec<(f64, usize)> = scores.iter().cloned().zip(0..).collect();
    expected.sort_by(|a, b| b.0.partial_cmp(&a.0).unwrap_or(std::cmp::Ordering::Equal));
    for limit in 0..12u64 {
        let ranked = rank_hits(&hits, limit);
        let want: Vec<String> = expected.iter().take(limit as usize).map(|(_, i)| i.to_string()).collect();
        let got: Vec<String> = ranked.iter().map(|h| h.record.id.clone()).collect();
        assert_eq!(got, want);
    }
}

#[test]
fn rank_order_of_keys() {
    assert_eq!(rank_order(&vec![5, 9, 5, 1], 3), vec![1, 0, 2]);
    assert_eq!(rank_order(&vec![], 3), Vec::<usize>::new());
}

#[test]
fn list_payload_shape() {
    let db = db_with(&[("a", "likes tea", "u"), ("b", "x", "v")]);
    let v = list_response(&db.facts_for_user("u"));
    assert_eq!(render(&v), r#"{"status":"success","results":[{"id":"a","text":"likes tea"}]}"#);
}

#[test]
fn search_payload_shape() {
    let hits = vec![hit("a", 0.5), hit("b", f64::NAN)];
    let v = search_response("tea", &hits);
    assert_eq!(
        render(&v),
        r#"{"status":"success","query":"tea","results":[{"id":"a","score":0.5,"text":"text a"},{"id":"b","score":null,"text":"text b"}]}"#
    );
}

#[test]
fn delete_and_clear_messages() {
    assert_eq!(render(&delete_response(true, "x1")), r#"{"status":"success","message":"Deleted memory x1"}"#);
    assert_eq!(render(&delete_response(false, "x1")), r#"{"status":"error","message":"Memory ID x1 not found"}"#);
    assert_eq!(render(&clear_response("bob")), r#"{"status":"success","message":"Cleared all memories for user bob"}"#);
}

#[test]
fn add_payload_with_user_shape() {
    assert_eq!(
        render(&add_response_with_user("id1", "fact", "bob")),
        r#"{"status":"success","memory_id":"id1","fact":"fact","user_id":"bob"}"#
    );
}

#[test]
fn ranking_is_deterministic() {
    let hits = vec![hit("a", 0.1), hit("b", 0.1), hit("c", 0.3)];
    let first: Vec<String> = rank_hits(&hits, 2).iter().map(|h| h.record.id.clone()).collect();
    let second: Vec<String> = rank_hits(&hits, 2).iter().map(|h| h.record.id.clone()).collect();
    assert_eq!(first, second);
    assert_eq!(first, vec!["c", "a"]);
}

#[test]
fn delete_found_exactly_when_store_shrinks() {
    let mut db = db_with(&[("a", "1", "u"), ("a", "2", "v"), ("b", "3", "u")]);
    let before = db.records.len();
    assert!(db.delete_fact("a"));
    assert!(db.records.len() < before);
    assert_eq!(ids(&db.records), vec!["b"]);
    let before = db.records.len();
    assert!(!db.delete_fact("a"));
    assert_eq!(db.records.len(), before);
}

#[test]
fn pairing_keeps_each_record_with_its_score() {
    let records: Vec<MemoryRecord> =
        ["a", "b", "c"].iter().map(|id| MemoryRecord::new(id.to_string(), "t".to_string(), vec![7], "u".to_string())).collect();
    let scores = vec![0.5f64.to_bits(), 0.25f64.to_bits(), 0.75f64.to_bits()];
    let hits = pair_scores(&records, &scores);
    let got: Vec<(String, u64, Vec<u32>)> =
        hits.iter().map(|h| (h.record.id.clone(), h.score_bits, h.record.vector.clone())).collect();
    assert_eq!(
        got,
        vec![
            ("a".to_string(), scores[0], vec![7]),
            ("b".to_string(), scores[1], vec![7]),
            ("c".to_string(), scores[2], vec![7]),
        ]
    );
    assert_eq!(pair_scores(&records, &scores[..2].to_vec()).len(), 2);
    assert!(pair_scores(&Vec::new(), &scores).is_empty());
    let top: Vec<String> = rank_hits(&hits, 2).iter().map(|h| h.record.id.clone()).collect();
    assert_eq!(top, vec!["c", "a"]);
}
