use std::path::PathBuf;

use mem0_rust::dashboard::{
    AddRequest, DashboardServer,
    add_reply, clear_reply, delete_reply, list_reply, read_add_body, read_search_body, route, search_reply, Route,
};
use mem0_rust::json::{JsonNumber, JsonValue};
use mem0_rust::mcp::{
    after_embedding, after_save, after_scoring, begin_tool, parse_request, tool_error, tool_success, EmbedTask,
    McpAction, McpRequest, McpSession, ToolCall, ToolOutcome, ToolReply, ToolStep,
};
use mem0_rust::record::MemoryRecord;
use mem0_rust::store::Database;

fn render(v: &JsonValue) -> String {
    match v {
        JsonValue::Null => "null".to_string(),
        JsonValue::Bool(b) => b.to_string(),
        JsonValue::Number(JsonNumber::PosInt(n)) => n.to_string(),
        JsonValue::Number(JsonNumber::NegInt(n)) => n.to_string(),
        JsonValue::Number(JsonNumber::Float(bits)) => f64::from_bits(*bits).to_string(),
        JsonValue::Str(s) => format!("{:?}", s),
        JsonValue::Array(items) => format!("[{}]", items.iter().map(render).collect::<Vec<_>>().join(",")),
        JsonValue::Object(fields) => format!(
            "{{{}}}",
            fields.iter().map(|(k, v)| format!("{:?}:{}", k, render(v))).collect::<Vec<_>>().join(",")
        ),
    }
}

fn s(t: &str) -> JsonValue {
    JsonValue::Str(t.to_string())
}

fn obj(fields: Vec<(&str, JsonValue)>) -> JsonValue {
    JsonValue::Object(fields.into_iter().map(|(k, v)| (k.to_string(), v)).collect())
}

fn call_request(id: u64, name: &str, args: JsonValue) -> JsonValue {
    obj(vec![
        ("jsonrpc", s("2.0")),
        ("id", JsonValue::Number(JsonNumber::PosInt(id))),
        ("method", s("tools/call")),
        ("params", obj(vec![("name", s(name)), ("arguments", args)])),
    ])
}

fn db_with(records: &[(&str, &str, &str)]) -> Database {
    let mut db = Database::empty(PathBuf::from("m.json"));
    for (id, text, user) in records {
        db.records.push(MemoryRecord::new(id.to_string(), text.to_string(), vec![], user.to_string()));
    }
    db
}

#[test]
fn initialize_reply() {
    let req = obj(vec![("id", JsonValue::Number(JsonNumber::PosInt(1))), ("method", s("initialize"))]);
    let mut session = McpSession::new();
    match session.on_line(Some(req)) {
        McpAction::Reply(v) => assert_eq!(
            render(&v),
            r#"{"jsonrpc":"2.0","id":1,"result":{"protocolVersion":"2024-11-05","capabilities":{"tools":{}},"serverInfo":{"name":"Mem0-Local-Rust","version":"1.0.0"}}}"#
        ),
        _ => panic!("expected a reply"),
    }
}

#[test]
fn tools_list_names_five_tools() {
    let req = obj(vec![("id", s("abc")), ("method", s("tools/list"))]);
    match McpSession::new().on_line(Some(req)) {
        McpAction::Reply(v) => {
            let text = render(&v);
            assert!(text.starts_with(r#"{"jsonrpc":"2.0","id":"abc","result":{"tools":[{"name":"add_fact""#));
            for name in ["search_facts", "get_all_facts", "delete_fact", "delete_all_facts"] {
                assert!(text.contains(&format!("\"name\":\"{}\"", name)));
            }
            assert!(text.contains(r#""required":["query","user_id"]"#));
        }
        _ => panic!("expected a reply"),
    }
}

#[test]
fn unknown_methods_and_missing_ids() {
    let req = obj(vec![("method", s("notifications/initialized"))]);
    assert!(matches!(parse_request(req), McpRequest::Ignored));
    assert!(matches!(parse_request(JsonValue::Null), McpRequest::Ignored));
    let req = obj(vec![("method", s("initialize"))]);
    match parse_request(req) {
        McpRequest::Initialize { id } => assert!(matches!(id, JsonValue::Null)),
        _ => panic!(),
    }
}

#[test]
fn tool_arguments_and_defaults() {
    match parse_request(call_request(1, "add_fact", obj(vec![("fact", s("likes tea"))]))) {
        McpRequest::CallTool { call: ToolCall::AddFact { fact, user_id }, .. } => {
            assert_eq!(fact, "likes tea");
            assert_eq!(user_id, "default");
        }
        _ => panic!(),
    }
    match parse_request(call_request(2, "search_facts", obj(vec![("query", s("tea")), ("user_id", s("bob"))]))) {
        McpRequest::CallTool { call: ToolCall::SearchFacts { query, user_id, limit }, .. } => {
            assert_eq!((query.as_str(), user_id.as_str(), limit), ("tea", "bob", 5));
        }
        _ => panic!(),
    }
    let args = obj(vec![("query", s("tea")), ("limit", JsonValue::Number(JsonNumber::PosInt(2)))]);
    match parse_request(call_request(3, "search_facts", args)) {
        McpRequest::CallTool { call: ToolCall::SearchFacts { limit, .. }, .. } => assert_eq!(limit, 2),
        _ => panic!(),
    }
    let args = obj(vec![("limit", JsonValue::Number(JsonNumber::NegInt(-2)))]);
    match parse_request(call_request(3, "search_facts", args)) {
        McpRequest::CallTool { call: ToolCall::SearchFacts { limit, query, .. }, .. } => {
            assert_eq!(limit, 5);
            assert_eq!(query, "");
        }
        _ => panic!(),
    }
    match parse_request(call_request(4, "forget_everything", JsonValue::Null)) {
        McpRequest::CallTool { call: ToolCall::Unsupported { name }, .. } => assert_eq!(name, "forget_everything"),
        _ => panic!(),
    }
}

#[test]
fn tool_calls_wait_for_the_embedder() {
    let mut session = McpSession::new();
    let action = session.on_line(Some(call_request(7, "get_all_facts", JsonValue::Null)));
    let call = match action {
        McpAction::LoadEmbedder(call) => call,
        _ => panic!("expected the model to be loaded first"),
    };
    match session.on_embedder_loaded(call, Err("no model".to_string())) {
        McpAction::Reply(v) => assert_eq!(
            render(&v),
            r#"{"jsonrpc":"2.0","id":7,"error":{"code":-32000,"message":"Failed to load embedder: no model"}}"#
        ),
        _ => panic!(),
    }
    assert!(!session.embedder_loaded());
    let call = match session.on_line(Some(call_request(8, "get_all_facts", JsonValue::Null))) {
        McpAction::LoadEmbedder(call) => call,
        _ => panic!(),
    };
    assert!(matches!(session.on_embedder_loaded(call, Ok(())), McpAction::RunTool(_)));
    assert!(session.embedder_loaded());
    let v = session.finish(ToolReply::Success("ok".to_string()));
    assert_eq!(render(&v), r#"{"jsonrpc":"2.0","id":8,"result":{"content":[{"type":"text","text":"ok"}]}}"#);
    assert!(matches!(
        session.on_line(Some(call_request(9, "get_all_facts", JsonValue::Null))),
        McpAction::RunTool(_)
    ));
    let v = session.finish(ToolReply::Failure("Tool 'x' is not supported".to_string()));
    assert_eq!(
        render(&v),
        r#"{"jsonrpc":"2.0","id":9,"error":{"code":-32000,"message":"Tool 'x' is not supported"}}"#
    );
}

#[test]
fn one_reply_per_answered_line() {
    let mut session = McpSession::new();
    let lines = vec![
        Some(obj(vec![("id", s("a")), ("method", s("initialize"))])),
        None,
        Some(obj(vec![("method", s("notifications/initialized"))])),
        Some(obj(vec![("id", s("b")), ("method", s("tools/list"))])),
        Some(JsonValue::Number(JsonNumber::PosInt(3))),
    ];
    let mut replies = Vec::new();
    for line in lines {
        if let McpAction::Reply(v) = session.on_line(line) {
            replies.push(render(&v));
        }
    }
    assert_eq!(replies.len(), 2);
    assert!(replies[0].starts_with(r#"{"jsonrpc":"2.0","id":"a","result":"#));
    assert!(replies[1].starts_with(r#"{"jsonrpc":"2.0","id":"b","result":"#));
}

#[test]
fn get_all_facts_lists_the_user() {
    let mut db = db_with(&[("a", "tea", "default"), ("b", "rust", "bob")]);
    match begin_tool(&mut db, &ToolCall::GetAllFacts { user_id: "default".to_string() }) {
        ToolStep::Finish(ToolOutcome::Success(v)) => {
            assert_eq!(render(&v), r#"{"status":"success","results":[{"id":"a","text":"tea"}]}"#)
        }
        _ => panic!(),
    }
    assert_eq!(db.records.len(), 2);
}

#[test]
fn delete_fact_saves_only_when_found() {
    let mut db = db_with(&[("a", "tea", "u")]);
    match begin_tool(&mut db, &ToolCall::DeleteFact { fact_id: "zzz".to_string() }) {
        ToolStep::Finish(ToolOutcome::Success(v)) => {
            assert_eq!(render(&v), r#"{"status":"error","message":"Memory ID zzz not found"}"#)
        }
        _ => panic!(),
    }
    match begin_tool(&mut db, &ToolCall::DeleteFact { fact_id: "a".to_string() }) {
        ToolStep::Save(v) => assert_eq!(render(&v), r#"{"status":"success","message":"Deleted memory a"}"#),
        _ => panic!(),
    }
    assert!(db.records.is_empty());
}

#[test]
fn delete_all_facts_then_save_failure() {
    let mut db = db_with(&[("a", "tea", "u"), ("b", "x", "v")]);
    let payload = match begin_tool(&mut db, &ToolCall::DeleteAllFacts { user_id: "u".to_string() }) {
        ToolStep::Save(v) => v,
        _ => panic!(),
    };
    assert_eq!(db.records.len(), 1);
    match after_save(payload, Err("disk full".to_string())) {
        ToolOutcome::Failure(m) => assert_eq!(m, "Database save error: disk full"),
        _ => panic!(),
    }
}

#[test]
fn unsupported_tool_message() {
    let mut db = db_with(&[]);
    match begin_tool(&mut db, &ToolCall::Unsupported { name: "x".to_string() }) {
        ToolStep::Finish(ToolOutcome::Failure(m)) => assert_eq!(m, "Tool 'x' is not supported"),
        _ => panic!(),
    }
}

#[test]
fn add_fact_flow() {
    let mut db = db_with(&[]);
    let call = ToolCall::AddFact { fact: "likes tea".to_string(), user_id: "bob".to_string() };
    let task = match begin_tool(&mut db, &call) {
        ToolStep::Embed(t) => t,
        _ => panic!(),
    };
    assert_eq!(task.text(), "likes tea");
    match after_embedding(&mut db, task, Err("model broke".to_string())) {
        ToolStep::Finish(ToolOutcome::Failure(m)) => assert_eq!(m, "Failed to generate embedding: model broke"),
        _ => panic!(),
    }
    assert!(db.records.is_empty());
    let task = EmbedTask::AddFact { fact: "likes tea".to_string(), user_id: "bob".to_string() };
    let payload = match after_embedding(&mut db, task, Ok(vec![1, 2, 3])) {
        ToolStep::Save(v) => v,
        _ => panic!(),
    };
    assert_eq!(db.records.len(), 1);
    let id = db.records[0].id.clone();
    assert_eq!(render(&payload), format!(r#"{{"status":"success","memory_id":"{}","fact":"likes tea"}}"#, id));
    match after_save(payload, Ok(())) {
        ToolOutcome::Success(v) => {
            let reply = tool_success(JsonValue::Number(JsonNumber::PosInt(3)), "done");
            assert_eq!(
                render(&reply),
                r#"{"jsonrpc":"2.0","id":3,"result":{"content":[{"type":"text","text":"done"}]}}"#
            );
            assert!(matches!(v, JsonValue::Object(_)));
        }
        _ => panic!(),
    }
}

#[test]
fn search_flow() {
    let mut db = db_with(&[("a", "tea", "u"), ("b", "rust", "u"), ("c", "x", "v")]);
    let call = ToolCall::SearchFacts { query: "drinks".to_string(), user_id: "u".to_string(), limit: 1 };
    let task = match begin_tool(&mut db, &call) {
        ToolStep::Embed(t) => t,
        _ => panic!(),
    };
    assert_eq!(task.text(), "drinks");
    let score_task = match after_embedding(&mut db, task, Ok(vec![0])) {
        ToolStep::Score(t) => t,
        _ => panic!(),
    };
    let candidates: Vec<&str> = score_task.candidates().iter().map(|r| r.id.as_str()).collect();
    assert_eq!(candidates, vec!["a", "b"]);
    let scores = vec![0.25f64.to_bits(), 0.75f64.to_bits()];
    match after_scoring(score_task, &scores) {
        ToolOutcome::Success(v) => assert_eq!(
            render(&v),
            r#"{"status":"success","query":"drinks","results":[{"id":"b","score":0.75,"text":"rust"}]}"#
        ),
        _ => panic!(),
    }
}

#[test]
fn error_reply_shape() {
    assert_eq!(
        render(&tool_error(JsonValue::Null, "Tool 'x' is not supported")),
        r#"{"jsonrpc":"2.0","id":null,"error":{"code":-32000,"message":"Tool 'x' is not supported"}}"#
    );
}

#[test]
fn dashboard_routes() {
    assert!(matches!(route("GET", "/"), Route::Page));
    assert!(matches!(route("GET", "/index.html"), Route::Page));
    match route("GET", "/api/facts?user_id=bob") {
        Route::ListFacts { user_id } => assert_eq!(user_id, "bob"),
        _ => panic!(),
    }
    match route("GET", "/api/facts") {
        Route::ListFacts { user_id } => assert_eq!(user_id, "default"),
        _ => panic!(),
    }
    assert!(matches!(route("POST", "/api/facts"), Route::AddFact));
    assert!(matches!(route("POST", "/api/search"), Route::Search));
    match route("POST", "/api/facts/clear?user_id=bob") {
        Route::ClearUser { user_id } => assert_eq!(user_id, "bob"),
        _ => panic!(),
    }
    match route("DELETE", "/api/facts?id=42") {
        Route::DeleteFact { id } => assert_eq!(id, "42"),
        _ => panic!(),
    }
    match route("DELETE", "/api/facts") {
        Route::DeleteFact { id } => assert_eq!(id, ""),
        _ => panic!(),
    }
    assert!(matches!(route("POST", "/api/facts?x=1"), Route::NotFound));
    assert!(matches!(route("PUT", "/api/facts"), Route::NotFound));
    assert!(matches!(route("GET", "/other"), Route::NotFound));
}

#[test]
fn dashboard_add_body() {
    match read_add_body(None) {
        Err(r) => {
            assert_eq!(r.status, 400);
            assert_eq!(render(&r.body), r#"{"status":"error","message":"Invalid data"}"#);
            assert!(!r.save);
        }
        Ok(_) => panic!(),
    }
    assert!(read_add_body(Some(obj(vec![("fact", s(""))]))).is_err());
    let req = read_add_body(Some(obj(vec![("fact", s("tea"))]))).ok().unwrap();
    assert_eq!((req.fact.as_str(), req.user_id.as_str()), ("tea", "default"));
    let mut db = db_with(&[]);
    let r = add_reply(&mut db, req, None);
    assert_eq!(r.status, 400);
    assert!(db.records.is_empty());
    let req = read_add_body(Some(obj(vec![("fact", s("tea")), ("user_id", s("bob"))]))).ok().unwrap();
    let r = add_reply(&mut db, req, Some(vec![5]));
    assert_eq!(r.status, 200);
    assert!(r.save);
    assert_eq!(db.records[0].user_id, "bob");
}

#[test]
fn dashboard_search_body_and_reply() {
    let r = read_search_body(Some(obj(vec![("user_id", s("bob"))])));
    match r {
        Err(r) => assert_eq!(render(&r.body), r#"{"status":"error","message":"Invalid query"}"#),
        Ok(_) => panic!(),
    }
    let req = read_search_body(Some(obj(vec![("query", s("tea"))]))).ok().unwrap();
    assert_eq!((req.user_id.as_str(), req.limit), ("default", 10));
    let db = db_with(&[("a", "t", "default"), ("b", "u", "acer"), ("c", "v", "default")]);
    assert_eq!(search_reply(&db, &req, None).status, 400);
    let r = search_reply(&db, &req, Some(vec![0.5f64.to_bits(), 0.75f64.to_bits()]));
    assert_eq!(r.status, 200);
    assert!(!r.save);
    assert_eq!(
        render(&r.body),
        r#"{"status":"success","query":"tea","results":[{"id":"c","score":0.75,"text":"v"},{"id":"a","score":0.5,"text":"t"}]}"#
    );
    let r = search_reply(&db, &req, Some(vec![0.5f64.to_bits()]));
    assert_eq!(render(&r.body), r#"{"status":"success","query":"tea","results":[{"id":"a","score":0.5,"text":"t"}]}"#);
}

#[test]
fn dashboard_list_clear_delete() {
    let mut db = db_with(&[("a", "tea", "acer"), ("b", "x", "bob")]);
    let r = list_reply(&db, "acer");
    assert_eq!(render(&r.body), r#"{"status":"success","results":[{"id":"a","text":"tea"}]}"#);
    let r = delete_reply(&mut db, "nope");
    assert!(!r.save);
    assert_eq!(r.status, 200);
    let r = delete_reply(&mut db, "b");
    assert!(r.save);
    let r = clear_reply(&mut db, "acer");
    assert!(r.save);
    assert!(db.records.is_empty());
    assert_eq!(render(&r.body), r#"{"status":"success","message":"Cleared all memories for user acer"}"#);
}

#[test]
fn dashboard_server_carries_the_store_across_requests() {
    let mut server = DashboardServer::new(db_with(&[("a", "tea", "default"), ("b", "x", "bob")]));
    let r = server.add(AddRequest { fact: "rust".to_string(), user_id: "default".to_string() }, Some(vec![1]));
    assert!(r.save);
    let r = server.list("default");
    let text = render(&r.body);
    assert!(text.contains(r#""text":"tea""#) && text.contains(r#""text":"rust""#));
    assert_eq!(server.candidates("default").len(), 2);
    let r = server.delete("a");
    assert!(r.save);
    assert_eq!(server.candidates("default").len(), 1);
    let r = server.clear("bob");
    assert!(r.save);
    assert_eq!(server.database().records.len(), 1);
    let r = server.add(AddRequest { fact: "y".to_string(), user_id: "u".to_string() }, None);
    assert_eq!(r.status, 400);
    assert_eq!(server.database().records.len(), 1);
    assert_eq!(server.database().path, PathBuf::from("m.json"));
}

#[test]
fn dashboard_server_searches_the_current_records() {
    let mut server = DashboardServer::new(db_with(&[("a", "tea", "default"), ("b", "x", "bob")]));
    server.add(AddRequest { fact: "rust".to_string(), user_id: "default".to_string() }, Some(vec![1]));
    let req = read_search_body(Some(obj(vec![("query", s("q")), ("limit", JsonValue::Number(JsonNumber::PosInt(1)))])))
        .ok()
        .unwrap();
    let scores = vec![0.125f64.to_bits(), 0.5f64.to_bits()];
    let r = server.search(&req, Some(scores));
    assert_eq!(r.status, 200);
    assert!(r.body.get("results").is_some());
    let id = server.candidates("default")[1].id.clone();
    let expected = format!(r#"{{"status":"success","query":"q","results":[{{"id":"{}","score":0.5,"text":"rust"}}]}}"#, id);
    assert_eq!(render(&r.body), expected);
    assert_eq!(server.search(&req, None).status, 400);
}
