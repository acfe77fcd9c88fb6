//! The tool protocol spoken over standard input and output (JSON-RPC):
//! reading requests, the decisions of a tool call, and the replies.
use vstd::prelude::*;
use crate::json::{
    json_as_u64, json_fields, json_get, json_items, jstr, member, member_view, push_field, push_item,
    str_or, take_member, text_or, u64_or, Json, JsonNumber, JsonValue,
};
use crate::payload::{
    add_payload, add_response, clear_payload, clear_response, concat, delete_payload, delete_response,
    jobj, list_payload, list_response, search_payload, search_response,
};
use crate::ranking::{pair_scores, rank_hits, ranking, zip_hits};
use crate::record::{record_views, MemoryRecord, RecordView};
use crate::ids::is_memory_id;
use crate::store::{has_id, id_is_not, not_owned_by, owned_by, Database};
use crate::text::same_text;

verus! {

/// A call of one of the memory tools, with its arguments.
pub enum ToolCall {
    AddFact { fact: String, user_id: String },
    SearchFacts { query: String, user_id: String, limit: u64 },
    GetAllFacts { user_id: String },
    DeleteFact { fact_id: String },
    DeleteAllFacts { user_id: String },
    Unsupported { name: String },
}

/// The content of a [`ToolCall`].
pub enum ToolCallView {
    AddFact { fact: Seq<char>, user_id: Seq<char> },
    SearchFacts { query: Seq<char>, user_id: Seq<char>, limit: u64 },
    GetAllFacts { user_id: Seq<char> },
    DeleteFact { fact_id: Seq<char> },
    DeleteAllFacts { user_id: Seq<char> },
    Unsupported { name: Seq<char> },
}

impl View for ToolCall {
    type V = ToolCallView;

    open spec fn view(&self) -> ToolCallView {
        match self {
            ToolCall::AddFact { fact, user_id } => ToolCallView::AddFact { fact: fact@, user_id: user_id@ },
            ToolCall::SearchFacts { query, user_id, limit } => ToolCallView::SearchFacts {
                query: query@,
                user_id: user_id@,
                limit: *limit,
            },
            ToolCall::GetAllFacts { user_id } => ToolCallView::GetAllFacts { user_id: user_id@ },
            ToolCall::DeleteFact { fact_id } => ToolCallView::DeleteFact { fact_id: fact_id@ },
            ToolCall::DeleteAllFacts { user_id } => ToolCallView::DeleteAllFacts { user_id: user_id@ },
            ToolCall::Unsupported { name } => ToolCallView::Unsupported { name: name@ },
        }
    }
}

/// The user an argument list names, `default` when it names none.
pub open spec fn user_arg(args: Json) -> Seq<char> {
    str_or(json_get(args, "user_id"@), "default"@)
}

/// The tool call that `params` (`{"name": .., "arguments": {..}}`) asks for:
/// missing texts read as empty, a missing user as `default`, a missing
/// search limit as 5.
pub open spec fn tool_call_of(params: Json) -> ToolCallView {
    let name = str_or(json_get(params, "name"@), ""@);
    let args = json_get(params, "arguments"@);
    if name == "add_fact"@ {
        ToolCallView::AddFact { fact: str_or(json_get(args, "fact"@), ""@), user_id: user_arg(args) }
    } else if name == "search_facts"@ {
        ToolCallView::SearchFacts {
            query: str_or(json_get(args, "query"@), ""@),
            user_id: user_arg(args),
            limit: match json_as_u64(json_get(args, "limit"@)) {
                Some(n) => n,
                None => 5,
            },
        }
    } else if name == "get_all_facts"@ {
        ToolCallView::GetAllFacts { user_id: user_arg(args) }
    } else if name == "delete_fact"@ {
        ToolCallView::DeleteFact { fact_id: str_or(json_get(args, "fact_id"@), ""@) }
    } else if name == "delete_all_facts"@ {
        ToolCallView::DeleteAllFacts { user_id: user_arg(args) }
    } else {
        ToolCallView::Unsupported { name }
    }
}

/// Reads the tool call of a request's `params`.
pub fn parse_tool_call(params: Option<&JsonValue>) -> (call: ToolCall)
    ensures
        call@ == tool_call_of(member_view(params)),
{
    let name = text_or(member(params, "name"), "");
    let args = member(params, "arguments");
    if same_text(name.as_str(), "add_fact") {
        ToolCall::AddFact { fact: text_or(member(args, "fact"), ""), user_id: text_or(member(args, "user_id"), "default") }
    } else if same_text(name.as_str(), "search_facts") {
        ToolCall::SearchFacts {
            query: text_or(member(args, "query"), ""),
            user_id: text_or(member(args, "user_id"), "default"),
            limit: u64_or(member(args, "limit"), 5),
        }
    } else if same_text(name.as_str(), "get_all_facts") {
        ToolCall::GetAllFacts { user_id: text_or(member(args, "user_id"), "default") }
    } else if same_text(name.as_str(), "delete_fact") {
        ToolCall::DeleteFact { fact_id: text_or(member(args, "fact_id"), "") }
    } else if same_text(name.as_str(), "delete_all_facts") {
        ToolCall::DeleteAllFacts { user_id: text_or(member(args, "user_id"), "default") }
    } else {
        ToolCall::Unsupported { name }
    }
}

/// The user a tool argument object names: its `user_id` when that is a
/// string, `default` otherwise.
pub open spec fn named_user(args: Json) -> Seq<char> {
    match json_get(args, "user_id"@) {
        Json::Str(u) => u,
        _ => "default"@,
    }
}

proof fn lemma_tool_names_differ()
    ensures
        "add_fact"@ != "search_facts"@,
        "add_fact"@ != "get_all_facts"@,
        "add_fact"@ != "delete_fact"@,
        "add_fact"@ != "delete_all_facts"@,
        "search_facts"@ != "get_all_facts"@,
        "search_facts"@ != "delete_fact"@,
        "search_facts"@ != "delete_all_facts"@,
        "get_all_facts"@ != "delete_fact"@,
        "get_all_facts"@ != "delete_all_facts"@,
        "delete_fact"@ != "delete_all_facts"@,
{
    reveal_strlit("add_fact");
    reveal_strlit("search_facts");
    reveal_strlit("get_all_facts");
    reveal_strlit("delete_fact");
    reveal_strlit("delete_all_facts");
    assert("add_fact"@.len() != "search_facts"@.len());
    assert("add_fact"@.len() != "get_all_facts"@.len());
    assert("add_fact"@.len() != "delete_fact"@.len());
    assert("add_fact"@.len() != "delete_all_facts"@.len());
    assert("search_facts"@[0] != "get_all_facts"@[0]);
    assert("search_facts"@[0] != "delete_fact"@[0]);
    assert("search_facts"@[0] != "delete_all_facts"@[0]);
    assert("get_all_facts"@[0] != "delete_fact"@[0]);
    assert("get_all_facts"@[0] != "delete_all_facts"@[0]);
    assert("delete_fact"@.len() != "delete_all_facts"@.len());
}

/// `delete_fact` deletes the fact whose identifier is given as its
/// `fact_id` argument, the argument its schema in `tools/list` names.
pub proof fn lemma_delete_fact_reads_fact_id(params: Json, id: Seq<char>)
    requires
        json_get(params, "name"@) == Json::Str("delete_fact"@),
        json_get(json_get(params, "arguments"@), "fact_id"@) == Json::Str(id),
    ensures
        tool_call_of(params) == (ToolCallView::DeleteFact { fact_id: id }),
{
    lemma_tool_names_differ();
}

/// `get_all_facts` lists the facts of the user given as its `user_id`
/// argument, and of `default` only when that argument is missing or is not
/// a string.
pub proof fn lemma_get_all_facts_reads_user_id(params: Json)
    requires
        json_get(params, "name"@) == Json::Str("get_all_facts"@),
    ensures
        tool_call_of(params) == (ToolCallView::GetAllFacts { user_id: named_user(json_get(params, "arguments"@)) }),
{
    lemma_tool_names_differ();
}

/// `delete_all_facts` clears the user given as its `user_id` argument, and
/// `default` only when that argument is missing or is not a string.
pub proof fn lemma_delete_all_facts_reads_user_id(params: Json)
    requires
        json_get(params, "name"@) == Json::Str("delete_all_facts"@),
    ensures
        tool_call_of(params) == (ToolCallView::DeleteAllFacts { user_id: named_user(json_get(params, "arguments"@)) }),
{
    lemma_tool_names_differ();
}

/// `add_fact` stores its `fact` argument for the user given as its
/// `user_id` argument (`default` when missing or not a string).
pub proof fn lemma_add_fact_reads_arguments(params: Json, fact: Seq<char>)
    requires
        json_get(params, "name"@) == Json::Str("add_fact"@),
        json_get(json_get(params, "arguments"@), "fact"@) == Json::Str(fact),
    ensures
        tool_call_of(params) == (ToolCallView::AddFact { fact, user_id: named_user(json_get(params, "arguments"@)) }),
{
    lemma_tool_names_differ();
}

/// `search_facts` searches for its `query` argument among the facts of the
/// user given as its `user_id` argument (`default` when missing or not a
/// string), keeping its `limit` argument when that is a non-negative integer
/// and 5 otherwise.
pub proof fn lemma_search_facts_reads_arguments(params: Json, query: Seq<char>)
    requires
        json_get(params, "name"@) == Json::Str("search_facts"@),
        json_get(json_get(params, "arguments"@), "query"@) == Json::Str(query),
    ensures
        tool_call_of(params) == (ToolCallView::SearchFacts {
            query,
            user_id: named_user(json_get(params, "arguments"@)),
            limit: match json_get(json_get(params, "arguments"@), "limit"@) {
                Json::Number(JsonNumber::PosInt(n)) => n,
                _ => 5,
            },
        }),
{
    lemma_tool_names_differ();
}

/// A request of the protocol, as far as the server acts on it.
pub enum McpRequest {
    Initialize { id: JsonValue },
    ListTools { id: JsonValue },
    CallTool { id: JsonValue, call: ToolCall },
    Ignored,
}

/// The content of an [`McpRequest`].
pub enum McpRequestView {
    Initialize { id: Json },
    ListTools { id: Json },
    CallTool { id: Json, call: ToolCallView },
    Ignored,
}

impl View for McpRequest {
    type V = McpRequestView;

    open spec fn view(&self) -> McpRequestView {
        match self {
            McpRequest::Initialize { id } => McpRequestView::Initialize { id: id@ },
            McpRequest::ListTools { id } => McpRequestView::ListTools { id: id@ },
            McpRequest::CallTool { id, call } => McpRequestView::CallTool { id: id@, call: call@ },
            McpRequest::Ignored => McpRequestView::Ignored,
        }
    }
}

/// What a parsed request asks for, by its `method`; the `id` (or `null`) is
/// kept to be echoed in the reply. Unknown methods are ignored.
pub open spec fn mcp_request_of(req: Json) -> McpRequestView {
    let method = str_or(json_get(req, "method"@), ""@);
    let id = json_get(req, "id"@);
    if method == "initialize"@ {
        McpRequestView::Initialize { id }
    } else if method == "tools/list"@ {
        McpRequestView::ListTools { id }
    } else if method == "tools/call"@ {
        McpRequestView::CallTool { id, call: tool_call_of(json_get(req, "params"@)) }
    } else {
        McpRequestView::Ignored
    }
}

/// Reads a parsed request.
pub fn parse_request(req: JsonValue) -> (r: McpRequest)
    ensures
        r@ == mcp_request_of(req@),
{
    let method = text_or(req.get("method"), "");
    if same_text(method.as_str(), "initialize") {
        McpRequest::Initialize { id: take_member(req, "id") }
    } else if same_text(method.as_str(), "tools/list") {
        McpRequest::ListTools { id: take_member(req, "id") }
    } else if same_text(method.as_str(), "tools/call") {
        let call = parse_tool_call(req.get("params"));
        McpRequest::CallTool { id: take_member(req, "id"), call }
    } else {
        McpRequest::Ignored
    }
}


/// The reply to `initialize`: protocol version, capabilities and server name.
pub open spec fn initialize_json(id: Json) -> Json {
    jobj(seq![
        ("jsonrpc"@, jstr("2.0"@)),
        ("id"@, id),
        ("result"@, jobj(seq![
            ("protocolVersion"@, jstr("2024-11-05"@)),
            ("capabilities"@, jobj(seq![("tools"@, jobj(seq![]))])),
            ("serverInfo"@, jobj(seq![("name"@, jstr("Mem0-Local-Rust"@)), ("version"@, jstr("1.0.0"@))])),
        ])),
    ])
}

/// Builds [`initialize_json`].
pub fn initialize_response(id: JsonValue) -> (v: JsonValue)
    ensures
        v@ == initialize_json(id@),
{
    let mut info: Vec<(String, JsonValue)> = Vec::new();
    push_field(&mut info, "name", JsonValue::text("Mem0-Local-Rust"));
    push_field(&mut info, "version", JsonValue::text("1.0.0"));
    let ghost info_v = json_fields(info@);
    assert(info_v =~= seq![("name"@, jstr("Mem0-Local-Rust"@)), ("version"@, jstr("1.0.0"@))]);
    let mut caps: Vec<(String, JsonValue)> = Vec::new();
    let empty: Vec<(String, JsonValue)> = Vec::new();
    assert(json_fields(empty@) =~= Seq::<(Seq<char>, Json)>::empty());
    push_field(&mut caps, "tools", JsonValue::object(empty));
    let ghost caps_v = json_fields(caps@);
    assert(caps_v =~= seq![("tools"@, jobj(seq![]))]);
    let mut result: Vec<(String, JsonValue)> = Vec::new();
    push_field(&mut result, "protocolVersion", JsonValue::text("2024-11-05"));
    push_field(&mut result, "capabilities", JsonValue::object(caps));
    push_field(&mut result, "serverInfo", JsonValue::object(info));
    let ghost result_v = json_fields(result@);
    assert(result_v =~= seq![
        ("protocolVersion"@, jstr("2024-11-05"@)),
        ("capabilities"@, jobj(caps_v)),
        ("serverInfo"@, jobj(info_v)),
    ]);
    let ghost idv = id@;
    let mut top: Vec<(String, JsonValue)> = Vec::new();
    push_field(&mut top, "jsonrpc", JsonValue::text("2.0"));
    push_field(&mut top, "id", id);
    push_field(&mut top, "result", JsonValue::object(result));
    assert(json_fields(top@) =~= seq![("jsonrpc"@, jstr("2.0"@)), ("id"@, idv), ("result"@, jobj(result_v))]);
    JsonValue::object(top)
}

/// The schema of one tool argument: `{"type": .., "description": ..}`.
pub open spec fn property_json(kind: Seq<char>, description: Seq<char>) -> Json {
    jobj(seq![("type"@, jstr(kind)), ("description"@, jstr(description))])
}

/// The description of one tool: name, description and input schema.
pub open spec fn tool_json(
    name: Seq<char>,
    description: Seq<char>,
    properties: Seq<(Seq<char>, Json)>,
    required: Seq<Seq<char>>,
) -> Json {
    jobj(seq![
        ("name"@, jstr(name)),
        ("description"@, jstr(description)),
        ("inputSchema"@, jobj(seq![
            ("type"@, jstr("object"@)),
            ("properties"@, jobj(properties)),
            ("required"@, Json::Array(required.map_values(|r: Seq<char>| jstr(r)))),
        ])),
    ])
}

/// The five tools the server offers.
pub open spec fn tools_json() -> Seq<Json> {
    seq![
        tool_json(
            "add_fact"@,
            "Add a new fact or memory to the user's long-term memory store."@,
            seq![
                ("fact"@, property_json("string"@, "The fact content (e.g. \"User prefers Rust for backend development\")."@)),
                ("user_id"@, property_json("string"@, "The identifier of the user (e.g. \"acer\")."@)),
            ],
            seq!["fact"@, "user_id"@],
        ),
        tool_json(
            "search_facts"@,
            "Semantically search for relevant facts in the user's long-term memory."@,
            seq![
                ("query"@, property_json("string"@, "The search query or keyword (e.g. \"favorite programming language\")."@)),
                ("user_id"@, property_json("string"@, "The identifier of the user."@)),
                ("limit"@, property_json("integer"@, "Maximum number of results to return (default: 5)."@)),
            ],
            seq!["query"@, "user_id"@],
        ),
        tool_json(
            "get_all_facts"@,
            "Retrieve all stored facts and memories for a user."@,
            seq![("user_id"@, property_json("string"@, "The identifier of the user."@))],
            seq!["user_id"@],
        ),
        tool_json(
            "delete_fact"@,
            "Delete a specific fact from the long-term memory by its ID."@,
            seq![("fact_id"@, property_json("string"@, "The ID of the fact memory to delete."@))],
            seq!["fact_id"@],
        ),
        tool_json(
            "delete_all_facts"@,
            "Clear all memories and facts for a specific user."@,
            seq![("user_id"@, property_json("string"@, "The identifier of the user to clear memories for."@))],
            seq!["user_id"@],
        ),
    ]
}

/// The reply to `tools/list`.
pub open spec fn tools_list_json(id: Json) -> Json {
    jobj(seq![
        ("jsonrpc"@, jstr("2.0"@)),
        ("id"@, id),
        ("result"@, jobj(seq![("tools"@, Json::Array(tools_json()))])),
    ])
}

fn property(fields: &mut Vec<(String, JsonValue)>, name: &str, kind: &str, description: &str)
    ensures
        json_fields(final(fields)@) == json_fields(old(fields)@).push((name@, property_json(kind@, description@))),
{
    let mut p: Vec<(String, JsonValue)> = Vec::new();
    push_field(&mut p, "type", JsonValue::text(kind));
    push_field(&mut p, "description", JsonValue::text(description));
    assert(json_fields(p@) =~= seq![("type"@, jstr(kind@)), ("description"@, jstr(description@))]);
    push_field(fields, name, JsonValue::object(p));
}

fn tool(name: &str, description: &str, properties: Vec<(String, JsonValue)>, required: Vec<&str>) -> (v: JsonValue)
    ensures
        v@ == tool_json(name@, description@, json_fields(properties@), required@.map_values(|r: &str| r@)),
{
    let ghost req = required@.map_values(|r: &str| r@);
    let mut names: Vec<JsonValue> = Vec::new();
    for i in 0..required.len()
        invariant
            req == required@.map_values(|r: &str| r@),
            json_items(names@) == req.take(i as int).map_values(|r: Seq<char>| jstr(r)),
    {
        push_item(&mut names, JsonValue::text(required[i]));
        assert(req.take(i + 1).map_values(|r: Seq<char>| jstr(r))
            =~= req.take(i as int).map_values(|r: Seq<char>| jstr(r)).push(jstr(req[i as int])));
    }
    assert(req.take(required.len() as int) == req);
    let ghost names_v = json_items(names@);
    let ghost props_v = json_fields(properties@);
    let mut schema: Vec<(String, JsonValue)> = Vec::new();
    push_field(&mut schema, "type", JsonValue::text("object"));
    push_field(&mut schema, "properties", JsonValue::object(properties));
    push_field(&mut schema, "required", JsonValue::array(names));
    let ghost schema_v = json_fields(schema@);
    assert(schema_v =~= seq![
        ("type"@, jstr("object"@)),
        ("properties"@, jobj(props_v)),
        ("required"@, Json::Array(names_v)),
    ]);
    let mut t: Vec<(String, JsonValue)> = Vec::new();
    push_field(&mut t, "name", JsonValue::text(name));
    push_field(&mut t, "description", JsonValue::text(description));
    push_field(&mut t, "inputSchema", JsonValue::object(schema));
    assert(json_fields(t@) =~= seq![
        ("name"@, jstr(name@)),
        ("description"@, jstr(description@)),
        ("inputSchema"@, jobj(schema_v)),
    ]);
    JsonValue::object(t)
}

/// Builds [`tools_list_json`].
pub fn tools_list_response(id: JsonValue) -> (v: JsonValue)
    ensures
        v@ == tools_list_json(id@),
{
    let mut tools: Vec<JsonValue> = Vec::new();
    let ghost expected = tools_json();

    let mut p: Vec<(String, JsonValue)> = Vec::new();
    property(&mut p, "fact", "string", "The fact content (e.g. \"User prefers Rust for backend development\").");
    property(&mut p, "user_id", "string", "The identifier of the user (e.g. \"acer\").");
    assert(json_fields(p@) =~= seq![
        ("fact"@, property_json("string"@, "The fact content (e.g. \"User prefers Rust for backend development\")."@)),
        ("user_id"@, property_json("string"@, "The identifier of the user (e.g. \"acer\")."@)),
    ]);
    let req = vec!["fact", "user_id"];
    assert(req@.map_values(|r: &str| r@) =~= seq!["fact"@, "user_id"@]);
    let t = tool("add_fact", "Add a new fact or memory to the user's long-term memory store.", p, req);
    assert(t@ == expected[0]);
    push_item(&mut tools, t);

    let mut p: Vec<(String, JsonValue)> = Vec::new();
    property(&mut p, "query", "string", "The search query or keyword (e.g. \"favorite programming language\").");
    property(&mut p, "user_id", "string", "The identifier of the user.");
    property(&mut p, "limit", "integer", "Maximum number of results to return (default: 5).");
    assert(json_fields(p@) =~= seq![
        ("query"@, property_json("string"@, "The search query or keyword (e.g. \"favorite programming language\")."@)),
        ("user_id"@, property_json("string"@, "The identifier of the user."@)),
        ("limit"@, property_json("integer"@, "Maximum number of results to return (default: 5)."@)),
    ]);
    let req = vec!["query", "user_id"];
    assert(req@.map_values(|r: &str| r@) =~= seq!["query"@, "user_id"@]);
    let t = tool(
        "search_facts",
        "Semantically search for relevant facts in the user's long-term memory.",
        p,
        req,
    );
    assert(t@ == expected[1]);
    push_item(&mut tools, t);

    let mut p: Vec<(String, JsonValue)> = Vec::new();
    property(&mut p, "user_id", "string", "The identifier of the user.");
    assert(json_fields(p@) =~= seq![("user_id"@, property_json("string"@, "The identifier of the user."@))]);
    let req = vec!["user_id"];
    assert(req@.map_values(|r: &str| r@) =~= seq!["user_id"@]);
    let t = tool("get_all_facts", "Retrieve all stored facts and memories for a user.", p, req);
    assert(t@ == expected[2]);
    push_item(&mut tools, t);

    let mut p: Vec<(String, JsonValue)> = Vec::new();
    property(&mut p, "fact_id", "string", "The ID of the fact memory to delete.");
    assert(json_fields(p@) =~= seq![("fact_id"@, property_json("string"@, "The ID of the fact memory to delete."@))]);
    let req = vec!["fact_id"];
    assert(req@.map_values(|r: &str| r@) =~= seq!["fact_id"@]);
    let t = tool("delete_fact", "Delete a specific fact from the long-term memory by its ID.", p, req);
    assert(t@ == expected[3]);
    push_item(&mut tools, t);

    let mut p: Vec<(String, JsonValue)> = Vec::new();
    property(&mut p, "user_id", "string", "The identifier of the user to clear memories for.");
    assert(json_fields(p@) =~= seq![("user_id"@, property_json("string"@, "The identifier of the user to clear memories for."@))]);
    let req = vec!["user_id"];
    assert(req@.map_values(|r: &str| r@) =~= seq!["user_id"@]);
    let t = tool("delete_all_facts", "Clear all memories and facts for a specific user.", p, req);
    assert(t@ == expected[4]);
    push_item(&mut tools, t);

    let ghost tools_v = json_items(tools@);
    assert(tools_v =~= tools_json());
    let mut result: Vec<(String, JsonValue)> = Vec::new();
    push_field(&mut result, "tools", JsonValue::array(tools));
    let ghost result_v = json_fields(result@);
    assert(result_v =~= seq![("tools"@, Json::Array(tools_json()))]);
    let ghost idv = id@;
    let mut top: Vec<(String, JsonValue)> = Vec::new();
    push_field(&mut top, "jsonrpc", JsonValue::text("2.0"));
    push_field(&mut top, "id", id);
    push_field(&mut top, "result", JsonValue::object(result));
    assert(json_fields(top@) =~= seq![("jsonrpc"@, jstr("2.0"@)), ("id"@, idv), ("result"@, jobj(result_v))]);
    JsonValue::object(top)
}


/// A successful tool reply: the result text as a single text content item.
pub open spec fn tool_success_json(id: Json, text: Seq<char>) -> Json {
    jobj(seq![
        ("jsonrpc"@, jstr("2.0"@)),
        ("id"@, id),
        ("result"@, jobj(seq![
            ("content"@, Json::Array(seq![jobj(seq![("type"@, jstr("text"@)), ("text"@, jstr(text))])])),
        ])),
    ])
}

/// A failed tool reply: error code -32000 with a message.
pub open spec fn tool_error_json(id: Json, message: Seq<char>) -> Json {
    jobj(seq![
        ("jsonrpc"@, jstr("2.0"@)),
        ("id"@, id),
        ("error"@, jobj(seq![
            ("code"@, Json::Number(JsonNumber::NegInt(-32000i64))),
            ("message"@, jstr(message)),
        ])),
    ])
}

/// Builds [`tool_success_json`]; `text` is the serialized result.
pub fn tool_success(id: JsonValue, text: &str) -> (v: JsonValue)
    ensures
        v@ == tool_success_json(id@, text@),
{
    let mut item: Vec<(String, JsonValue)> = Vec::new();
    push_field(&mut item, "type", JsonValue::text("text"));
    push_field(&mut item, "text", JsonValue::text(text));
    let ghost item_v = json_fields(item@);
    assert(item_v =~= seq![("type"@, jstr("text"@)), ("text"@, jstr(text@))]);
    let mut content: Vec<JsonValue> = Vec::new();
    push_item(&mut content, JsonValue::object(item));
    let ghost content_v = json_items(content@);
    assert(content_v =~= seq![jobj(item_v)]);
    let mut result: Vec<(String, JsonValue)> = Vec::new();
    push_field(&mut result, "content", JsonValue::array(content));
    let ghost result_v = json_fields(result@);
    assert(result_v =~= seq![("content"@, Json::Array(content_v))]);
    let ghost idv = id@;
    let mut top: Vec<(String, JsonValue)> = Vec::new();
    push_field(&mut top, "jsonrpc", JsonValue::text("2.0"));
    push_field(&mut top, "id", id);
    push_field(&mut top, "result", JsonValue::object(result));
    assert(json_fields(top@) =~= seq![("jsonrpc"@, jstr("2.0"@)), ("id"@, idv), ("result"@, jobj(result_v))]);
    JsonValue::object(top)
}

/// Builds [`tool_error_json`].
pub fn tool_error(id: JsonValue, message: &str) -> (v: JsonValue)
    ensures
        v@ == tool_error_json(id@, message@),
{
    let mut err: Vec<(String, JsonValue)> = Vec::new();
    push_field(&mut err, "code", JsonValue::Number(JsonNumber::NegInt(-32000i64)));
    push_field(&mut err, "message", JsonValue::text(message));
    let ghost err_v = json_fields(err@);
    assert(err_v =~= seq![("code"@, Json::Number(JsonNumber::NegInt(-32000i64))), ("message"@, jstr(message@))]);
    let ghost idv = id@;
    let mut top: Vec<(String, JsonValue)> = Vec::new();
    push_field(&mut top, "jsonrpc", JsonValue::text("2.0"));
    push_field(&mut top, "id", id);
    push_field(&mut top, "error", JsonValue::object(err));
    assert(json_fields(top@) =~= seq![("jsonrpc"@, jstr("2.0"@)), ("id"@, idv), ("error"@, jobj(err_v))]);
    JsonValue::object(top)
}

/// What the server does next with an input line.
pub enum McpAction {
    /// Nothing: the line is not a request the server answers.
    Ignore,
    /// Print this reply.
    Reply(JsonValue),
    /// Load the embedding model, then report with `on_embedder_loaded`.
    LoadEmbedder(ToolCall),
    /// Load the store and run the tool call (see [`begin_tool`]), then answer with `finish`.
    RunTool(ToolCall),
}

/// The content of an [`McpAction`].
pub enum McpActionView {
    Ignore,
    Reply(Json),
    LoadEmbedder(ToolCallView),
    RunTool(ToolCallView),
}

impl View for McpAction {
    type V = McpActionView;

    open spec fn view(&self) -> McpActionView {
        match self {
            McpAction::Ignore => McpActionView::Ignore,
            McpAction::Reply(v) => McpActionView::Reply(v@),
            McpAction::LoadEmbedder(call) => McpActionView::LoadEmbedder(call@),
            McpAction::RunTool(call) => McpActionView::RunTool(call@),
        }
    }
}

/// How a tool call ends, as it is sent: the serialized result, or an error message.
pub enum ToolReply {
    Success(String),
    Failure(String),
}

/// The message of a tool call made while the embedding model cannot be loaded.
pub open spec fn embedder_failed_message(e: Seq<char>) -> Seq<char> {
    "Failed to load embedder: "@ + e
}

/// The message of a tool call whose text could not be embedded.
pub open spec fn embedding_failed_message(e: Seq<char>) -> Seq<char> {
    "Failed to generate embedding: "@ + e
}

/// The message of a tool call whose change could not be saved.
pub open spec fn save_failed_message(e: Seq<char>) -> Seq<char> {
    "Database save error: "@ + e
}

/// The message of a call of an unknown tool.
pub open spec fn unsupported_message(name: Seq<char>) -> Seq<char> {
    "Tool '"@ + name + "' is not supported"@
}

/// The content of an input line: the parsed JSON value, or `None` for a
/// blank line or one that is not JSON.
pub open spec fn line_view(line: Option<JsonValue>) -> Option<Json> {
    match line {
        Some(v) => Some(v@),
        None => None,
    }
}

/// Whether the server answers a line: it is JSON and its method is
/// `initialize`, `tools/list` or `tools/call`.
pub open spec fn answers(line: Option<Json>) -> bool {
    match line {
        Some(r) => !(mcp_request_of(r) is Ignored),
        None => false,
    }
}

/// The `id` of a line's request (`null` when missing).
pub open spec fn request_id(line: Option<Json>) -> Json {
    match line {
        Some(r) => json_get(r, "id"@),
        None => Json::Null,
    }
}

/// The ids of the lines the server answers, in input order.
pub open spec fn answered_ids(lines: Seq<Option<Json>>) -> Seq<Json>
    decreases lines.len(),
{
    if lines.len() == 0 {
        Seq::empty()
    } else {
        let before = answered_ids(lines.drop_last());
        if answers(lines.last()) {
            before.push(request_id(lines.last()))
        } else {
            before
        }
    }
}

/// Whether `v` is a reply to request `id`: `jsonrpc` 2.0, that `id`, and
/// exactly one of `result` and `error`.
pub open spec fn is_reply_to(v: Json, id: Json) -> bool {
    match v {
        Json::Object(f) => {
            &&& f.len() == 3
            &&& f[0] == ("jsonrpc"@, jstr("2.0"@))
            &&& f[1] == ("id"@, id)
            &&& (f[2].0 == "result"@ || f[2].0 == "error"@)
        },
        _ => false,
    }
}

/// Whether `replies` are, one for one and in order, replies to the requests `ids`.
pub open spec fn replies_answer(replies: Seq<Json>, ids: Seq<Json>) -> bool {
    &&& replies.len() == ids.len()
    &&& forall|k: int| 0 <= k < replies.len() ==> is_reply_to(#[trigger] replies[k], ids[k])
}

proof fn lemma_replies_push(replies: Seq<Json>, ids: Seq<Json>, v: Json, id: Json)
    requires
        replies_answer(replies, ids),
        is_reply_to(v, id),
    ensures
        replies_answer(replies.push(v), ids.push(id)),
{
    assert forall|k: int| 0 <= k < replies.push(v).len() implies is_reply_to(#[trigger] replies.push(v)[k], ids.push(id)[k]) by {
        if k < replies.len() {
            assert(replies.push(v)[k] == replies[k]);
        }
    }
}

/// A protocol session: whether the embedding model is loaded (it is loaded
/// at the first tool call, and again at later ones as long as loading
/// fails), the request of a tool call under way, and, as a record, the
/// input lines read and the replies sent.
pub struct McpSession {
    embedder_ready: bool,
    pending: Option<JsonValue>,
    lines: Ghost<Seq<Option<Json>>>,
    replies: Ghost<Seq<Json>>,
}

impl McpSession {
    /// Whether the embedding model is loaded.
    pub closed spec fn model_ready(&self) -> bool {
        self.embedder_ready
    }

    /// Whether the embedding model is loaded.
    pub fn embedder_loaded(&self) -> (b: bool)
        ensures
            b == self.model_ready(),
    {
        self.embedder_ready
    }

    /// The input lines read so far.
    pub closed spec fn lines(&self) -> Seq<Option<Json>> {
        self.lines@
    }

    /// The replies sent so far.
    pub closed spec fn replies(&self) -> Seq<Json> {
        self.replies@
    }

    /// Whether no tool call is under way.
    pub closed spec fn is_idle(&self) -> bool {
        self.pending is None
    }

    /// The id of the request whose tool call is under way.
    pub closed spec fn pending_id(&self) -> Json {
        match self.pending {
            Some(id) => id@,
            None => Json::Null,
        }
    }

    /// The session's invariant: every line read has had its reply, in order,
    /// except the last one while its tool call is under way.
    pub closed spec fn wf(&self) -> bool {
        match self.pending {
            None => replies_answer(self.replies@, answered_ids(self.lines@)),
            Some(id) => {
                &&& self.lines@.len() > 0
                &&& answers(self.lines@.last())
                &&& id@ == request_id(self.lines@.last())
                &&& replies_answer(self.replies@, answered_ids(self.lines@.drop_last()))
            },
        }
    }

    /// A session that has read nothing and has not loaded the model.
    pub fn new() -> (s: McpSession)
        ensures
            !s.model_ready(),
            s.wf(),
            s.is_idle(),
            s.lines() == Seq::<Option<Json>>::empty(),
            s.replies() == Seq::<Json>::empty(),
    {
        McpSession { embedder_ready: false, pending: None, lines: Ghost(Seq::empty()), replies: Ghost(Seq::empty()) }
    }

    /// Decides what to do with an input line (`None`: blank or not JSON).
    pub fn on_line(&mut self, line: Option<JsonValue>) -> (a: McpAction)
        requires
            old(self).wf(),
            old(self).is_idle(),
        ensures
            final(self).wf(),
            final(self).model_ready() == old(self).model_ready(),
            final(self).lines() == old(self).lines().push(line_view(line)),
            a@ == match line_view(line) {
                None => McpActionView::Ignore,
                Some(r) => match mcp_request_of(r) {
                    McpRequestView::Initialize { id } => McpActionView::Reply(initialize_json(id)),
                    McpRequestView::ListTools { id } => McpActionView::Reply(tools_list_json(id)),
                    McpRequestView::CallTool { call, .. } => if old(self).model_ready() {
                        McpActionView::RunTool(call)
                    } else {
                        McpActionView::LoadEmbedder(call)
                    },
                    McpRequestView::Ignored => McpActionView::Ignore,
                },
            },
            final(self).replies() == match a@ {
                McpActionView::Reply(v) => old(self).replies().push(v),
                _ => old(self).replies(),
            },
            final(self).is_idle() == !(a@ is LoadEmbedder || a@ is RunTool),
            !final(self).is_idle() ==> final(self).pending_id() == request_id(line_view(line)),
    {
        let ghost lv = line_view(line);
        let ghost old_replies = self.replies@;
        let ghost old_lines = self.lines@;
        proof {
            self.lines = Ghost(old_lines.push(lv));
        }
        assert(self.lines@.drop_last() == old_lines);
        match line {
            None => McpAction::Ignore,
            Some(v) => match parse_request(v) {
                McpRequest::Initialize { id } => {
                    let reply = initialize_response(id);
                    proof {
                        lemma_replies_push(old_replies, answered_ids(old_lines), reply@, request_id(lv));
                        self.replies = Ghost(old_replies.push(reply@));
                    }
                    McpAction::Reply(reply)
                },
                McpRequest::ListTools { id } => {
                    let reply = tools_list_response(id);
                    proof {
                        lemma_replies_push(old_replies, answered_ids(old_lines), reply@, request_id(lv));
                        self.replies = Ghost(old_replies.push(reply@));
                    }
                    McpAction::Reply(reply)
                },
                McpRequest::CallTool { id, call } => {
                    self.pending = Some(id);
                    if self.embedder_ready {
                        McpAction::RunTool(call)
                    } else {
                        McpAction::LoadEmbedder(call)
                    }
                },
                McpRequest::Ignored => McpAction::Ignore,
            },
        }
    }

    /// Goes on with a tool call once loading the model has succeeded or
    /// failed (with the error's text).
    pub fn on_embedder_loaded(&mut self, call: ToolCall, loaded: Result<(), String>) -> (a: McpAction)
        requires
            old(self).wf(),
            !old(self).is_idle(),
        ensures
            final(self).wf(),
            final(self).lines() == old(self).lines(),
            match loaded {
                Ok(_) => final(self).model_ready() && a@ == McpActionView::RunTool(call@)
                    && !final(self).is_idle() && final(self).pending_id() == old(self).pending_id()
                    && final(self).replies() == old(self).replies(),
                Err(e) => final(self).model_ready() == old(self).model_ready()
                    && a@ == McpActionView::Reply(tool_error_json(old(self).pending_id(), embedder_failed_message(e@)))
                    && final(self).is_idle()
                    && final(self).replies() == old(self).replies().push(
                        tool_error_json(old(self).pending_id(), embedder_failed_message(e@)),
                    ),
            },
    {
        match loaded {
            Ok(_) => {
                self.embedder_ready = true;
                McpAction::RunTool(call)
            },
            Err(e) => {
                let m = concat("Failed to load embedder: ", e.as_str());
                McpAction::Reply(self.finish(ToolReply::Failure(m)))
            },
        }
    }

    /// Ends the tool call under way with its reply, which it gives back to be sent.
    pub fn finish(&mut self, reply: ToolReply) -> (v: JsonValue)
        requires
            old(self).wf(),
            !old(self).is_idle(),
        ensures
            final(self).wf(),
            final(self).is_idle(),
            final(self).model_ready() == old(self).model_ready(),
            final(self).lines() == old(self).lines(),
            final(self).replies() == old(self).replies().push(v@),
            v@ == match reply {
                ToolReply::Success(t) => tool_success_json(old(self).pending_id(), t@),
                ToolReply::Failure(m) => tool_error_json(old(self).pending_id(), m@),
            },
    {
        let id = match self.pending.take() {
            Some(id) => id,
            None => JsonValue::Null,
        };
        let v = match reply {
            ToolReply::Success(t) => tool_success(id, t.as_str()),
            ToolReply::Failure(m) => tool_error(id, m.as_str()),
        };
        proof {
            let lines = self.lines@;
            assert(answered_ids(lines) == answered_ids(lines.drop_last()).push(request_id(lines.last())));
            lemma_replies_push(self.replies@, answered_ids(lines.drop_last()), v@, request_id(lines.last()));
            self.replies = Ghost(self.replies@.push(v@));
        }
        v
    }
}

/// Over a whole session: once no tool call is under way, exactly one reply
/// has been sent for each line whose method the server answers, none for
/// the others, in input order, each carrying its request's `id` and exactly
/// one of `result` and `error`.
pub proof fn lemma_one_reply_per_request(s: McpSession)
    requires
        s.wf(),
        s.is_idle(),
    ensures
        replies_answer(s.replies(), answered_ids(s.lines())),
{
}

/// How a tool call ends: with a result to send as text, or with an error message.
pub enum ToolOutcome {
    Success(JsonValue),
    Failure(String),
}

/// The content of a [`ToolOutcome`].
pub enum ToolOutcomeView {
    Success(Json),
    Failure(Seq<char>),
}

impl View for ToolOutcome {
    type V = ToolOutcomeView;

    open spec fn view(&self) -> ToolOutcomeView {
        match self {
            ToolOutcome::Success(v) => ToolOutcomeView::Success(v@),
            ToolOutcome::Failure(m) => ToolOutcomeView::Failure(m@),
        }
    }
}

/// A tool call that waits for the embedding of a text.
pub enum EmbedTask {
    /// Adding `fact` for `user_id`.
    AddFact { fact: String, user_id: String },
    /// Searching `user_id`'s facts for `query`, keeping `limit` hits.
    Search { query: String, user_id: String, limit: u64 },
}

/// The content of an [`EmbedTask`].
pub enum EmbedTaskView {
    AddFact { fact: Seq<char>, user_id: Seq<char> },
    Search { query: Seq<char>, user_id: Seq<char>, limit: u64 },
}

impl View for EmbedTask {
    type V = EmbedTaskView;

    open spec fn view(&self) -> EmbedTaskView {
        match self {
            EmbedTask::AddFact { fact, user_id } => EmbedTaskView::AddFact { fact: fact@, user_id: user_id@ },
            EmbedTask::Search { query, user_id, limit } => EmbedTaskView::Search {
                query: query@,
                user_id: user_id@,
                limit: *limit,
            },
        }
    }
}

/// The text an [`EmbedTask`] needs embedded.
pub open spec fn embed_text(t: EmbedTaskView) -> Seq<char> {
    match t {
        EmbedTaskView::AddFact { fact, .. } => fact,
        EmbedTaskView::Search { query, .. } => query,
    }
}

impl EmbedTask {
    /// The text to embed: the fact to add, or the query.
    pub fn text(&self) -> (t: &str)
        ensures
            t@ == embed_text(self@),
    {
        match self {
            EmbedTask::AddFact { fact, .. } => fact.as_str(),
            EmbedTask::Search { query, .. } => query.as_str(),
        }
    }
}

/// A search that waits for the scores of its candidates: the user's facts
/// when the query was embedded.
pub struct ScoreTask {
    query: String,
    limit: u64,
    candidates: Vec<MemoryRecord>,
}

/// The content of a [`ScoreTask`].
pub struct ScoreTaskView {
    pub query: Seq<char>,
    pub limit: u64,
    pub candidates: Seq<RecordView>,
}

impl View for ScoreTask {
    type V = ScoreTaskView;

    closed spec fn view(&self) -> ScoreTaskView {
        ScoreTaskView {
            query: self.query@,
            limit: self.limit,
            candidates: record_views(self.candidates@),
        }
    }
}

impl ScoreTask {
    /// The records to score against the query, in store order.
    pub fn candidates(&self) -> (rs: &Vec<MemoryRecord>)
        ensures
            record_views(rs@) == self@.candidates,
    {
        &self.candidates
    }
}

/// The next step of a tool call.
pub enum ToolStep {
    /// The call is over.
    Finish(ToolOutcome),
    /// Embed the task's text, then go on with [`after_embedding`].
    Embed(EmbedTask),
    /// Score the task's candidates against the query's embedding, then go on
    /// with [`after_scoring`].
    Score(ScoreTask),
    /// Save the store, then go on with [`after_save`] and this result.
    Save(JsonValue),
}

/// The content of a [`ToolStep`].
pub enum ToolStepView {
    Finish(ToolOutcomeView),
    Embed(EmbedTaskView),
    Score(ScoreTaskView),
    Save(Json),
}

impl View for ToolStep {
    type V = ToolStepView;

    open spec fn view(&self) -> ToolStepView {
        match self {
            ToolStep::Finish(o) => ToolStepView::Finish(o@),
            ToolStep::Embed(t) => ToolStepView::Embed(t@),
            ToolStep::Score(t) => ToolStepView::Score(t@),
            ToolStep::Save(v) => ToolStepView::Save(v@),
        }
    }
}

/// Starts a tool call on the loaded store.
pub fn begin_tool(db: &mut Database, call: &ToolCall) -> (step: ToolStep)
    ensures
        final(db).path == old(db).path,
        match call@ {
            ToolCallView::AddFact { fact, user_id } => step@ == ToolStepView::Embed(
                EmbedTaskView::AddFact { fact, user_id },
            ) && final(db).contents() == old(db).contents(),
            ToolCallView::SearchFacts { query, user_id, limit } => step@ == ToolStepView::Embed(
                EmbedTaskView::Search { query, user_id, limit },
            ) && final(db).contents() == old(db).contents(),
            ToolCallView::GetAllFacts { user_id } => step@ == ToolStepView::Finish(
                ToolOutcomeView::Success(list_payload(old(db).contents().filter(owned_by(user_id)))),
            ) && final(db).contents() == old(db).contents(),
            ToolCallView::DeleteFact { fact_id } => final(db).contents() == old(db).contents().filter(
                id_is_not(fact_id),
            ) && step@ == if has_id(old(db).contents(), fact_id) {
                ToolStepView::Save(delete_payload(true, fact_id))
            } else {
                ToolStepView::Finish(ToolOutcomeView::Success(delete_payload(false, fact_id)))
            },
            ToolCallView::DeleteAllFacts { user_id } => final(db).contents() == old(db).contents().filter(
                not_owned_by(user_id),
            ) && step@ == ToolStepView::Save(clear_payload(user_id)),
            ToolCallView::Unsupported { name } => step@ == ToolStepView::Finish(
                ToolOutcomeView::Failure(unsupported_message(name)),
            ) && final(db).contents() == old(db).contents(),
        },
{
    match call {
        ToolCall::AddFact { fact, user_id } => ToolStep::Embed(
            EmbedTask::AddFact { fact: fact.clone(), user_id: user_id.clone() },
        ),
        ToolCall::SearchFacts { query, user_id, limit } => ToolStep::Embed(
            EmbedTask::Search { query: query.clone(), user_id: user_id.clone(), limit: *limit },
        ),
        ToolCall::GetAllFacts { user_id } => {
            let facts = db.facts_for_user(user_id.as_str());
            ToolStep::Finish(ToolOutcome::Success(list_response(&facts)))
        },
        ToolCall::DeleteFact { fact_id } => {
            let removed = db.delete_fact(fact_id.as_str());
            let payload = delete_response(removed, fact_id.as_str());
            if removed {
                ToolStep::Save(payload)
            } else {
                ToolStep::Finish(ToolOutcome::Success(payload))
            }
        },
        ToolCall::DeleteAllFacts { user_id } => {
            db.clear_user(user_id.as_str());
            ToolStep::Save(clear_response(user_id.as_str()))
        },
        ToolCall::Unsupported { name } => {
            let m = concat("Tool '", name.as_str());
            let m = concat(m.as_str(), "' is not supported");
            ToolStep::Finish(ToolOutcome::Failure(m))
        },
    }
}

/// Goes on with an addition or a search once its text is embedded (the
/// vector as `f32` bit patterns) or embedding failed (the error's text).
pub fn after_embedding(db: &mut Database, task: EmbedTask, embedding: Result<Vec<u32>, String>) -> (step: ToolStep)
    ensures
        final(db).path == old(db).path,
        match embedding {
            Err(e) => step@ == ToolStepView::Finish(ToolOutcomeView::Failure(embedding_failed_message(e@)))
                && final(db).contents() == old(db).contents(),
            Ok(vector) => match task@ {
                EmbedTaskView::AddFact { fact, user_id } => exists|id: Seq<char>|
                    #![trigger is_memory_id(id)]
                    is_memory_id(id) && final(db).contents() == old(db).contents().push(
                        RecordView { id, text: fact, vector: vector@, user_id },
                    ) && step@ == ToolStepView::Save(add_payload(id, fact)),
                EmbedTaskView::Search { query, user_id, limit } => step@ == ToolStepView::Score(ScoreTaskView {
                    query,
                    limit,
                    candidates: old(db).contents().filter(owned_by(user_id)),
                }) && final(db).contents() == old(db).contents(),
            },
        },
{
    match embedding {
        Err(e) => ToolStep::Finish(ToolOutcome::Failure(concat("Failed to generate embedding: ", e.as_str()))),
        Ok(vector) => match task {
            EmbedTask::AddFact { fact, user_id } => {
                let id = db.add_fact(fact.clone(), vector, user_id);
                let payload = add_response(id.as_str(), fact.as_str());
                assert(is_memory_id(id@));
                ToolStep::Save(payload)
            },
            EmbedTask::Search { query, user_id, limit } => {
                let candidates = db.facts_for_user(user_id.as_str());
                ToolStep::Score(ScoreTask { query, limit, candidates })
            },
        },
    }
}

/// Ends a search once its candidates are scored (`scores[i]` the bit
/// pattern of the `f64` similarity of candidate `i`): the `limit` best hits,
/// best first.
pub fn after_scoring(task: ScoreTask, scores: &Vec<u64>) -> (outcome: ToolOutcome)
    ensures
        outcome@ == ToolOutcomeView::Success(
            search_payload(task@.query, ranking(zip_hits(task@.candidates, scores@), task@.limit as nat)),
        ),
{
    let hits = pair_scores(&task.candidates, scores);
    let ranked = rank_hits(&hits, task.limit);
    ToolOutcome::Success(search_response(task.query.as_str(), &ranked))
}

/// Ends a change once saving succeeded (the result is sent) or failed.
pub fn after_save(payload: JsonValue, saved: Result<(), String>) -> (outcome: ToolOutcome)
    ensures
        outcome@ == match saved {
            Ok(_) => ToolOutcomeView::Success(payload@),
            Err(e) => ToolOutcomeView::Failure(save_failed_message(e@)),
        },
{
    match saved {
        Ok(_) => ToolOutcome::Success(payload),
        Err(e) => ToolOutcome::Failure(concat("Database save error: ", e.as_str())),
    }
}

} // verus!
