//! The web dashboard's request handling: which page or API a request
//! reaches, and what each API answers.
use vstd::prelude::*;
use crate::ids::is_memory_id;
use crate::json::{json_as_u64, json_get, jstr, str_or, text_or, u64_or, Json, JsonValue};
use crate::payload::{
    add_payload, add_response, clear_payload, clear_response, delete_payload, delete_response, jobj,
    list_payload, list_response, search_payload, search_response, status_message,
};
use crate::query::{parse_query_param, query_param};
use crate::ranking::{
    is_scored_candidate, lemma_search_ranks_candidates, pair_scores, rank_hits, ranking, zip_hits,
};
use crate::record::{record_views, MemoryRecord, RecordView};
use crate::store::{has_id, id_is_not, not_owned_by, owned_by, Database};
use crate::text::{has_prefix, same_text, starts_with};

verus! {

/// The user the dashboard falls back on when a request names none: the
/// same `default` user as the command line and the tool protocol.
pub open spec fn dashboard_user() -> Seq<char> {
    "default"@
}

/// Where a dashboard request goes.
pub enum Route {
    /// The dashboard page itself.
    Page,
    /// `GET /api/facts?user_id=..`: the user's facts.
    ListFacts { user_id: String },
    /// `POST /api/facts`: add the fact in the body.
    AddFact,
    /// `POST /api/search`: search with the query in the body.
    Search,
    /// `POST /api/facts/clear?user_id=..`: clear the user's facts.
    ClearUser { user_id: String },
    /// `DELETE /api/facts?id=..`: delete one fact.
    DeleteFact { id: String },
    /// Anything else: 404.
    NotFound,
}

/// The content of a [`Route`].
pub enum RouteView {
    Page,
    ListFacts { user_id: Seq<char> },
    AddFact,
    Search,
    ClearUser { user_id: Seq<char> },
    DeleteFact { id: Seq<char> },
    NotFound,
}

impl View for Route {
    type V = RouteView;

    open spec fn view(&self) -> RouteView {
        match self {
            Route::Page => RouteView::Page,
            Route::ListFacts { user_id } => RouteView::ListFacts { user_id: user_id@ },
            Route::AddFact => RouteView::AddFact,
            Route::Search => RouteView::Search,
            Route::ClearUser { user_id } => RouteView::ClearUser { user_id: user_id@ },
            Route::DeleteFact { id } => RouteView::DeleteFact { id: id@ },
            Route::NotFound => RouteView::NotFound,
        }
    }
}

/// A query parameter of `url`, or `default` when it is missing.
pub open spec fn param_or(url: Seq<char>, name: Seq<char>, default: Seq<char>) -> Seq<char> {
    match query_param(url, name) {
        Some(v) => v,
        None => default,
    }
}

/// The route of a request, by its method and target, tried in this order:
/// the page, listing, adding, searching, clearing, deleting.
pub open spec fn route_of(method: Seq<char>, url: Seq<char>) -> RouteView {
    if method == "GET"@ && (url == "/"@ || url == "/index.html"@) {
        RouteView::Page
    } else if method == "GET"@ && has_prefix(url, "/api/facts"@) {
        RouteView::ListFacts { user_id: param_or(url, "user_id"@, dashboard_user()) }
    } else if method == "POST"@ && url == "/api/facts"@ {
        RouteView::AddFact
    } else if method == "POST"@ && url == "/api/search"@ {
        RouteView::Search
    } else if method == "POST"@ && has_prefix(url, "/api/facts/clear"@) {
        RouteView::ClearUser { user_id: param_or(url, "user_id"@, dashboard_user()) }
    } else if method == "DELETE"@ && has_prefix(url, "/api/facts"@) {
        RouteView::DeleteFact { id: param_or(url, "id"@, ""@) }
    } else {
        RouteView::NotFound
    }
}

/// The dashboard's listing reads the user from the request's `user_id`
/// query parameter, and falls back on `default` only when there is none.
pub proof fn lemma_listing_reads_user_param(url: Seq<char>)
    requires
        has_prefix(url, "/api/facts"@),
    ensures
        route_of("GET"@, url) == (RouteView::ListFacts {
            user_id: match query_param(url, "user_id"@) {
                Some(u) => u,
                None => "default"@,
            },
        }),
{
    reveal_strlit("/");
    reveal_strlit("/index.html");
    reveal_strlit("/api/facts");
    assert(url[1] == "/api/facts"@[1]);
    assert(url != "/"@);
    assert(url != "/index.html"@);
}

/// Clearing from the dashboard clears the user named by the request's
/// `user_id` query parameter, and `default` only when there is none.
pub proof fn lemma_clear_reads_user_param(url: Seq<char>)
    requires
        has_prefix(url, "/api/facts/clear"@),
    ensures
        route_of("POST"@, url) == (RouteView::ClearUser {
            user_id: match query_param(url, "user_id"@) {
                Some(u) => u,
                None => "default"@,
            },
        }),
{
    reveal_strlit("GET");
    reveal_strlit("POST");
    reveal_strlit("/api/facts");
    reveal_strlit("/api/search");
    reveal_strlit("/api/facts/clear");
    assert("GET"@[0] != "POST"@[0]);
    assert(url.len() >= 16);
    assert(url.subrange(0, 16)[5] == "/api/facts/clear"@[5]);
    assert(url[5] == 'f');
    assert(url != "/api/facts"@);
    assert(url != "/api/search"@);
}

/// Deleting from the dashboard deletes the fact named by the request's `id`
/// query parameter (the empty identifier when there is none).
pub proof fn lemma_delete_reads_id_param(url: Seq<char>)
    requires
        has_prefix(url, "/api/facts"@),
    ensures
        route_of("DELETE"@, url) == (RouteView::DeleteFact {
            id: match query_param(url, "id"@) {
                Some(i) => i,
                None => ""@,
            },
        }),
{
    reveal_strlit("GET");
    reveal_strlit("POST");
    reveal_strlit("DELETE");
    assert("DELETE"@[0] != "GET"@[0]);
    assert("DELETE"@[0] != "POST"@[0]);
}

fn param_or_default(url: &str, name: &str, default: &str) -> (s: String)
    ensures
        s@ == param_or(url@, name@, default@),
{
    match parse_query_param(url, name) {
        Some(v) => v,
        None => default.to_owned(),
    }
}

/// Routes a request.
pub fn route(method: &str, url: &str) -> (r: Route)
    ensures
        r@ == route_of(method@, url@),
{
    let get = same_text(method, "GET");
    let post = same_text(method, "POST");
    if get && (same_text(url, "/") || same_text(url, "/index.html")) {
        Route::Page
    } else if get && starts_with(url, "/api/facts") {
        Route::ListFacts { user_id: param_or_default(url, "user_id", "default") }
    } else if post && same_text(url, "/api/facts") {
        Route::AddFact
    } else if post && same_text(url, "/api/search") {
        Route::Search
    } else if post && starts_with(url, "/api/facts/clear") {
        Route::ClearUser { user_id: param_or_default(url, "user_id", "default") }
    } else if same_text(method, "DELETE") && starts_with(url, "/api/facts") {
        Route::DeleteFact { id: param_or_default(url, "id", "") }
    } else {
        Route::NotFound
    }
}

/// An API answer: HTTP status, JSON body, and whether the store must be
/// saved before answering (a failed save is not reported).
pub struct ApiReply {
    pub status: u16,
    pub body: JsonValue,
    pub save: bool,
}

/// `{"status": "error", "message": <message>}`.
pub open spec fn error_payload(message: Seq<char>) -> Json {
    jobj(seq![("status"@, jstr("error"@)), ("message"@, jstr(message))])
}

/// A 400 answer with an error message, saving nothing.
fn bad_request(message: &str) -> (r: ApiReply)
    ensures
        r.status == 400,
        r.body@ == error_payload(message@),
        !r.save,
{
    ApiReply { status: 400, body: status_message("error", message.to_owned()), save: false }
}

/// An added fact as the dashboard reads it from a request body.
pub struct AddRequest {
    pub fact: String,
    pub user_id: String,
}

/// What an add request's body asks for: its `fact` (which must not be
/// empty) and `user_id` (`default` when missing); an unparsable body or an
/// empty fact is answered 400 `Invalid data`.
pub fn read_add_body(body: Option<JsonValue>) -> (r: Result<AddRequest, ApiReply>)
    ensures
        match body {
            None => r matches Err(e) && e.status == 400 && e.body@ == error_payload("Invalid data"@) && !e.save,
            Some(j) => {
                let fact = str_or(json_get(j@, "fact"@), ""@);
                if fact.len() == 0 {
                    r matches Err(e) && e.status == 400 && e.body@ == error_payload("Invalid data"@) && !e.save
                } else {
                    r matches Ok(a) && a.fact@ == fact && a.user_id@ == str_or(json_get(j@, "user_id"@), dashboard_user())
                }
            },
        },
{
    match body {
        None => Err(bad_request("Invalid data")),
        Some(j) => {
            let fact = text_or(j.get("fact"), "");
            let user_id = text_or(j.get("user_id"), "default");
            if fact.as_str().is_empty() {
                Err(bad_request("Invalid data"))
            } else {
                Ok(AddRequest { fact, user_id })
            }
        },
    }
}

/// Answers an add request once its fact is embedded (`None` when embedding
/// failed): the fact is stored under a fresh identifier and the store saved,
/// or the request is answered 400 `Invalid data`.
pub fn add_reply(db: &mut Database, req: AddRequest, embedding: Option<Vec<u32>>) -> (r: ApiReply)
    ensures
        final(db).path == old(db).path,
        match embedding {
            None => r.status == 400 && r.body@ == error_payload("Invalid data"@) && !r.save
                && final(db).contents() == old(db).contents(),
            Some(v) => exists|id: Seq<char>|
                #![trigger is_memory_id(id)]
                is_memory_id(id) && final(db).contents() == old(db).contents().push(
                    RecordView { id, text: req.fact@, vector: v@, user_id: req.user_id@ },
                ) && r.status == 200 && r.body@ == add_payload(id, req.fact@) && r.save,
        },
{
    match embedding {
        None => bad_request("Invalid data"),
        Some(v) => {
            let fact = req.fact;
            let id = db.add_fact(fact.clone(), v, req.user_id);
            let body = add_response(id.as_str(), fact.as_str());
            assert(is_memory_id(id@));
            ApiReply { status: 200, body, save: true }
        },
    }
}

/// A search as the dashboard reads it from a request body.
pub struct SearchRequest {
    pub query: String,
    pub user_id: String,
    pub limit: u64,
}

/// What a search request's body asks for: its `query` (which must not be
/// empty), `user_id` (`default` when missing) and `limit` (10 when missing);
/// an unparsable body or an empty query is answered 400 `Invalid query`.
pub fn read_search_body(body: Option<JsonValue>) -> (r: Result<SearchRequest, ApiReply>)
    ensures
        match body {
            None => r matches Err(e) && e.status == 400 && e.body@ == error_payload("Invalid query"@) && !e.save,
            Some(j) => {
                let query = str_or(json_get(j@, "query"@), ""@);
                if query.len() == 0 {
                    r matches Err(e) && e.status == 400 && e.body@ == error_payload("Invalid query"@) && !e.save
                } else {
                    r matches Ok(s) && s.query@ == query && s.user_id@ == str_or(json_get(j@, "user_id"@), dashboard_user())
                        && s.limit == match json_as_u64(json_get(j@, "limit"@)) {
                            Some(n) => n,
                            None => 10,
                        }
                }
            },
        },
{
    match body {
        None => Err(bad_request("Invalid query")),
        Some(j) => {
            let query = text_or(j.get("query"), "");
            let user_id = text_or(j.get("user_id"), "default");
            let limit = u64_or(j.get("limit"), 10);
            if query.as_str().is_empty() {
                Err(bad_request("Invalid query"))
            } else {
                Ok(SearchRequest { query, user_id, limit })
            }
        },
    }
}

/// Answers a search once the user's facts are scored against the query:
/// `scores[i]` is the bit pattern of the `f64` similarity of the user's
/// `i`-th fact, in store order, or `None` when the query could not be
/// embedded. The best `limit` hits, or 400 `Invalid query`.
pub fn search_reply(db: &Database, req: &SearchRequest, scores: Option<Vec<u64>>) -> (r: ApiReply)
    ensures
        !r.save,
        match scores {
            None => r.status == 400 && r.body@ == error_payload("Invalid query"@),
            Some(sc) => r.status == 200 && r.body@ == search_payload(
                req.query@,
                ranking(zip_hits(db.contents().filter(owned_by(req.user_id@)), sc@), req.limit as nat),
            ),
        },
{
    match scores {
        None => bad_request("Invalid query"),
        Some(sc) => {
            let candidates = db.facts_for_user(req.user_id.as_str());
            let hits = pair_scores(&candidates, &sc);
            let ranked = rank_hits(&hits, req.limit);
            ApiReply { status: 200, body: search_response(req.query.as_str(), &ranked), save: false }
        },
    }
}

/// A search answers with the user's own facts only: every hit of the
/// ranking it sends is a stored record of that user, with the score given
/// for it.
pub proof fn lemma_search_answers_users_facts(
    records: Seq<RecordView>,
    user_id: Seq<char>,
    scores: Seq<u64>,
    limit: nat,
)
    requires
        records.len() <= usize::MAX,
    ensures
        forall|k: int|
            0 <= k < ranking(zip_hits(records.filter(owned_by(user_id)), scores), limit).len() ==> {
                let h = #[trigger] ranking(zip_hits(records.filter(owned_by(user_id)), scores), limit)[k];
                &&& h.record.user_id == user_id
                &&& records.contains(h.record)
                &&& is_scored_candidate(records.filter(owned_by(user_id)), scores, h)
            },
{
    let cands = records.filter(owned_by(user_id));
    let r = ranking(zip_hits(cands, scores), limit);
    records.filter_lemma(owned_by(user_id));
    lemma_search_ranks_candidates(cands, scores, limit);
    assert forall|k: int| 0 <= k < r.len() implies #[trigger] r[k].record.user_id == user_id
        && records.contains(r[k].record) by {
        assert(is_scored_candidate(cands, scores, r[k]));
        let i = choose|i: int|
            0 <= i < cands.len() && 0 <= i < scores.len() && r[k].record == #[trigger] cands[i]
                && r[k].score_bits == scores[i];
        assert(owned_by(user_id)(cands[i]));
        assert(cands.contains(cands[i]));
        records.lemma_filter_contains_rev(owned_by(user_id), cands[i]);
    }
}

/// Answers a listing with the user's facts.
pub fn list_reply(db: &Database, user_id: &str) -> (r: ApiReply)
    ensures
        r.status == 200,
        r.body@ == list_payload(db.contents().filter(owned_by(user_id@))),
        !r.save,
{
    let facts = db.facts_for_user(user_id);
    ApiReply { status: 200, body: list_response(&facts), save: false }
}

/// Clears the user's facts; the store is saved.
pub fn clear_reply(db: &mut Database, user_id: &str) -> (r: ApiReply)
    ensures
        final(db).path == old(db).path,
        final(db).contents() == old(db).contents().filter(not_owned_by(user_id@)),
        r.status == 200,
        r.body@ == clear_payload(user_id@),
        r.save,
{
    db.clear_user(user_id);
    ApiReply { status: 200, body: clear_response(user_id), save: true }
}

/// Deletes a fact; the store is saved only when something was deleted.
pub fn delete_reply(db: &mut Database, id: &str) -> (r: ApiReply)
    ensures
        final(db).path == old(db).path,
        final(db).contents() == old(db).contents().filter(id_is_not(id@)),
        r.status == 200,
        r.body@ == delete_payload(has_id(old(db).contents(), id@), id@),
        r.save == has_id(old(db).contents(), id@),
{
    let removed = db.delete_fact(id);
    ApiReply { status: 200, body: delete_response(removed, id), save: removed }
}


/// A change the dashboard makes to the store.
pub enum StoreChange {
    Add(RecordView),
    Clear(Seq<char>),
    Delete(Seq<char>),
}

/// The records after one change.
pub open spec fn apply_change(s: Seq<RecordView>, c: StoreChange) -> Seq<RecordView> {
    match c {
        StoreChange::Add(r) => s.push(r),
        StoreChange::Clear(user) => s.filter(not_owned_by(user)),
        StoreChange::Delete(id) => s.filter(id_is_not(id)),
    }
}

/// The records after a sequence of changes, in order.
pub open spec fn replay(s: Seq<RecordView>, cs: Seq<StoreChange>) -> Seq<RecordView>
    decreases cs.len(),
{
    if cs.len() == 0 {
        s
    } else {
        apply_change(replay(s, cs.drop_last()), cs.last())
    }
}

/// The dashboard's store over one run: loaded once at the start, then
/// changed by the requests in turn; it records the records it started with
/// and the changes made since.
pub struct DashboardServer {
    db: Database,
    start: Ghost<Seq<RecordView>>,
    changes: Ghost<Seq<StoreChange>>,
}

impl DashboardServer {
    /// The current records.
    pub closed spec fn records(&self) -> Seq<RecordView> {
        self.db.contents()
    }

    /// Where the store is saved.
    pub closed spec fn path(&self) -> std::path::PathBuf {
        self.db.path
    }

    /// The records loaded at the start.
    pub closed spec fn start(&self) -> Seq<RecordView> {
        self.start@
    }

    /// The changes made since the start, in order.
    pub closed spec fn changes(&self) -> Seq<StoreChange> {
        self.changes@
    }

    /// The server's invariant: the current records are the start's records
    /// with the changes applied in order.
    pub closed spec fn wf(&self) -> bool {
        self.db.contents() == replay(self.start@, self.changes@)
    }

    /// A server over the store loaded at the start.
    pub fn new(db: Database) -> (s: DashboardServer)
        ensures
            s.wf(),
            s.path() == db.path,
            s.records() == db.contents(),
            s.start() == db.contents(),
            s.changes() == Seq::<StoreChange>::empty(),
    {
        let ghost c = db.contents();
        DashboardServer { db, start: Ghost(c), changes: Ghost(Seq::empty()) }
    }

    /// The store, to be saved.
    pub fn database(&self) -> (d: &Database)
        ensures
            d.path == self.path(),
            d.contents() == self.records(),
    {
        &self.db
    }

    /// Answers a listing from the current records.
    pub fn list(&self, user_id: &str) -> (r: ApiReply)
        ensures
            r.status == 200,
            r.body@ == list_payload(self.records().filter(owned_by(user_id@))),
            !r.save,
    {
        list_reply(&self.db, user_id)
    }

    /// The current records of a user, in store order: what a search scores.
    pub fn candidates(&self, user_id: &str) -> (rs: Vec<MemoryRecord>)
        ensures
            record_views(rs@) == self.records().filter(owned_by(user_id@)),
    {
        self.db.facts_for_user(user_id)
    }

    /// Answers a search over the current records (see [`search_reply`]).
    pub fn search(&self, req: &SearchRequest, scores: Option<Vec<u64>>) -> (r: ApiReply)
        ensures
            !r.save,
            match scores {
                None => r.status == 400 && r.body@ == error_payload("Invalid query"@),
                Some(sc) => r.status == 200 && r.body@ == search_payload(
                    req.query@,
                    ranking(zip_hits(self.records().filter(owned_by(req.user_id@)), sc@), req.limit as nat),
                ),
            },
    {
        search_reply(&self.db, req, scores)
    }

    /// Answers an add request once its fact is embedded (see [`add_reply`]).
    pub fn add(&mut self, req: AddRequest, embedding: Option<Vec<u32>>) -> (r: ApiReply)
        requires
            old(self).wf(),
        ensures
            final(self).wf(),
            final(self).start() == old(self).start(),
            final(self).path() == old(self).path(),
            match embedding {
                None => r.status == 400 && r.body@ == error_payload("Invalid data"@) && !r.save
                    && final(self).changes() == old(self).changes()
                    && final(self).records() == old(self).records(),
                Some(v) => exists|id: Seq<char>|
                    #![trigger is_memory_id(id)]
                    is_memory_id(id) && final(self).changes() == old(self).changes().push(
                        StoreChange::Add(RecordView { id, text: req.fact@, vector: v@, user_id: req.user_id@ }),
                    ) && final(self).records() == old(self).records().push(
                        RecordView { id, text: req.fact@, vector: v@, user_id: req.user_id@ },
                    ) && r.status == 200 && r.body@ == add_payload(id, req.fact@) && r.save,
            },
    {
        let ghost fact = req.fact@;
        let ghost user = req.user_id@;
        let ghost before = self.db.contents();
        let ghost emb = embedding;
        let r = add_reply(&mut self.db, req, embedding);
        proof {
            match emb {
                Some(v) => {
                    let id = choose|id: Seq<char>|
                        #![trigger is_memory_id(id)]
                        is_memory_id(id) && self.db.contents() == before.push(
                            RecordView { id, text: fact, vector: v@, user_id: user },
                        ) && r.status == 200 && r.body@ == add_payload(id, fact) && r.save;
                    let rv = RecordView { id, text: fact, vector: v@, user_id: user };
                    let cs = self.changes@.push(StoreChange::Add(rv));
                    assert(cs.drop_last() =~= self.changes@);
                    self.changes = Ghost(cs);
                    assert(is_memory_id(id));
                },
                None => {},
            }
        }
        r
    }

    /// Clears a user (see [`clear_reply`]).
    pub fn clear(&mut self, user_id: &str) -> (r: ApiReply)
        requires
            old(self).wf(),
        ensures
            final(self).wf(),
            final(self).start() == old(self).start(),
            final(self).path() == old(self).path(),
            final(self).changes() == old(self).changes().push(StoreChange::Clear(user_id@)),
            final(self).records() == old(self).records().filter(not_owned_by(user_id@)),
            r.status == 200,
            r.body@ == clear_payload(user_id@),
            r.save,
    {
        let r = clear_reply(&mut self.db, user_id);
        proof {
            let cs = self.changes@.push(StoreChange::Clear(user_id@));
            assert(cs.drop_last() =~= self.changes@);
            self.changes = Ghost(cs);
        }
        r
    }

    /// Deletes a fact (see [`delete_reply`]).
    pub fn delete(&mut self, id: &str) -> (r: ApiReply)
        requires
            old(self).wf(),
        ensures
            final(self).wf(),
            final(self).start() == old(self).start(),
            final(self).path() == old(self).path(),
            final(self).changes() == old(self).changes().push(StoreChange::Delete(id@)),
            final(self).records() == old(self).records().filter(id_is_not(id@)),
            r.status == 200,
            r.body@ == delete_payload(has_id(old(self).records(), id@), id@),
            r.save == has_id(old(self).records(), id@),
    {
        let r = delete_reply(&mut self.db, id);
        proof {
            let cs = self.changes@.push(StoreChange::Delete(id@));
            assert(cs.drop_last() =~= self.changes@);
            self.changes = Ghost(cs);
        }
        r
    }
}

/// Over a whole run of the dashboard: the records every answer is computed
/// from are the records loaded once at the start with the changes of the
/// earlier requests applied in order.
pub proof fn lemma_dashboard_replays_changes(s: DashboardServer)
    requires
        s.wf(),
    ensures
        s.records() == replay(s.start(), s.changes()),
{
}

} // verus!
