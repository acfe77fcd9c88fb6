use vstd::prelude::*;
use crate::ids::{is_memory_id, new_memory_id};
use crate::record::{record_views, MemoryRecord, RecordView};

verus! {

broadcast use Seq::lemma_filter_push;

/// `std::path::PathBuf`, held by the database as the location of its file.
#[verifier::external_type_specification]
#[verifier::external_body]
pub struct ExPathBuf(std::path::PathBuf);

/// The store of memories: where its file lies, and the records in the
/// order in which they were added.
pub struct Database {
    pub path: std::path::PathBuf,
    pub records: Vec<MemoryRecord>,
}

/// Records that belong to `user`.
pub open spec fn owned_by(user: Seq<char>) -> spec_fn(RecordView) -> bool {
    |r: RecordView| r.user_id == user
}

/// Records that belong to someone other than `user`.
pub open spec fn not_owned_by(user: Seq<char>) -> spec_fn(RecordView) -> bool {
    |r: RecordView| r.user_id != user
}

/// Records whose identifier is not `id`.
pub open spec fn id_is_not(id: Seq<char>) -> spec_fn(RecordView) -> bool {
    |r: RecordView| r.id != id
}

/// Whether some record has identifier `id`.
pub open spec fn has_id(rs: Seq<RecordView>, id: Seq<char>) -> bool {
    exists|i: int| 0 <= i < rs.len() && rs[i].id == id
}

impl Database {
    /// The contents of the store: its records, in order.
    pub open spec fn contents(&self) -> Seq<RecordView> {
        record_views(self.records@)
    }

    /// An empty store whose file lies at `path`.
    pub fn empty(path: std::path::PathBuf) -> (db: Database)
        ensures
            db.contents() == Seq::<RecordView>::empty(),
            db.path == path,
    {
        let db = Database { path, records: Vec::new() };
        assert(db.contents() =~= Seq::<RecordView>::empty());
        db
    }

    /// Copies of the records of `user`, in store order.
    pub fn facts_for_user(&self, user: &str) -> (res: Vec<MemoryRecord>)
        ensures
            record_views(res@) == self.contents().filter(owned_by(user@)),
    {
        let mut res: Vec<MemoryRecord> = Vec::new();
        let user_s = user.to_owned();
        let ghost all = self.contents();
        for i in 0..self.records.len()
            invariant
                all == self.contents(),
                user_s@ == user@,
                record_views(res@) == all.take(i as int).filter(owned_by(user@)),
        {
            let r = &self.records[i];
            let ghost before = record_views(res@);
            assert(all.take(i + 1) == all.take(i as int).push(r@));
            if r.user_id == user_s {
                res.push(r.duplicate());
                assert(record_views(res@) =~= before.push(r@));
            } else {
                assert(record_views(res@) =~= before);
            }
        }
        assert(all.take(self.records.len() as int) == all);
        res
    }

    /// Adds a fact for `user_id` under a fresh random identifier, which it
    /// returns.
    pub fn add_fact(&mut self, text: String, vector: Vec<u32>, user_id: String) -> (id: String)
        ensures
            is_memory_id(id@),
            final(self).contents() == old(self).contents().push(
                RecordView { id: id@, text: text@, vector: vector@, user_id: user_id@ },
            ),
            final(self).path == old(self).path,
    {
        let id = new_memory_id();
        let record = MemoryRecord::new(id.clone(), text, vector, user_id);
        let ghost before = self.contents();
        let ghost rv = record@;
        self.records.push(record);
        assert(self.contents() =~= before.push(rv));
        id
    }

    /// Removes the records with identifier `id`; tells whether any was there.
    pub fn delete_fact(&mut self, id: &str) -> (removed: bool)
        ensures
            final(self).contents() == old(self).contents().filter(id_is_not(id@)),
            removed == has_id(old(self).contents(), id@),
            final(self).path == old(self).path,
    {
        let ghost all = self.contents();
        let mut kept: Vec<MemoryRecord> = Vec::new();
        let mut removed = false;
        let id_s = id.to_owned();
        for i in 0..self.records.len()
            invariant
                all == self.contents(),
                record_views(kept@) == all.take(i as int).filter(id_is_not(id@)),
                removed == has_id(all.take(i as int), id@),
                id_s@ == id@,
        {
            let r = &self.records[i];
            let ghost before = record_views(kept@);
            let ghost prefix = all.take(i as int);
            assert(all.take(i + 1) == prefix.push(r@));
            if r.id == id_s {
                removed = true;
                assert(all.take(i + 1)[i as int].id == id@);
            } else {
                kept.push(r.duplicate());
                assert(record_views(kept@) =~= before.push(r@));
                proof {
                    let next = all.take(i + 1);
                    if has_id(next, id@) {
                        let j = choose|j: int| 0 <= j < next.len() && next[j].id == id@;
                        assert(j < i);
                        assert(prefix[j].id == id@);
                    }
                }
            }
        }
        assert(all.take(self.records.len() as int) == all);
        self.records = kept;
        removed
    }

    /// Removes every record of `user`.
    pub fn clear_user(&mut self, user: &str)
        ensures
            final(self).contents() == old(self).contents().filter(not_owned_by(user@)),
            final(self).path == old(self).path,
    {
        let ghost all = self.contents();
        let mut kept: Vec<MemoryRecord> = Vec::new();
        let user_s = user.to_owned();
        for i in 0..self.records.len()
            invariant
                all == self.contents(),
                user_s@ == user@,
                record_views(kept@) == all.take(i as int).filter(not_owned_by(user@)),
        {
            let r = &self.records[i];
            let ghost before = record_views(kept@);
            assert(all.take(i + 1) == all.take(i as int).push(r@));
            if r.user_id != user_s {
                kept.push(r.duplicate());
                assert(record_views(kept@) =~= before.push(r@));
            }
        }
        assert(all.take(self.records.len() as int) == all);
        self.records = kept;
    }
}


proof fn lemma_filter_all_kept(s: Seq<RecordView>, p: spec_fn(RecordView) -> bool)
    requires
        forall|i: int| 0 <= i < s.len() ==> p(#[trigger] s[i]),
    ensures
        s.filter(p) == s,
    decreases s.len(),
{
    reveal(Seq::filter);
    if s.len() > 0 {
        lemma_filter_all_kept(s.drop_last(), p);
        assert(s.drop_last().push(s.last()) == s);
    }
}

proof fn lemma_filter_none_kept(s: Seq<RecordView>, p: spec_fn(RecordView) -> bool)
    requires
        forall|i: int| 0 <= i < s.len() ==> !p(#[trigger] s[i]),
    ensures
        s.filter(p) == Seq::<RecordView>::empty(),
    decreases s.len(),
{
    reveal(Seq::filter);
    if s.len() > 0 {
        lemma_filter_none_kept(s.drop_last(), p);
    }
}

proof fn lemma_filter_commutes(s: Seq<RecordView>, p: spec_fn(RecordView) -> bool, q: spec_fn(RecordView) -> bool)
    ensures
        s.filter(p).filter(q) == s.filter(q).filter(p),
    decreases s.len(),
{
    reveal(Seq::filter);
    if s.len() > 0 {
        lemma_filter_commutes(s.drop_last(), p, q);
        assert(s.drop_last().push(s.last()) == s);
        s.drop_last().lemma_filter_push(s.last(), p);
        s.drop_last().lemma_filter_push(s.last(), q);
        s.drop_last().filter(p).lemma_filter_push(s.last(), q);
        s.drop_last().filter(q).lemma_filter_push(s.last(), p);
    }
}

proof fn lemma_filter_elements(s: Seq<RecordView>, p: spec_fn(RecordView) -> bool)
    ensures
        forall|i: int| 0 <= i < s.filter(p).len() ==> p(#[trigger] s.filter(p)[i]),
{
    assert forall|i: int| 0 <= i < s.filter(p).len() implies p(#[trigger] s.filter(p)[i]) by {
        s.lemma_filter_pred(p, i);
    }
}

/// Adding a fact for a user extends that user's list by the new record and
/// leaves the list of every other user as it was.
pub proof fn lemma_add_then_list(s: Seq<RecordView>, r: RecordView, user: Seq<char>)
    ensures
        s.push(r).filter(owned_by(user)) == (if r.user_id == user {
            s.filter(owned_by(user)).push(r)
        } else {
            s.filter(owned_by(user))
        }),
{
    s.lemma_filter_push(r, owned_by(user));
}

/// After a user's memories are cleared, listing that user gives nothing.
pub proof fn lemma_clear_then_list_empty(s: Seq<RecordView>, user: Seq<char>)
    ensures
        s.filter(not_owned_by(user)).filter(owned_by(user)) == Seq::<RecordView>::empty(),
{
    let c = s.filter(not_owned_by(user));
    lemma_filter_elements(s, not_owned_by(user));
    lemma_filter_none_kept(c, owned_by(user));
}

/// Clearing one user leaves the list of every other user unchanged.
pub proof fn lemma_clear_keeps_other_users(s: Seq<RecordView>, user: Seq<char>, other: Seq<char>)
    requires
        other != user,
    ensures
        s.filter(not_owned_by(user)).filter(owned_by(other)) == s.filter(owned_by(other)),
{
    lemma_filter_commutes(s, not_owned_by(user), owned_by(other));
    let o = s.filter(owned_by(other));
    lemma_filter_elements(s, owned_by(other));
    lemma_filter_all_kept(o, not_owned_by(user));
}

/// Clearing a user twice is the same as clearing once.
pub proof fn lemma_clear_idempotent(s: Seq<RecordView>, user: Seq<char>)
    ensures
        s.filter(not_owned_by(user)).filter(not_owned_by(user)) == s.filter(not_owned_by(user)),
{
    lemma_filter_elements(s, not_owned_by(user));
    lemma_filter_all_kept(s.filter(not_owned_by(user)), not_owned_by(user));
}

/// After deleting an identifier, no record carries it, and a second delete
/// of it finds nothing.
pub proof fn lemma_delete_removes(s: Seq<RecordView>, id: Seq<char>)
    ensures
        !has_id(s.filter(id_is_not(id)), id),
{
    lemma_filter_elements(s, id_is_not(id));
    let f = s.filter(id_is_not(id));
    if has_id(f, id) {
        let i = choose|i: int| 0 <= i < f.len() && f[i].id == id;
        assert(id_is_not(id)(f[i]));
    }
}

/// Deleting an identifier that no record carries leaves the store unchanged.
pub proof fn lemma_delete_missing_is_noop(s: Seq<RecordView>, id: Seq<char>)
    requires
        !has_id(s, id),
    ensures
        s.filter(id_is_not(id)) == s,
{
    assert forall|i: int| 0 <= i < s.len() implies id_is_not(id)(#[trigger] s[i]) by {
        if s[i].id == id {
            assert(has_id(s, id));
        }
    }
    lemma_filter_all_kept(s, id_is_not(id));
}

/// Deleting the identifier of a record just added, when no other record
/// carried it, gives back the store as it was before the addition.
pub proof fn lemma_add_then_delete(s: Seq<RecordView>, r: RecordView)
    requires
        !has_id(s, r.id),
    ensures
        s.push(r).filter(id_is_not(r.id)) == s,
{
    s.lemma_filter_push(r, id_is_not(r.id));
    lemma_delete_missing_is_noop(s, r.id);
}


/// A deletion finds the identifier exactly when it makes the store shorter.
pub proof fn lemma_delete_found_iff_shorter(s: Seq<RecordView>, id: Seq<char>)
    ensures
        has_id(s, id) <==> s.filter(id_is_not(id)).len() < s.len(),
    decreases s.len(),
{
    reveal(Seq::filter);
    if s.len() > 0 {
        let t = s.drop_last();
        let x = s.last();
        lemma_delete_found_iff_shorter(t, id);
        t.lemma_filter_len(id_is_not(id));
        assert(t.push(x) == s);
        if has_id(t, id) {
            let j = choose|j: int| 0 <= j < t.len() && t[j].id == id;
            assert(s[j].id == id);
        }
        if has_id(s, id) && x.id != id {
            let j = choose|j: int| 0 <= j < s.len() && s[j].id == id;
            assert(j < t.len() && t[j].id == id);
        }
        if x.id == id {
            assert(s[s.len() - 1].id == id);
        }
    }
}

} // verus!
