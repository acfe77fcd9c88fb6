use vstd::prelude::*;

verus! {

/// One stored memory: a fact about a user, with its embedding vector.
///
/// The vector's components are kept as the IEEE-754 bit patterns of the
/// model's `f32` values; the library never computes with them, it only keeps
/// them with the fact.
pub struct MemoryRecord {
    pub id: String,
    pub text: String,
    pub vector: Vec<u32>,
    pub user_id: String,
}

/// The mathematical content of a [`MemoryRecord`].
pub struct RecordView {
    pub id: Seq<char>,
    pub text: Seq<char>,
    pub vector: Seq<u32>,
    pub user_id: Seq<char>,
}

impl View for MemoryRecord {
    type V = RecordView;

    open spec fn view(&self) -> RecordView {
        RecordView {
            id: self.id@,
            text: self.text@,
            vector: self.vector@,
            user_id: self.user_id@,
        }
    }
}

/// The contents of each record of a sequence.
pub open spec fn record_views(rs: Seq<MemoryRecord>) -> Seq<RecordView> {
    rs.map_values(|r: MemoryRecord| r@)
}

impl MemoryRecord {
    /// A record made of the given parts.
    pub fn new(id: String, text: String, vector: Vec<u32>, user_id: String) -> (r: MemoryRecord)
        ensures
            r@ == (RecordView { id: id@, text: text@, vector: vector@, user_id: user_id@ }),
    {
        MemoryRecord { id, text, vector, user_id }
    }

    /// A copy of this record.
    pub fn duplicate(&self) -> (r: MemoryRecord)
        ensures
            r@ == self@,
    {
        MemoryRecord {
            id: self.id.clone(),
            text: self.text.clone(),
            vector: self.vector.clone(),
            user_id: self.user_id.clone(),
        }
    }
}

} // verus!
