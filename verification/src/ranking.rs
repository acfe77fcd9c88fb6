use vstd::prelude::*;
use crate::record::{record_views, MemoryRecord, RecordView};

verus! {

/// The bit pattern of `-0.0` as an `f64`: only the sign bit set.
pub open spec fn neg_zero_bits() -> u64 {
    0x8000_0000_0000_0000u64
}

/// The ordering key of a similarity score given as the bit pattern of an
/// `f64`. For scores that are not NaN, a greater key means a greater score,
/// and `-0.0` and `0.0` get the same key, as `f64::partial_cmp` has them equal.
pub open spec fn score_key(bits: u64) -> u64 {
    if bits == neg_zero_bits() {
        neg_zero_bits()
    } else if bits > neg_zero_bits() {
        (0xFFFF_FFFF_FFFF_FFFFu64 - bits) as u64
    } else {
        (bits + neg_zero_bits()) as u64
    }
}

/// Computes [`score_key`].
pub fn score_order_key(bits: u64) -> (key: u64)
    ensures
        key == score_key(bits),
{
    if bits == 0x8000_0000_0000_0000u64 {
        0x8000_0000_0000_0000u64
    } else if bits > 0x8000_0000_0000_0000u64 {
        0xFFFF_FFFF_FFFF_FFFFu64 - bits
    } else {
        bits + 0x8000_0000_0000_0000u64
    }
}

/// The key order follows the order of IEEE-754 doubles that are not NaN:
/// among non-negative patterns a greater pattern is a greater number, among
/// negative ones a greater pattern is a smaller number, every negative number
/// is below every non-negative one, and the two zeros are equal.
pub proof fn lemma_score_key_order(a: u64, b: u64)
    ensures
        a < neg_zero_bits() && b < neg_zero_bits() ==> (a < b <==> score_key(a) < score_key(b)),
        a > neg_zero_bits() && b > neg_zero_bits() ==> (a < b <==> score_key(a) > score_key(b)),
        a > neg_zero_bits() && b <= neg_zero_bits() ==> score_key(a) < score_key(b),
        score_key(neg_zero_bits()) == score_key(0),
{
}

/// Whether item `i` comes before item `j` in the ranking: a greater key
/// first, and among equal keys the earlier item first.
pub open spec fn ranks_before(keys: Seq<u64>, i: int, j: int) -> bool {
    keys[i] > keys[j] || (keys[i] == keys[j] && i < j)
}

/// The number of items a ranking keeps: `limit`, or all when there are fewer.
pub open spec fn kept_count(n: nat, limit: nat) -> nat {
    if limit < n {
        limit
    } else {
        n
    }
}

/// Whether `sel` lists, best first, the `limit` best-ranked positions of
/// `keys`: what a stable sort by descending key followed by taking the
/// first `limit` items yields.
pub open spec fn is_top_ranked(keys: Seq<u64>, limit: nat, sel: Seq<usize>) -> bool {
    &&& sel.len() == kept_count(keys.len(), limit)
    &&& forall|k: int| 0 <= k < sel.len() ==> #[trigger] sel[k] < keys.len()
    &&& forall|a: int, b: int|
        0 <= a < b < sel.len() ==> ranks_before(keys, #[trigger] sel[a] as int, #[trigger] sel[b] as int)
    &&& forall|j: int, k: int|
        0 <= j < keys.len() && !sel.contains(j as usize) && 0 <= k < sel.len()
            ==> #[trigger] ranks_before(keys, sel[k] as int, j)
}

/// Whether `order` is sorted by the ranking and holds only positions below `i`.
pub open spec fn sorted_below(keys: Seq<u64>, order: Seq<usize>, i: int) -> bool {
    &&& forall|k: int| 0 <= k < order.len() ==> #[trigger] order[k] < i
    &&& forall|a: int, b: int|
        0 <= a < b < order.len() ==> ranks_before(keys, #[trigger] order[a] as int, #[trigger] order[b] as int)
}

proof fn lemma_sorted_keys_nonincreasing(keys: Seq<u64>, order: Seq<usize>, i: int, a: int, b: int)
    requires
        sorted_below(keys, order, i),
        i <= keys.len(),
        0 <= a <= b < order.len(),
    ensures
        keys[order[a] as int] >= keys[order[b] as int],
{
    if a < b {
        assert(ranks_before(keys, order[a] as int, order[b] as int));
    }
}

proof fn lemma_insert_keeps_sorted(keys: Seq<u64>, order: Seq<usize>, i: usize, p: int)
    requires
        i < keys.len(),
        sorted_below(keys, order, i as int),
        0 <= p <= order.len(),
        forall|q: int| 0 <= q < p ==> keys[#[trigger] order[q] as int] >= keys[i as int],
        p < order.len() ==> keys[i as int] > keys[order[p] as int],
    ensures
        sorted_below(keys, order.insert(p, i), i + 1),
{
    let n = order.insert(p, i);
    assert forall|k: int| 0 <= k < n.len() implies #[trigger] n[k] < i + 1 by {
        if k < p {
            assert(n[k] == order[k]);
        } else if k > p {
            assert(n[k] == order[k - 1]);
        }
    }
    assert forall|a: int, b: int| 0 <= a < b < n.len() implies ranks_before(keys, #[trigger] n[a] as int, #[trigger] n[b] as int) by {
        if b < p {
            assert(n[a] == order[a] && n[b] == order[b]);
        } else if b == p {
            assert(n[a] == order[a]);
            assert(order[a] < i);
        } else if a == p {
            assert(n[b] == order[b - 1]);
            lemma_sorted_keys_nonincreasing(keys, order, i as int, p, b - 1);
        } else if a < p {
            assert(n[a] == order[a] && n[b] == order[b - 1]);
        } else {
            assert(n[a] == order[a - 1] && n[b] == order[b - 1]);
        }
    }
}

/// The positions of the `limit` best-ranked keys, best first; among equal
/// keys the earlier position comes first.
pub fn rank_order(keys: &Vec<u64>, limit: u64) -> (sel: Vec<usize>)
    ensures
        is_top_ranked(keys@, limit as nat, sel@),
{
    let n = keys.len();
    let mut order: Vec<usize> = Vec::new();
    for i in 0..n
        invariant
            n == keys.len(),
            order.len() == i,
            sorted_below(keys@, order@, i as int),
            forall|j: int| 0 <= j < i ==> #[trigger] order@.contains(j as usize),
    {
        let mut p: usize = 0;
        while p < order.len() && keys[order[p]] >= keys[i]
            invariant
                n == keys.len(),
                i < n,
                order.len() == i,
                sorted_below(keys@, order@, i as int),
                p <= order.len(),
                forall|q: int| 0 <= q < p ==> keys@[#[trigger] order@[q] as int] >= keys@[i as int],
            decreases order.len() - p,
        {
            p = p + 1;
        }
        let ghost old_order = order@;
        proof {
            lemma_insert_keeps_sorted(keys@, old_order, i, p as int);
        }
        order.insert(p, i);
        assert(order@ == old_order.insert(p as int, i));
        assert forall|j: int| 0 <= j < i + 1 implies #[trigger] order@.contains(j as usize) by {
            if j == i {
                assert(order@[p as int] == i);
            } else {
                assert(old_order.contains(j as usize));
                let q = choose|q: int| 0 <= q < old_order.len() && old_order[q] == j as usize;
                if q < p {
                    assert(order@[q] == j as usize);
                } else {
                    assert(order@[q + 1] == j as usize);
                }
            }
        }
    }
    let m: usize = if limit < n as u64 { limit as usize } else { n };
    let mut sel: Vec<usize> = Vec::new();
    for k in 0..m
        invariant
            m <= n,
            n == keys.len(),
            order.len() == n,
            sel@ == order@.take(k as int),
    {
        sel.push(order[k]);
        assert(order@.take(k + 1) == order@.take(k as int).push(order@[k as int]));
    }
    assert forall|j: int, k: int|
        0 <= j < keys@.len() && !sel@.contains(j as usize) && 0 <= k < sel@.len()
            implies #[trigger] ranks_before(keys@, sel@[k] as int, j) by {
        assert(order@.contains(j as usize));
        let q = choose|q: int| 0 <= q < order@.len() && order@[q] == j as usize;
        if q < m {
            assert(sel@[q] == j as usize);
        }
        assert(sel@[k] == order@[k]);
    }
    assert forall|a: int, b: int| 0 <= a < b < sel@.len() implies ranks_before(keys@, #[trigger] sel@[a] as int, #[trigger] sel@[b] as int) by {
        assert(sel@[a] == order@[a] && sel@[b] == order@[b]);
    }
    sel
}


/// The first position from `p` on whose key is below `k`, or the length.
spec fn first_below(keys: Seq<u64>, order: Seq<usize>, k: u64, p: int) -> int
    decreases order.len() - p,
{
    if p >= order.len() || keys[order[p] as int] < k {
        p
    } else {
        first_below(keys, order, k, p + 1)
    }
}

proof fn lemma_first_below(keys: Seq<u64>, order: Seq<usize>, k: u64, p: int)
    requires
        0 <= p <= order.len(),
    ensures
        p <= first_below(keys, order, k, p) <= order.len(),
        forall|q: int| p <= q < first_below(keys, order, k, p) ==> keys[#[trigger] order[q] as int] >= k,
        first_below(keys, order, k, p) < order.len() ==> keys[order[first_below(keys, order, k, p)] as int] < k,
    decreases order.len() - p,
{
    if p < order.len() && keys[order[p] as int] >= k {
        lemma_first_below(keys, order, k, p + 1);
    }
}

/// The first `i` positions, sorted by the ranking: what inserting them one
/// by one yields.
proof fn lemma_sorted_order_exists(keys: Seq<u64>, i: nat) -> (order: Seq<usize>)
    requires
        i <= keys.len(),
        keys.len() <= usize::MAX,
    ensures
        order.len() == i,
        sorted_below(keys, order, i as int),
        forall|j: int| 0 <= j < i ==> #[trigger] order.contains(j as usize),
    decreases i,
{
    if i == 0 {
        Seq::empty()
    } else {
        let x = (i - 1) as usize;
        let prev = lemma_sorted_order_exists(keys, (i - 1) as nat);
        lemma_first_below(keys, prev, keys[x as int], 0);
        let p = first_below(keys, prev, keys[x as int], 0);
        lemma_insert_keeps_sorted(keys, prev, x, p);
        let order = prev.insert(p, x);
        assert forall|j: int| 0 <= j < i implies #[trigger] order.contains(j as usize) by {
            if j == x {
                assert(order[p] == x);
            } else {
                assert(prev.contains(j as usize));
                let q = choose|q: int| 0 <= q < prev.len() && prev[q] == j as usize;
                if q < p {
                    assert(order[q] == j as usize);
                } else {
                    assert(order[q + 1] == j as usize);
                }
            }
        }
        order
    }
}

/// Some selection lists the `limit` best-ranked positions of `keys`.
proof fn lemma_top_ranked_exists(keys: Seq<u64>, limit: nat) -> (sel: Seq<usize>)
    requires
        keys.len() <= usize::MAX,
    ensures
        is_top_ranked(keys, limit, sel),
{
    let n = keys.len();
    let order = lemma_sorted_order_exists(keys, n);
    let m = kept_count(n, limit);
    let sel = order.take(m as int);
    assert forall|j: int, k: int|
        0 <= j < keys.len() && !sel.contains(j as usize) && 0 <= k < sel.len()
            implies #[trigger] ranks_before(keys, sel[k] as int, j) by {
        assert(order.contains(j as usize));
        let q = choose|q: int| 0 <= q < order.len() && order[q] == j as usize;
        if q < m {
            assert(sel[q] == j as usize);
        }
        assert(sel[k] == order[k]);
    }
    assert forall|a: int, b: int| 0 <= a < b < sel.len() implies ranks_before(keys, #[trigger] sel[a] as int, #[trigger] sel[b] as int) by {
        assert(sel[a] == order[a] && sel[b] == order[b]);
    }
    assert forall|k: int| 0 <= k < sel.len() implies #[trigger] sel[k] < keys.len() by {
        assert(sel[k] == order[k]);
    }
    sel
}

proof fn lemma_top_ranked_agree_upto(keys: Seq<u64>, limit: nat, s1: Seq<usize>, s2: Seq<usize>, k: int)
    requires
        is_top_ranked(keys, limit, s1),
        is_top_ranked(keys, limit, s2),
        0 <= k < s1.len(),
    ensures
        forall|q: int| 0 <= q <= k ==> s1[q] == s2[q],
    decreases k,
{
    if k > 0 {
        lemma_top_ranked_agree_upto(keys, limit, s1, s2, k - 1);
    }
    let a = s1[k];
    let b = s2[k];
    if a != b {
        // In s2, `a` is either missing or listed after position k; either way b ranks before a.
        if s2.contains(a) {
            let p = choose|p: int| 0 <= p < s2.len() && s2[p] == a;
            if p < k {
                assert(s1[p] == a);
                assert(ranks_before(keys, s1[p] as int, s1[k] as int));
            } else {
                assert(ranks_before(keys, s2[k] as int, s2[p] as int));
            }
        } else {
            assert(ranks_before(keys, s2[k] as int, a as int));
        }
        assert(ranks_before(keys, b as int, a as int));
        // Symmetrically, a ranks before b.
        if s1.contains(b) {
            let p = choose|p: int| 0 <= p < s1.len() && s1[p] == b;
            if p < k {
                assert(s2[p] == b);
                assert(ranks_before(keys, s2[p] as int, s2[k] as int));
            } else {
                assert(ranks_before(keys, s1[k] as int, s1[p] as int));
            }
        } else {
            assert(ranks_before(keys, s1[k] as int, b as int));
        }
        assert(ranks_before(keys, a as int, b as int));
        assert(false);
    }
}

/// The ranking is determined: two selections that both list the `limit`
/// best-ranked positions are the same sequence.
pub proof fn lemma_top_ranked_unique(keys: Seq<u64>, limit: nat, s1: Seq<usize>, s2: Seq<usize>)
    requires
        is_top_ranked(keys, limit, s1),
        is_top_ranked(keys, limit, s2),
    ensures
        s1 == s2,
{
    if s1.len() > 0 {
        lemma_top_ranked_agree_upto(keys, limit, s1, s2, s1.len() - 1);
    }
    assert(s1 =~= s2);
}

/// A search hit: a record with its similarity to the query, given as the
/// bit pattern of the `f64` score.
pub struct SearchHit {
    pub score_bits: u64,
    pub record: MemoryRecord,
}

/// The contents of a [`SearchHit`].
pub struct HitView {
    pub score_bits: u64,
    pub record: RecordView,
}

impl View for SearchHit {
    type V = HitView;

    open spec fn view(&self) -> HitView {
        HitView { score_bits: self.score_bits, record: self.record@ }
    }
}

/// The contents of each hit of a sequence.
pub open spec fn hit_views(hs: Seq<SearchHit>) -> Seq<HitView> {
    hs.map_values(|h: SearchHit| h@)
}

/// The ordering keys of the hits' scores.
pub open spec fn hit_keys(hs: Seq<HitView>) -> Seq<u64> {
    hs.map_values(|h: HitView| score_key(h.score_bits))
}

/// Each record with the score at the same position, as far as both go.
pub open spec fn zip_hits(records: Seq<RecordView>, scores: Seq<u64>) -> Seq<HitView> {
    Seq::new(
        kept_count(records.len(), scores.len()),
        |i: int| HitView { score_bits: scores[i], record: records[i] },
    )
}

/// Pairs each record with the score at the same position: the hits a search
/// ranks once its candidates are scored.
pub fn pair_scores(records: &Vec<MemoryRecord>, scores: &Vec<u64>) -> (hits: Vec<SearchHit>)
    ensures
        hit_views(hits@) == zip_hits(record_views(records@), scores@),
{
    let ghost zipped = zip_hits(record_views(records@), scores@);
    let n: usize = if records.len() < scores.len() {
        records.len()
    } else {
        scores.len()
    };
    let mut hits: Vec<SearchHit> = Vec::new();
    for i in 0..n
        invariant
            n == kept_count(records@.len(), scores@.len()),
            zipped == zip_hits(record_views(records@), scores@),
            hit_views(hits@) == zipped.take(i as int),
    {
        let h = SearchHit { score_bits: scores[i], record: records[i].duplicate() };
        let ghost before = hit_views(hits@);
        hits.push(h);
        assert(hit_views(hits@) =~= before.push(zipped[i as int]));
        assert(zipped.take(i + 1) =~= zipped.take(i as int).push(zipped[i as int]));
    }
    assert(zipped.take(n as int) =~= zipped);
    hits
}

/// Whether `res` is what ranking `hits` keeps: the `limit` hits of highest
/// score, best first, ties kept in the order given.
pub open spec fn is_ranking_of(hits: Seq<HitView>, limit: nat, res: Seq<HitView>) -> bool {
    exists|sel: Seq<usize>|
        #![trigger is_top_ranked(hit_keys(hits), limit, sel)]
        is_top_ranked(hit_keys(hits), limit, sel)
            && res == sel.map_values(|i: usize| hits[i as int])
}

/// The ranking of `hits` keeping `limit` of them (see [`is_ranking_of`]).
pub open spec fn ranking(hits: Seq<HitView>, limit: nat) -> Seq<HitView> {
    choose|r: Seq<HitView>| is_ranking_of(hits, limit, r)
}

/// A ranking of given hits is unique.
pub proof fn lemma_ranking_unique(hits: Seq<HitView>, limit: nat, r1: Seq<HitView>, r2: Seq<HitView>)
    requires
        is_ranking_of(hits, limit, r1),
        is_ranking_of(hits, limit, r2),
    ensures
        r1 == r2,
{
    let s1 = choose|sel: Seq<usize>|
        #![trigger is_top_ranked(hit_keys(hits), limit, sel)]
        is_top_ranked(hit_keys(hits), limit, sel)
            && r1 == sel.map_values(|i: usize| hits[i as int]);
    let s2 = choose|sel: Seq<usize>|
        #![trigger is_top_ranked(hit_keys(hits), limit, sel)]
        is_top_ranked(hit_keys(hits), limit, sel)
            && r2 == sel.map_values(|i: usize| hits[i as int]);
    lemma_top_ranked_unique(hit_keys(hits), limit, s1, s2);
}

/// Every sequence of hits that fits in memory has its ranking.
pub proof fn lemma_ranking_exists(hits: Seq<HitView>, limit: nat)
    requires
        hits.len() <= usize::MAX,
    ensures
        is_ranking_of(hits, limit, ranking(hits, limit)),
{
    let sel = lemma_top_ranked_exists(hit_keys(hits), limit);
    assert(is_ranking_of(hits, limit, sel.map_values(|i: usize| hits[i as int])));
}

/// What every ranking of `hits` is: `limit` of them (all when there are
/// fewer), each one of the given hits, with scores that never
/// increase from one to the next.
pub proof fn lemma_ranking_properties(hits: Seq<HitView>, limit: nat, r: Seq<HitView>)
    requires
        is_ranking_of(hits, limit, r),
    ensures
        r.len() == kept_count(hits.len(), limit),
        forall|k: int| 0 <= k < r.len() ==> hits.contains(#[trigger] r[k]),
        forall|a: int, b: int|
            0 <= a < b < r.len() ==> score_key(#[trigger] r[a].score_bits) >= score_key(#[trigger] r[b].score_bits),
{
    let keys = hit_keys(hits);
    let sel = choose|sel: Seq<usize>|
        #![trigger is_top_ranked(hit_keys(hits), limit, sel)]
        is_top_ranked(hit_keys(hits), limit, sel)
            && r == sel.map_values(|i: usize| hits[i as int]);
    assert forall|k: int| 0 <= k < r.len() implies hits.contains(#[trigger] r[k]) by {
        assert(sel[k] < keys.len());
        assert(r[k] == hits[sel[k] as int]);
    }
    assert forall|a: int, b: int|
        0 <= a < b < r.len() implies score_key(#[trigger] r[a].score_bits) >= score_key(#[trigger] r[b].score_bits) by {
        assert(ranks_before(keys, sel[a] as int, sel[b] as int));
        assert(r[a] == hits[sel[a] as int] && r[b] == hits[sel[b] as int]);
    }
}

/// The `limit` hits of highest score, best first; hits with equal scores
/// keep the order in which they were given.
pub fn rank_hits(hits: &Vec<SearchHit>, limit: u64) -> (res: Vec<SearchHit>)
    ensures
        is_ranking_of(hit_views(hits@), limit as nat, hit_views(res@)),
        hit_views(res@) == ranking(hit_views(hits@), limit as nat),
{
    let ghost hv = hit_views(hits@);
    let mut keys: Vec<u64> = Vec::new();
    for i in 0..hits.len()
        invariant
            hv == hit_views(hits@),
            keys@ == hit_keys(hv).take(i as int),
    {
        let k = score_order_key(hits[i].score_bits);
        keys.push(k);
        assert(hit_keys(hv).take(i + 1) == hit_keys(hv).take(i as int).push(k));
    }
    assert(keys@ == hit_keys(hv));
    let sel = rank_order(&keys, limit);
    let mut res: Vec<SearchHit> = Vec::new();
    for k in 0..sel.len()
        invariant
            hv == hit_views(hits@),
            keys@ == hit_keys(hv),
            is_top_ranked(keys@, limit as nat, sel@),
            hit_views(res@) == sel@.take(k as int).map_values(|i: usize| hv[i as int]),
    {
        let i = sel[k];
        assert(i < keys@.len());
        let h = SearchHit { score_bits: hits[i].score_bits, record: hits[i].record.duplicate() };
        let ghost before = hit_views(res@);
        res.push(h);
        assert(hit_views(res@) =~= before.push(hv[i as int]));
        assert(sel@.take(k + 1).map_values(|i: usize| hv[i as int])
            =~= sel@.take(k as int).map_values(|i: usize| hv[i as int]).push(hv[i as int]));
    }
    assert(sel@.take(sel@.len() as int) == sel@);
    assert(is_top_ranked(hit_keys(hv), limit as nat, sel@));
    assert(is_ranking_of(hv, limit as nat, hit_views(res@)));
    proof {
        lemma_ranking_unique(hv, limit as nat, hit_views(res@), ranking(hv, limit as nat));
    }
    res
}


/// Whether `h` is one of the candidates together with the score given at
/// its position.
pub open spec fn is_scored_candidate(candidates: Seq<RecordView>, scores: Seq<u64>, h: HitView) -> bool {
    exists|i: int|
        0 <= i < candidates.len() && 0 <= i < scores.len() && h.record == #[trigger] candidates[i]
            && h.score_bits == scores[i]
}

/// What a search answers once its candidates are scored: `limit` hits (all
/// the scored candidates when there are fewer), best score first, each one
/// of the candidates together with the score given at its position.
pub proof fn lemma_search_ranks_candidates(candidates: Seq<RecordView>, scores: Seq<u64>, limit: nat)
    requires
        candidates.len() <= usize::MAX,
    ensures
        ranking(zip_hits(candidates, scores), limit).len()
            == kept_count(kept_count(candidates.len(), scores.len()), limit),
        forall|k: int|
            0 <= k < ranking(zip_hits(candidates, scores), limit).len() ==> is_scored_candidate(
                candidates,
                scores,
                #[trigger] ranking(zip_hits(candidates, scores), limit)[k],
            ),
        forall|a: int, b: int|
            0 <= a < b < ranking(zip_hits(candidates, scores), limit).len() ==> score_key(
                #[trigger] ranking(zip_hits(candidates, scores), limit)[a].score_bits,
            ) >= score_key(#[trigger] ranking(zip_hits(candidates, scores), limit)[b].score_bits),
{
    let z = zip_hits(candidates, scores);
    let r = ranking(z, limit);
    lemma_ranking_exists(z, limit);
    lemma_ranking_properties(z, limit, r);
    assert forall|k: int| 0 <= k < r.len() implies is_scored_candidate(candidates, scores, #[trigger] r[k]) by {
        assert(z.contains(r[k]));
        let i = choose|i: int| 0 <= i < z.len() && z[i] == r[k];
        assert(z[i] == (HitView { score_bits: scores[i], record: candidates[i] }));
        assert(r[k].record == candidates[i] && r[k].score_bits == scores[i]);
    }
}

} // verus!
