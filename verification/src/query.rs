use vstd::prelude::*;
use crate::text::{chars_equal, chars_of, split_chars, split_on, string_from_chars, views};

verus! {

/// The value of the first `name=value` pair among `pairs`: a pair counts
/// only when it holds exactly one `=`.
pub open spec fn find_param(pairs: Seq<Seq<char>>, name: Seq<char>) -> Option<Seq<char>>
    decreases pairs.len(),
{
    if pairs.len() == 0 {
        None
    } else {
        let kv = split_on(pairs[0], '=');
        if kv.len() == 2 && kv[0] == name {
            Some(kv[1])
        } else {
            find_param(pairs.drop_first(), name)
        }
    }
}

/// The value of query parameter `name` in `url`: the query is the text
/// between the first `?` and the next `?` (or the end), its pairs are
/// separated by `&`.
pub open spec fn query_param(url: Seq<char>, name: Seq<char>) -> Option<Seq<char>> {
    let parts = split_on(url, '?');
    if parts.len() < 2 {
        None
    } else {
        find_param(split_on(parts[1], '&'), name)
    }
}

/// The contents of an optional string.
pub open spec fn opt_view(o: Option<String>) -> Option<Seq<char>> {
    match o {
        Some(s) => Some(s@),
        None => None,
    }
}

/// Reads query parameter `name` from the request target `url`
/// (such as `/api/facts?user_id=bob`).
pub fn parse_query_param(url: &str, name: &str) -> (res: Option<String>)
    ensures
        opt_view(res) == query_param(url@, name@),
{
    let url_chars = chars_of(url);
    let parts = split_chars(&url_chars, '?');
    if parts.len() < 2 {
        return None;
    }
    let pairs = split_chars(&parts[1], '&');
    let name_chars = chars_of(name);
    let ghost all = views(pairs@);
    assert(all.skip(0) == all);
    for k in 0..pairs.len()
        invariant
            all == views(pairs@),
            parts@.len() >= 2,
            views(parts@) == split_on(url@, '?'),
            all == split_on(views(parts@)[1], '&'),
            name_chars@ == name@,
            find_param(all, name@) == find_param(all.skip(k as int), name@),
    {
        let kv = split_chars(&pairs[k], '=');
        let ghost rest = all.skip(k as int);
        assert(rest[0] == pairs@[k as int]@);
        assert(rest.drop_first() == all.skip(k + 1));
        assert(views(kv@) == split_on(rest[0], '='));
        if kv.len() == 2 && chars_equal(&kv[0], &name_chars) {
            assert(views(kv@)[0] == kv@[0]@ && views(kv@)[1] == kv@[1]@);
            return Some(string_from_chars(&kv[1]));
        }
    }
    None
}

} // verus!
