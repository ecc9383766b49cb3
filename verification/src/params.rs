use vstd::prelude::*;

verus! {

/// Whether a query-parameter key belongs to the reserved set that is never
/// forwarded upstream: `url` routes the request, `_cb` and `_t` are
/// cache-busters.
pub open spec fn is_filtered_key(k: Seq<char>) -> bool {
    k == "url"@ || k == "_cb"@ || k == "_t"@
}

/// Exact-match test against the reserved parameter set.
pub fn is_filtered_param(k: &str) -> (r: bool)
    ensures
        r == is_filtered_key(k@),
{
    let ks = String::from_str(k);
    ks == String::from_str("url") || ks == String::from_str("_cb") || ks == String::from_str("_t")
}

/// The reserved parameter names, in a fixed order.
pub fn filtered_params() -> (r: Vec<String>)
    ensures
        r.deep_view() =~= seq!["url"@, "_cb"@, "_t"@],
{
    let mut out: Vec<String> = Vec::new();
    out.push(String::from_str("url"));
    out.push(String::from_str("_cb"));
    out.push(String::from_str("_t"));
    out
}

/// The pairs of `q` whose keys are not reserved, in their original order.
pub open spec fn keep_pairs(q: Seq<(Seq<char>, Seq<char>)>) -> Seq<(Seq<char>, Seq<char>)>
    decreases q.len(),
{
    if q.len() == 0 {
        Seq::empty()
    } else if is_filtered_key(q.last().0) {
        keep_pairs(q.drop_last())
    } else {
        keep_pairs(q.drop_last()).push(q.last())
    }
}

/// Drops every pair whose key is in the reserved set, keeping the rest in order.
pub fn filter_params(q: &Vec<(String, String)>) -> (r: Vec<(String, String)>)
    ensures
        r.deep_view() == keep_pairs(q.deep_view()),
{
    let mut out: Vec<(String, String)> = Vec::new();
    let mut i: usize = 0;
    proof {
        assert(q.deep_view().take(0) =~= Seq::<(Seq<char>, Seq<char>)>::empty());
    }
    while i < q.len()
        invariant
            i <= q.len(),
            q.deep_view().len() == q@.len(),
            out.deep_view() == keep_pairs(q.deep_view().take(i as int)),
        decreases q.len() - i,
    {
        let pair = &q[i];
        let ghost pre = out.deep_view();
        if !is_filtered_param(pair.0.as_str()) {
            out.push((pair.0.clone(), pair.1.clone()));
            proof {
                assert(out.deep_view() =~= pre.push(q.deep_view()[i as int]));
            }
        }
        proof {
            let full = q.deep_view();
            assert(full.take(i + 1).drop_last() =~= full.take(i as int));
            assert(full.take(i + 1).last() == full[i as int]);
        }
        i += 1;
    }
    proof {
        assert(q.deep_view().take(q@.len() as int) =~= q.deep_view());
    }
    out
}

/// No pair that survives the filter has a reserved key: the routing key and
/// the cache-busters never pass through, whatever the input.
pub proof fn lemma_keep_pairs_no_reserved(q: Seq<(Seq<char>, Seq<char>)>)
    ensures
        forall|i: int|
            0 <= i < keep_pairs(q).len() ==> !is_filtered_key(#[trigger] keep_pairs(q)[i].0),
    decreases q.len(),
{
    if q.len() > 0 {
        lemma_keep_pairs_no_reserved(q.drop_last());
        let rest = keep_pairs(q.drop_last());
        if !is_filtered_key(q.last().0) {
            assert forall|i: int|
                0 <= i < keep_pairs(q).len() implies !is_filtered_key(
                #[trigger] keep_pairs(q)[i].0,
            ) by {
                if i < rest.len() {
                    assert(keep_pairs(q)[i] == rest[i]);
                } else {
                    assert(keep_pairs(q)[i] == q.last());
                }
            }
        }
    }
}

/// The value of the first pair in `q` whose key is exactly `url`, if any.
pub open spec fn first_url_param(q: Seq<(Seq<char>, Seq<char>)>) -> Option<Seq<char>>
    decreases q.len(),
{
    if q.len() == 0 {
        None
    } else if q[0].0 == "url"@ {
        Some(q[0].1)
    } else {
        first_url_param(q.skip(1))
    }
}

/// Scans the query pairs in order for the routing key `url`; the first
/// occurrence wins.
pub fn find_url_param(q: &Vec<(String, String)>) -> (r: Option<String>)
    ensures
        r.deep_view() == first_url_param(q.deep_view()),
{
    let url_k = String::from_str("url");
    let mut i: usize = 0;
    proof {
        assert(q.deep_view().skip(0) =~= q.deep_view());
    }
    while i < q.len()
        invariant
            i <= q.len(),
            q.deep_view().len() == q@.len(),
            url_k@ == "url"@,
            first_url_param(q.deep_view()) == first_url_param(q.deep_view().skip(i as int)),
        decreases q.len() - i,
    {
        let pair = &q[i];
        proof {
            assert(q.deep_view().skip(i as int)[0] == q.deep_view()[i as int]);
        }
        if pair.0 == url_k {
            return Some(pair.1.clone());
        }
        proof {
            assert(q.deep_view().skip(i as int).skip(1) =~= q.deep_view().skip(i + 1));
        }
        i += 1;
    }
    proof {
        assert(q.deep_view().skip(i as int) =~= Seq::<(Seq<char>, Seq<char>)>::empty());
    }
    None
}

} // verus!
