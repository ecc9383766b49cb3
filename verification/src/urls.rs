use vstd::prelude::*;
use crate::params::{filter_params, keep_pairs};

verus! {

/// Whether a string parses as an absolute URL.
pub uninterp spec fn url_ok(s: Seq<char>) -> bool;

/// The decoded query pairs of the absolute URL `s`, in order.
pub uninterp spec fn url_query_pairs(s: Seq<char>) -> Seq<(Seq<char>, Seq<char>)>;

/// The absolute URL `s` re-serialized with its query string removed.
pub uninterp spec fn url_without_query(s: Seq<char>) -> Seq<char>;

/// The absolute URL `s` re-serialized with its query string replaced by the
/// form-encoded pairs `q`.
pub uninterp spec fn url_with_query(s: Seq<char>, q: Seq<(Seq<char>, Seq<char>)>) -> Seq<char>;

/// Relies on url::Url::parse: returns whether the string parses as an
/// absolute URL.
#[verifier::external_body]
pub(crate) fn url_is_absolute(s: &str) -> (r: bool)
    ensures
        r == url_ok(s@),
{
    url::Url::parse(s).is_ok()
}

/// Relies on url::Url::parse and url::Url::query_pairs: the percent-decoded
/// name/value pairs of the URL's query string, in their original order.
#[verifier::external_body]
pub(crate) fn query_pairs_of(s: &str) -> (r: Vec<(String, String)>)
    requires
        url_ok(s@),
    ensures
        r.deep_view() == url_query_pairs(s@),
{
    match url::Url::parse(s) {
        Ok(u) => u.query_pairs().map(|(k, v)| (k.into_owned(), v.into_owned())).collect(),
        Err(_) => Vec::new(),
    }
}

/// Relies on url::Url::parse, url::Url::set_query and url::Url::as_str: the
/// URL re-serialized carrying no query string at all (no trailing `?`).
#[verifier::external_body]
pub(crate) fn clear_query(s: &str) -> (r: String)
    requires
        url_ok(s@),
    ensures
        r@ == url_without_query(s@),
{
    match url::Url::parse(s) {
        Ok(mut u) => {
            u.set_query(None);
            String::from(u.as_str())
        },
        Err(_) => String::new(),
    }
}

/// Relies on url::Url::parse, url::Url::query_pairs_mut (with the
/// form_urlencoded serializer's clear and extend_pairs) and url::Url::as_str:
/// the URL re-serialized with exactly the pairs `q`, form-encoded in order,
/// as its query string.
#[verifier::external_body]
pub(crate) fn replace_query(s: &str, q: &Vec<(String, String)>) -> (r: String)
    requires
        url_ok(s@),
        q@.len() > 0,
    ensures
        r@ == url_with_query(s@, q.deep_view()),
{
    match url::Url::parse(s) {
        Ok(mut u) => {
            u.query_pairs_mut().clear().extend_pairs(q.iter());
            String::from(u.as_str())
        },
        Err(_) => String::new(),
    }
}

/// The query pairs carried by the outbound URL: the target's own
/// non-reserved pairs first, then the inbound request's non-reserved pairs,
/// each in original order, duplicates across the sources kept.
pub open spec fn merged_pairs(target: Seq<char>, inbound_q: Seq<(Seq<char>, Seq<char>)>) -> Seq<
    (Seq<char>, Seq<char>),
> {
    keep_pairs(url_query_pairs(target)) + keep_pairs(inbound_q)
}

/// The outbound URL for a target: the merged non-reserved query pairs on the
/// target; if nothing remains, the URL carries no query string at all.
pub open spec fn rewritten_url(target: Seq<char>, inbound_q: Seq<(Seq<char>, Seq<char>)>) -> Seq<
    char,
> {
    let merged = merged_pairs(target, inbound_q);
    if merged.len() == 0 {
        url_without_query(target)
    } else {
        url_with_query(target, merged)
    }
}

/// The reserved keys never reach the upstream origin: whichever source a
/// merged pair came from, its key is not `url`, `_cb` or `_t`.
pub proof fn lemma_merged_pairs_no_reserved(target: Seq<char>, inbound_q: Seq<(Seq<char>, Seq<char>)>)
    ensures
        forall|i: int|
            0 <= i < merged_pairs(target, inbound_q).len() ==> !crate::params::is_filtered_key(
                #[trigger] merged_pairs(target, inbound_q)[i].0,
            ),
{
    crate::params::lemma_keep_pairs_no_reserved(url_query_pairs(target));
    crate::params::lemma_keep_pairs_no_reserved(inbound_q);
    assert forall|i: int| 0 <= i < merged_pairs(target, inbound_q).len() implies !crate::params::is_filtered_key(
        #[trigger] merged_pairs(target, inbound_q)[i].0,
    ) by {
        let own = keep_pairs(url_query_pairs(target));
        if i < own.len() {
            assert(merged_pairs(target, inbound_q)[i] == own[i]);
        } else {
            assert(merged_pairs(target, inbound_q)[i] == keep_pairs(inbound_q)[i - own.len()]);
        }
    }
}

/// Builds the outbound URL: filters the reserved parameters out of both the
/// target's own query string and the inbound query, and merges the remainder
/// onto the target.
pub fn rewrite_target_url(target: &str, inbound_query: &Vec<(String, String)>) -> (r: String)
    requires
        url_ok(target@),
    ensures
        r@ == rewritten_url(target@, inbound_query.deep_view()),
{
    let own = query_pairs_of(target);
    let mut merged = filter_params(&own);
    let mut extra = filter_params(inbound_query);
    let ghost own_kept = merged.deep_view();
    merged.append(&mut extra);
    proof {
        assert(merged.deep_view() =~= own_kept + keep_pairs(inbound_query.deep_view()));
    }
    if merged.len() == 0 {
        clear_query(target)
    } else {
        replace_query(target, &merged)
    }
}

} // verus!
