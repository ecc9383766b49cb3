use vstd::prelude::*;
use crate::text::{lower, eq_ignore_case};

verus! {

/// The value of the first header whose name matches `name` case-insensitively
/// (ASCII); `name` is given in lower case.
pub open spec fn lookup_header_ci(h: Seq<(Seq<char>, Seq<char>)>, name: Seq<char>) -> Option<
    Seq<char>,
>
    decreases h.len(),
{
    if h.len() == 0 {
        None
    } else if lower(h[0].0) == name {
        Some(h[0].1)
    } else {
        lookup_header_ci(h.skip(1), name)
    }
}

/// Scans the headers in order for `name` (case-insensitive); the first
/// occurrence wins.
pub fn find_header_ci(h: &Vec<(String, String)>, name: &str) -> (r: Option<String>)
    ensures
        r.deep_view() == lookup_header_ci(h.deep_view(), name@),
{
    let mut i: usize = 0;
    proof {
        assert(h.deep_view().skip(0) =~= h.deep_view());
    }
    while i < h.len()
        invariant
            i <= h.len(),
            h.deep_view().len() == h@.len(),
            lookup_header_ci(h.deep_view(), name@) == lookup_header_ci(
                h.deep_view().skip(i as int),
                name@,
            ),
        decreases h.len() - i,
    {
        let pair = &h[i];
        proof {
            assert(h.deep_view().skip(i as int)[0] == h.deep_view()[i as int]);
        }
        if eq_ignore_case(pair.0.as_str(), name) {
            return Some(pair.1.clone());
        }
        proof {
            assert(h.deep_view().skip(i as int).skip(1) =~= h.deep_view().skip(i + 1));
        }
        i += 1;
    }
    proof {
        assert(h.deep_view().skip(i as int) =~= Seq::<(Seq<char>, Seq<char>)>::empty());
    }
    None
}

/// Hosting-platform and transport-identifying request headers that are never
/// forwarded upstream.
pub open spec fn is_dropped_request_key(k: Seq<char>) -> bool {
    ||| lower(k) == "host"@
    ||| lower(k) == "cf-connecting-ip"@
    ||| lower(k) == "cf-ipcountry"@
    ||| lower(k) == "cf-ray"@
    ||| lower(k) == "cf-visitor"@
}

/// The override header whose value becomes the outbound `X-Forwarded-For`.
pub open spec fn is_forwarded_for_override(k: Seq<char>) -> bool {
    lower(k) == "x-my-x-forwarded-for"@
}

/// The outbound request headers before the forwarded-for fallback: excluded
/// names are dropped, the override header is renamed to `X-Forwarded-For`,
/// everything else passes through unchanged, in order.
pub open spec fn sanitize_request(h: Seq<(Seq<char>, Seq<char>)>) -> Seq<(Seq<char>, Seq<char>)>
    decreases h.len(),
{
    if h.len() == 0 {
        Seq::empty()
    } else if is_dropped_request_key(h.last().0) {
        sanitize_request(h.drop_last())
    } else if is_forwarded_for_override(h.last().0) {
        sanitize_request(h.drop_last()).push(("X-Forwarded-For"@, h.last().1))
    } else {
        sanitize_request(h.drop_last()).push(h.last())
    }
}

/// Whether some header in `h` is named `X-Forwarded-For` (case-insensitive).
pub open spec fn has_forwarded_for(h: Seq<(Seq<char>, Seq<char>)>) -> bool {
    exists|j: int| 0 <= j < h.len() && lower(h[j].0) == "x-forwarded-for"@
}

/// Copies the inbound headers for forwarding: drops the excluded names and
/// renames the override header to `X-Forwarded-For`.
pub fn sanitize_request_headers(h: &Vec<(String, String)>) -> (r: Vec<(String, String)>)
    ensures
        r.deep_view() == sanitize_request(h.deep_view()),
{
    let mut out: Vec<(String, String)> = Vec::new();
    let mut i: usize = 0;
    proof {
        assert(h.deep_view().take(0) =~= Seq::<(Seq<char>, Seq<char>)>::empty());
    }
    while i < h.len()
        invariant
            i <= h.len(),
            h.deep_view().len() == h@.len(),
            out.deep_view() == sanitize_request(h.deep_view().take(i as int)),
        decreases h.len() - i,
    {
        let pair = &h[i];
        let ghost pre = out.deep_view();
        let dropped = eq_ignore_case(pair.0.as_str(), "host") || eq_ignore_case(
            pair.0.as_str(),
            "cf-connecting-ip",
        ) || eq_ignore_case(pair.0.as_str(), "cf-ipcountry") || eq_ignore_case(
            pair.0.as_str(),
            "cf-ray",
        ) || eq_ignore_case(pair.0.as_str(), "cf-visitor");
        if !dropped {
            if eq_ignore_case(pair.0.as_str(), "x-my-x-forwarded-for") {
                out.push((String::from_str("X-Forwarded-For"), pair.1.clone()));
                proof {
                    assert(out.deep_view() =~= pre.push(
                        ("X-Forwarded-For"@, h.deep_view()[i as int].1),
                    ));
                }
            } else {
                out.push((pair.0.clone(), pair.1.clone()));
                proof {
                    assert(out.deep_view() =~= pre.push(h.deep_view()[i as int]));
                }
            }
        }
        proof {
            let full = h.deep_view();
            assert(full.take(i + 1).drop_last() =~= full.take(i as int));
            assert(full.take(i + 1).last() == full[i as int]);
        }
        i += 1;
    }
    proof {
        assert(h.deep_view().take(h@.len() as int) =~= h.deep_view());
    }
    out
}

/// Transparency of the request sanitizer: headers that are neither excluded
/// nor the override — custom headers, auth headers — pass through unchanged,
/// in their original order.
pub proof fn lemma_sanitize_request_transparent(h: Seq<(Seq<char>, Seq<char>)>)
    requires
        forall|i: int|
            0 <= i < h.len() ==> !is_dropped_request_key(#[trigger] h[i].0)
                && !is_forwarded_for_override(h[i].0),
    ensures
        sanitize_request(h) == h,
    decreases h.len(),
{
    if h.len() > 0 {
        lemma_sanitize_request_transparent(h.drop_last());
        assert(sanitize_request(h) =~= h);
    } else {
        assert(sanitize_request(h) =~= h);
    }
}

/// Whether `h` already carries an `X-Forwarded-For` header.
pub fn contains_forwarded_for(h: &Vec<(String, String)>) -> (r: bool)
    ensures
        r == has_forwarded_for(h.deep_view()),
{
    let mut i: usize = 0;
    while i < h.len()
        invariant
            i <= h.len(),
            h.deep_view().len() == h@.len(),
            forall|j: int| 0 <= j < i ==> lower(#[trigger] h.deep_view()[j].0)
                != "x-forwarded-for"@,
        decreases h.len() - i,
    {
        let pair = &h[i];
        if eq_ignore_case(pair.0.as_str(), "x-forwarded-for") {
            proof {
                assert(lower(h.deep_view()[i as int].0) == "x-forwarded-for"@);
            }
            return true;
        }
        i += 1;
    }
    false
}

/// Transport-framing response headers that become invalid once the body is
/// re-streamed, and so are never copied back to the caller.
pub open spec fn is_dropped_response_key(k: Seq<char>) -> bool {
    ||| lower(k) == "content-encoding"@
    ||| lower(k) == "content-length"@
    ||| lower(k) == "transfer-encoding"@
}

/// The names of the three CORS headers that are set unconditionally on every
/// relayed response.
pub open spec fn is_cors_key(k: Seq<char>) -> bool {
    ||| lower(k) == "access-control-allow-origin"@
    ||| lower(k) == "access-control-allow-methods"@
    ||| lower(k) == "access-control-allow-headers"@
}

/// The three CORS headers, in a fixed order.
pub open spec fn cors_header_seq() -> Seq<(Seq<char>, Seq<char>)> {
    seq![
        ("Access-Control-Allow-Origin"@, "*"@),
        ("Access-Control-Allow-Methods"@, "GET, POST, PUT, DELETE, OPTIONS, PATCH, HEAD"@),
        ("Access-Control-Allow-Headers"@, "*"@),
    ]
}

pub fn cors_headers() -> (r: Vec<(String, String)>)
    ensures
        r.deep_view() =~= cors_header_seq(),
{
    let mut out: Vec<(String, String)> = Vec::new();
    out.push((String::from_str("Access-Control-Allow-Origin"), String::from_str("*")));
    out.push(
        (
            String::from_str("Access-Control-Allow-Methods"),
            String::from_str("GET, POST, PUT, DELETE, OPTIONS, PATCH, HEAD"),
        ),
    );
    out.push((String::from_str("Access-Control-Allow-Headers"), String::from_str("*")));
    out
}

/// The upstream response headers with transport framing removed and any
/// upstream copy of the CORS names dropped, in order; the caller appends the
/// proxy's own CORS headers after this.
pub open spec fn strip_response(h: Seq<(Seq<char>, Seq<char>)>) -> Seq<(Seq<char>, Seq<char>)>
    decreases h.len(),
{
    if h.len() == 0 {
        Seq::empty()
    } else if is_dropped_response_key(h.last().0) || is_cors_key(h.last().0) {
        strip_response(h.drop_last())
    } else {
        strip_response(h.drop_last()).push(h.last())
    }
}

/// Transparency of the response sanitizer: upstream headers that are neither
/// transport framing nor CORS names are relayed verbatim, in their original
/// order.
pub proof fn lemma_strip_response_transparent(h: Seq<(Seq<char>, Seq<char>)>)
    requires
        forall|i: int|
            0 <= i < h.len() ==> !is_dropped_response_key(#[trigger] h[i].0) && !is_cors_key(
                h[i].0,
            ),
    ensures
        strip_response(h) == h,
    decreases h.len(),
{
    if h.len() > 0 {
        lemma_strip_response_transparent(h.drop_last());
        assert(strip_response(h) =~= h);
    } else {
        assert(strip_response(h) =~= h);
    }
}

/// The headers of the relayed response: the upstream headers without
/// transport framing, then the three CORS headers set unconditionally.
pub open spec fn sanitize_response(h: Seq<(Seq<char>, Seq<char>)>) -> Seq<(Seq<char>, Seq<char>)> {
    strip_response(h) + cors_header_seq()
}

/// Copies the upstream response headers for relaying: drops
/// `content-encoding`, `content-length` and `transfer-encoding`, replaces any
/// upstream CORS headers, and appends the proxy's own CORS headers.
pub fn sanitize_response_headers(h: &Vec<(String, String)>) -> (r: Vec<(String, String)>)
    ensures
        r.deep_view() == sanitize_response(h.deep_view()),
{
    let mut out: Vec<(String, String)> = Vec::new();
    let mut i: usize = 0;
    proof {
        assert(h.deep_view().take(0) =~= Seq::<(Seq<char>, Seq<char>)>::empty());
    }
    while i < h.len()
        invariant
            i <= h.len(),
            h.deep_view().len() == h@.len(),
            out.deep_view() == strip_response(h.deep_view().take(i as int)),
        decreases h.len() - i,
    {
        let pair = &h[i];
        let ghost pre = out.deep_view();
        let dropped = eq_ignore_case(pair.0.as_str(), "content-encoding") || eq_ignore_case(
            pair.0.as_str(),
            "content-length",
        ) || eq_ignore_case(pair.0.as_str(), "transfer-encoding") || eq_ignore_case(
            pair.0.as_str(),
            "access-control-allow-origin",
        ) || eq_ignore_case(pair.0.as_str(), "access-control-allow-methods") || eq_ignore_case(
            pair.0.as_str(),
            "access-control-allow-headers",
        );
        if !dropped {
            out.push((pair.0.clone(), pair.1.clone()));
            proof {
                assert(out.deep_view() =~= pre.push(h.deep_view()[i as int]));
            }
        }
        proof {
            let full = h.deep_view();
            assert(full.take(i + 1).drop_last() =~= full.take(i as int));
            assert(full.take(i + 1).last() == full[i as int]);
        }
        i += 1;
    }
    proof {
        assert(h.deep_view().take(h@.len() as int) =~= h.deep_view());
    }
    let mut cors = cors_headers();
    let ghost stripped = out.deep_view();
    out.append(&mut cors);
    proof {
        assert(out.deep_view() =~= stripped + cors_header_seq());
    }
    out
}

} // verus!
