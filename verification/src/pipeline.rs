use vstd::prelude::*;
use crate::headers::{
    cors_header_seq, cors_headers, contains_forwarded_for, has_forwarded_for, lookup_header_ci,
    find_header_ci, sanitize_request, sanitize_request_headers,
};
use crate::ip::{clock_seed, spec_synthetic_ip, synthetic_ip};
use crate::params::{first_url_param, find_url_param};
use crate::text::{drop_leading_slashes, starts_with, str_eq, str_starts_with, trim_leading_slashes};
use crate::urls::{rewrite_target_url, rewritten_url, url_is_absolute, url_ok};

verus! {

/// One inbound HTTP request, as the hosting runtime hands it over: the
/// method, the path, the decoded query pairs in order (keys may repeat), and
/// the headers in order.
pub struct InboundRequest {
    pub method: String,
    pub path: String,
    pub query: Vec<(String, String)>,
    pub headers: Vec<(String, String)>,
}

/// What the proxy decides to do with one inbound request. The hosting
/// runtime carries the decision out: it answers a preflight or a rejection
/// directly, and performs the outbound call for a forward.
pub enum RequestPlan {
    /// A CORS preflight: answer 204 with an empty body and these headers.
    Preflight { headers: Vec<(String, String)> },
    /// A client error: answer with this status and body, no outbound call.
    Reject { status: u16, body: String },
    /// Forward to `url` with the sanitized `headers`; `include_body` says
    /// whether the inbound body stream accompanies the outbound request.
    Forward { url: String, headers: Vec<(String, String)>, include_body: bool },
}

/// The mathematical shape of a plan.
pub enum PlanView {
    Preflight { headers: Seq<(Seq<char>, Seq<char>)> },
    Reject { status: u16, body: Seq<char> },
    Forward { url: Seq<char>, headers: Seq<(Seq<char>, Seq<char>)>, include_body: bool },
}

impl View for RequestPlan {
    type V = PlanView;

    open spec fn view(&self) -> PlanView {
        match self {
            RequestPlan::Preflight { headers } => PlanView::Preflight {
                headers: headers.deep_view(),
            },
            RequestPlan::Reject { status, body } => PlanView::Reject {
                status: *status,
                body: body@,
            },
            RequestPlan::Forward { url, headers, include_body } => PlanView::Forward {
                url: url@,
                headers: headers.deep_view(),
                include_body: *include_body,
            },
        }
    }
}

/// The target URL taken from the path, if any: a path other than `/` whose
/// remainder after the leading slashes literally starts with `http`.
pub open spec fn path_target(p: Seq<char>) -> Option<Seq<char>> {
    if p != "/"@ && starts_with(drop_leading_slashes(p), "http"@) {
        Some(drop_leading_slashes(p))
    } else {
        None
    }
}

/// Where the target URL comes from, first match wins: the first `url` query
/// parameter, then the `X-Target-URL` header (case-insensitive), then the
/// path.
pub open spec fn resolved_target(
    q: Seq<(Seq<char>, Seq<char>)>,
    h: Seq<(Seq<char>, Seq<char>)>,
    p: Seq<char>,
) -> Option<Seq<char>> {
    match first_url_param(q) {
        Some(t) => Some(t),
        None => match lookup_header_ci(h, "x-target-url"@) {
            Some(t) => Some(t),
            None => path_target(p),
        },
    }
}

/// Resolves the target URL of an inbound request, or reports that none was
/// supplied.
pub fn resolve_target(
    query: &Vec<(String, String)>,
    headers: &Vec<(String, String)>,
    path: &str,
) -> (r: Option<String>)
    ensures
        r.deep_view() == resolved_target(query.deep_view(), headers.deep_view(), path@),
{
    let from_query = find_url_param(query);
    match from_query {
        Some(t) => Some(t),
        None => {
            let from_header = find_header_ci(headers, "x-target-url");
            match from_header {
                Some(t) => Some(t),
                None => {
                    if !str_eq(path, "/") {
                        let rest = trim_leading_slashes(path);
                        if str_starts_with(rest, "http") {
                            return Some(String::from_str(rest));
                        }
                    }
                    None
                },
            }
        },
    }
}

/// The outbound request headers: the sanitized inbound headers and, only
/// when they carry no `X-Forwarded-For`, a synthetic forwarded-for identity
/// derived from `seed`.
pub open spec fn outbound_header_seq(h: Seq<(Seq<char>, Seq<char>)>, seed: u64) -> Seq<
    (Seq<char>, Seq<char>),
> {
    let s = sanitize_request(h);
    if has_forwarded_for(s) {
        s
    } else {
        s.push(("X-Forwarded-For"@, spec_synthetic_ip(seed)))
    }
}

/// The full decision for one inbound request, as a function of the request
/// and of the seed that would feed a synthetic identity.
pub open spec fn spec_plan(
    m: Seq<char>,
    p: Seq<char>,
    q: Seq<(Seq<char>, Seq<char>)>,
    h: Seq<(Seq<char>, Seq<char>)>,
    seed: u64,
) -> PlanView {
    if m == "OPTIONS"@ {
        PlanView::Preflight { headers: cors_header_seq() }
    } else {
        match resolved_target(q, h, p) {
            None => PlanView::Reject { status: 400, body: "Missing target URL"@ },
            Some(t) => if !url_ok(t) {
                PlanView::Reject { status: 400, body: "Invalid target URL"@ }
            } else {
                PlanView::Forward {
                    url: rewritten_url(t, q),
                    headers: outbound_header_seq(h, seed),
                    include_body: m != "GET"@ && m != "HEAD"@,
                }
            },
        }
    }
}

/// Decides what to do with one inbound request, with the synthetic-identity
/// seed given explicitly. No outbound call is planned before a target URL
/// has resolved and parsed.
pub fn plan_request(req: &InboundRequest, seed: u64) -> (r: RequestPlan)
    ensures
        r@ == spec_plan(
            req.method@,
            req.path@,
            req.query.deep_view(),
            req.headers.deep_view(),
            seed,
        ),
{
    if str_eq(req.method.as_str(), "OPTIONS") {
        return RequestPlan::Preflight { headers: cors_headers() };
    }
    let target = resolve_target(&req.query, &req.headers, req.path.as_str());
    match target {
        None => RequestPlan::Reject {
            status: 400,
            body: String::from_str("Missing target URL"),
        },
        Some(t) => {
            if !url_is_absolute(t.as_str()) {
                return RequestPlan::Reject {
                    status: 400,
                    body: String::from_str("Invalid target URL"),
                };
            }
            let url = rewrite_target_url(t.as_str(), &req.query);
            let mut headers = sanitize_request_headers(&req.headers);
            if !contains_forwarded_for(&headers) {
                let ghost pre = headers.deep_view();
                headers.push((String::from_str("X-Forwarded-For"), synthetic_ip(seed)));
                proof {
                    assert(headers.deep_view() =~= pre.push(
                        ("X-Forwarded-For"@, spec_synthetic_ip(seed)),
                    ));
                }
            }
            let include_body = !str_eq(req.method.as_str(), "GET") && !str_eq(
                req.method.as_str(),
                "HEAD",
            );
            RequestPlan::Forward { url, headers, include_body }
        },
    }
}

/// Decides what to do with one inbound request, drawing a fresh seed for the
/// synthetic identity: the result is the plan for this request under some
/// seed.
pub fn handle_request(req: &InboundRequest) -> (r: RequestPlan)
    ensures
        exists|seed: u64|
            r@ == spec_plan(
                req.method@,
                req.path@,
                req.query.deep_view(),
                req.headers.deep_view(),
                seed,
            ),
{
    let seed = clock_seed();
    let r = plan_request(req, seed);
    proof {
        assert(r@ == spec_plan(
            req.method@,
            req.path@,
            req.query.deep_view(),
            req.headers.deep_view(),
            seed,
        ));
    }
    r
}

/// Planning the same inbound request twice yields the same decision — the
/// same preflight, the same rejection, or the same outbound URL, header
/// sequence and body policy — except that, when no inbound forwarded-for
/// header survives sanitization, the one appended synthetic
/// `X-Forwarded-For` value may vary with the seed.
pub proof fn lemma_plan_idempotent(
    m: Seq<char>,
    p: Seq<char>,
    q: Seq<(Seq<char>, Seq<char>)>,
    h: Seq<(Seq<char>, Seq<char>)>,
    seed1: u64,
    seed2: u64,
)
    ensures
        match (spec_plan(m, p, q, h, seed1), spec_plan(m, p, q, h, seed2)) {
            (PlanView::Preflight { headers: h1 }, PlanView::Preflight { headers: h2 }) => h1 == h2,
            (
                PlanView::Reject { status: s1, body: b1 },
                PlanView::Reject { status: s2, body: b2 },
            ) => s1 == s2 && b1 == b2,
            (
                PlanView::Forward { url: u1, headers: h1, include_body: b1 },
                PlanView::Forward { url: u2, headers: h2, include_body: b2 },
            ) => u1 == u2 && b1 == b2 && h1.len() == h2.len() && (h1 == h2 || (
                !has_forwarded_for(sanitize_request(h)) && h1.drop_last() == h2.drop_last()
                    && h1.last().0 == "X-Forwarded-For"@ && h2.last().0 == "X-Forwarded-For"@
            )),
            _ => false,
        },
{
    let s = sanitize_request(h);
    if !has_forwarded_for(s) {
        assert(outbound_header_seq(h, seed1).drop_last() =~= s);
        assert(outbound_header_seq(h, seed2).drop_last() =~= s);
    }
}

} // verus!
