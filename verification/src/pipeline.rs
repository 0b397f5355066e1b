//! The per-request filter pipeline: an ordered chain of hook points that
//! can inspect, mutate, or reject a request before and after it is
//! forwarded.
//!
//! The hooks run in a fixed order — early access check, upstream
//! selection, upstream request filter, response filter, logging — with an
//! explicit short-circuit signal instead of exceptions. The surrounding
//! process streams the bytes; every decision along the way is made here.

use vstd::prelude::*;
use vstd::string::StrSliceExecFns;
use crate::headers::{contains_header, insert_header, Header};
use crate::registry::{Backend, Registry};
use crate::selector::{rr_index, RoundRobinSelector};

verus! {

/// Status returned when the access policy rejects a path.
pub const STATUS_FORBIDDEN: u16 = 403;

/// Status returned when no healthy backend is available.
pub const STATUS_BAD_GATEWAY: u16 = 502;

/// The name of the header injected into every forwarded request.
pub const PROXY_FROM_HEADER: &'static str = "x-proxy-from";

/// Where a request stands in its life cycle.
#[derive(Clone, Copy, PartialEq, Eq, Structural, Debug)]
pub enum RequestState {
    Received,
    EarlyChecked,
    BackendSelected,
    Forwarded,
    ResponseFiltered,
    Completed,
    Rejected,
    Failed,
}

/// The transitions a request may take: forward through the pipeline, to
/// `Rejected` from the early check or from a failed selection, and to
/// `Failed` from a transport error while forwarding.
pub open spec fn state_steps(from: RequestState, to: RequestState) -> bool {
    ||| (from == RequestState::Received && to == RequestState::EarlyChecked)
    ||| (from == RequestState::Received && to == RequestState::Rejected)
    ||| (from == RequestState::EarlyChecked && to == RequestState::BackendSelected)
    ||| (from == RequestState::EarlyChecked && to == RequestState::Rejected)
    ||| (from == RequestState::BackendSelected && to == RequestState::Forwarded)
    ||| (from == RequestState::Forwarded && to == RequestState::ResponseFiltered)
    ||| (from == RequestState::Forwarded && to == RequestState::Failed)
    ||| (from == RequestState::ResponseFiltered && to == RequestState::Completed)
}

/// Per-request scratch state, created when the request arrives, handed
/// through every hook, and discarded when the request ends.
pub struct FilterContext {
    pub state: RequestState,
    pub selected: Option<Backend>,
    pub status: Option<u16>,
}

/// A fresh context for a request that was just received.
pub fn new_context() -> (r: FilterContext)
    ensures
        r.state == RequestState::Received,
        r.selected is None,
        r.status is None,
{
    FilterContext { state: RequestState::Received, selected: None, status: None }
}

/// What the proxy needs to know to drive the pipeline: the path
/// allow-list, the value of the injected request header (this proxy's
/// address), and the identifying header injected into every response.
pub struct ProxyConfig {
    pub allowed_prefixes: Vec<String>,
    pub proxy_header_value: String,
    pub response_header_name: String,
    pub response_header_value: String,
}

/// What a hook tells the pipeline: go on, or answer the client now with
/// this status and run no later hook.
#[derive(Clone, Copy, PartialEq, Eq, Structural, Debug)]
pub enum FilterDecision {
    Continue,
    Respond(u16),
}

/// Where the pipeline sends the request: on to this backend, or straight
/// back to the client with this status.
pub enum RouteOutcome {
    Forward { backend: Backend },
    Reject { status: u16 },
}

/// Whether `p` is a prefix of `s`.
pub open spec fn is_prefix(p: Seq<char>, s: Seq<char>) -> bool {
    p.len() <= s.len() && forall|i: int| 0 <= i < p.len() ==> s[i] == p[i]
}

/// The access policy: a path is allowed when it starts with one of the
/// configured prefixes. A pure function of the request line; no backend
/// is involved.
pub open spec fn path_allowed(path: Seq<char>, prefixes: Seq<String>) -> bool {
    exists|i: int| 0 <= i < prefixes.len() && is_prefix((#[trigger] prefixes[i])@, path)
}

/// Whether `s` starts with `p`, character for character.
pub fn starts_with_prefix(s: &str, p: &str) -> (r: bool)
    ensures
        r == is_prefix(p@, s@),
{
    let sl = s.unicode_len();
    let pl = p.unicode_len();
    if pl > sl {
        return false;
    }
    let mut i: usize = 0;
    while i < pl
        invariant
            i <= pl,
            pl == p@.len(),
            sl == s@.len(),
            pl <= sl,
            forall|j: int| 0 <= j < i as int ==> s@[j] == p@[j],
        decreases pl - i,
    {
        if s.get_char(i) != p.get_char(i) {
            return false;
        }
        i = i + 1;
    }
    true
}

/// Evaluates the access policy on a request path.
pub fn check_path(path: &str, prefixes: &Vec<String>) -> (r: bool)
    ensures
        r == path_allowed(path@, prefixes@),
{
    let mut i: usize = 0;
    while i < prefixes.len()
        invariant
            i <= prefixes@.len(),
            forall|j: int| 0 <= j < i as int ==> !is_prefix((#[trigger] prefixes@[j])@, path@),
        decreases prefixes@.len() - i,
    {
        if starts_with_prefix(path, prefixes[i].as_str()) {
            return true;
        }
        i = i + 1;
    }
    false
}

/// The early hook: rejects a disallowed path with a terminal response
/// before any routing work, and lets every allowed path through.
pub fn early_filter(path: &str, cfg: &ProxyConfig) -> (r: FilterDecision)
    ensures
        r == if path_allowed(path@, cfg.allowed_prefixes@) {
            FilterDecision::Continue
        } else {
            FilterDecision::Respond(STATUS_FORBIDDEN)
        },
{
    if check_path(path, &cfg.allowed_prefixes) {
        FilterDecision::Continue
    } else {
        FilterDecision::Respond(STATUS_FORBIDDEN)
    }
}

/// Drives the pre-forward half of the pipeline for one request: the early
/// access check, upstream selection against the registry's healthy
/// snapshot, and the upstream request filter that stamps the proxy's
/// identity onto the request head.
///
/// A disallowed path is answered 403 before any routing: the selector is
/// never consulted and the request head is untouched. An allowed path
/// with no healthy backend is answered 502; the selection attempt yields
/// no backend and advances nothing. Otherwise the round-robin pick of the
/// healthy snapshot is chosen, the counter advances by one, and the
/// forwarded head carries `x-proxy-from: <this proxy>` whichever backend
/// was picked.
pub fn route_request(
    cfg: &ProxyConfig,
    path: &str,
    key: &Vec<u8>,
    reg: &Registry,
    sel: &mut RoundRobinSelector,
    req_headers: &mut Vec<Header>,
    ctx: &mut FilterContext,
) -> (r: RouteOutcome)
    requires
        old(ctx).state == RequestState::Received,
    ensures
        !path_allowed(path@, cfg.allowed_prefixes@) ==> {
            &&& r == (RouteOutcome::Reject { status: STATUS_FORBIDDEN })
            &&& *final(sel) == *old(sel)
            &&& final(req_headers)@ == old(req_headers)@
            &&& final(ctx).state == RequestState::Rejected
            &&& final(ctx).selected is None
            &&& final(ctx).status == Some(STATUS_FORBIDDEN)
        },
        path_allowed(path@, cfg.allowed_prefixes@) && reg.healthy_seq().len() == 0 ==> {
            &&& r == (RouteOutcome::Reject { status: STATUS_BAD_GATEWAY })
            &&& *final(sel) == *old(sel)
            &&& final(req_headers)@ == old(req_headers)@
            &&& final(ctx).state == RequestState::Rejected
            &&& final(ctx).selected is None
            &&& final(ctx).status == Some(STATUS_BAD_GATEWAY)
        },
        path_allowed(path@, cfg.allowed_prefixes@) && reg.healthy_seq().len() > 0 ==> {
            let healthy = reg.healthy_seq();
            let chosen = healthy[rr_index(old(sel).counter as nat, healthy.len() as nat) as int];
            &&& r == (RouteOutcome::Forward { backend: chosen })
            &&& chosen.healthy
            &&& final(ctx).state == RequestState::BackendSelected
            &&& final(ctx).selected == Some(chosen)
            &&& final(sel).counter == if old(sel).counter < u64::MAX {
                old(sel).counter + 1
            } else {
                0
            }
            &&& contains_header(final(req_headers)@, PROXY_FROM_HEADER@, cfg.proxy_header_value@)
            &&& final(req_headers)@.last().name@ == PROXY_FROM_HEADER@
            &&& final(req_headers)@.last().value@ == cfg.proxy_header_value@
            &&& final(req_headers)@.drop_last() == old(req_headers)@.filter(
                |h: Header| h.name@ != PROXY_FROM_HEADER@,
            )
        },
        state_steps(RequestState::Received, final(ctx).state) || (final(ctx).state
            == RequestState::BackendSelected),
{
    match early_filter(path, cfg) {
        FilterDecision::Respond(status) => {
            ctx.state = RequestState::Rejected;
            ctx.selected = None;
            ctx.status = Some(status);
            return RouteOutcome::Reject { status };
        },
        FilterDecision::Continue => {},
    }
    ctx.state = RequestState::EarlyChecked;
    let healthy = reg.list_healthy();
    match sel.select(key, &healthy) {
        None => {
            ctx.state = RequestState::Rejected;
            ctx.selected = None;
            ctx.status = Some(STATUS_BAD_GATEWAY);
            RouteOutcome::Reject { status: STATUS_BAD_GATEWAY }
        },
        Some(backend) => {
            ctx.state = RequestState::BackendSelected;
            ctx.selected = Some(backend.clone());
            insert_header(req_headers, PROXY_FROM_HEADER, cfg.proxy_header_value.as_str());
            RouteOutcome::Forward { backend }
        },
    }
}

/// Records that the request head went out to the selected backend and the
/// proxy now awaits the response.
pub fn mark_forwarded(ctx: &mut FilterContext)
    requires
        old(ctx).state == RequestState::BackendSelected,
    ensures
        final(ctx).state == RequestState::Forwarded,
        final(ctx).selected == old(ctx).selected,
        final(ctx).status == old(ctx).status,
        state_steps(old(ctx).state, final(ctx).state),
{
    ctx.state = RequestState::Forwarded;
}

/// The response filter: stamps the configured identifying header onto the
/// response head before it is returned to the client, overwriting any
/// value the backend sent under that name, and leaves every other field.
pub fn filter_response(cfg: &ProxyConfig, resp_headers: &mut Vec<Header>, ctx: &mut FilterContext)
    requires
        old(ctx).state == RequestState::Forwarded,
    ensures
        final(ctx).state == RequestState::ResponseFiltered,
        final(ctx).selected == old(ctx).selected,
        final(ctx).status == old(ctx).status,
        state_steps(old(ctx).state, final(ctx).state),
        contains_header(
            final(resp_headers)@,
            cfg.response_header_name@,
            cfg.response_header_value@,
        ),
        final(resp_headers)@.last().name@ == cfg.response_header_name@,
        final(resp_headers)@.last().value@ == cfg.response_header_value@,
        final(resp_headers)@.drop_last() == old(resp_headers)@.filter(
            |h: Header| h.name@ != cfg.response_header_name@,
        ),
{
    insert_header(
        resp_headers,
        cfg.response_header_name.as_str(),
        cfg.response_header_value.as_str(),
    );
    ctx.state = RequestState::ResponseFiltered;
}

/// Records the final status of a filtered response: the request is done.
pub fn complete_request(ctx: &mut FilterContext, status: u16)
    requires
        old(ctx).state == RequestState::ResponseFiltered,
    ensures
        final(ctx).state == RequestState::Completed,
        final(ctx).selected == old(ctx).selected,
        final(ctx).status == Some(status),
        state_steps(old(ctx).state, final(ctx).state),
{
    ctx.state = RequestState::Completed;
    ctx.status = Some(status);
}

/// Records a transport error while forwarding: the request ends in the
/// failed state with a terminal server-error status, never a crash. The
/// failing backend is left for the health checker's next probe cycle.
pub fn fail_request(ctx: &mut FilterContext)
    requires
        old(ctx).state == RequestState::Forwarded,
    ensures
        final(ctx).state == RequestState::Failed,
        final(ctx).selected == old(ctx).selected,
        final(ctx).status == Some(STATUS_BAD_GATEWAY),
        state_steps(old(ctx).state, final(ctx).state),
{
    ctx.state = RequestState::Failed;
    ctx.status = Some(STATUS_BAD_GATEWAY);
}

/// The request body hook point: a design extension left as a pass-through,
/// so unmodified bodies are forwarded untouched.
pub fn request_body_filter(body: &mut Option<Vec<u8>>, _end_of_stream: bool)
    ensures
        *final(body) == *old(body),
{
}

/// The response body hook point: the same pass-through on the way back;
/// it never asks to delay the stream.
pub fn response_body_filter(body: &mut Option<Vec<u8>>, _end_of_stream: bool) -> (r: Option<u64>)
    ensures
        *final(body) == *old(body),
        r is None,
{
    None
}

/// What the logging hook sees of a finished request.
pub struct LogRecord {
    pub state: RequestState,
    pub status: Option<u16>,
    pub backend_address: Option<String>,
}

/// The logging hook: observes the outcome for observability and nothing
/// more — it takes the context by shared reference, so it can alter
/// neither the response nor the request, and it never fails.
pub fn log_record(ctx: &FilterContext) -> (r: LogRecord)
    ensures
        r.state == ctx.state,
        r.status == ctx.status,
        r.backend_address is Some <==> ctx.selected is Some,
        ctx.selected matches Some(b) ==> r.backend_address == Some(b.address),
{
    let backend_address = match &ctx.selected {
        Some(b) => Some(b.address.clone()),
        None => None,
    };
    LogRecord { state: ctx.state, status: ctx.status, backend_address }
}

} // verus!
