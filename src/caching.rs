//! The caching strategy's decision for one request: refuse a scheme other
//! than `http`, else look the request up under its cache entry's path.
use vstd::prelude::*;
use crate::cache_path::{cache_entry, cache_entry_segments, is_plain_name};
use crate::rewrite::{host_or_empty, http_scheme, is_http, opt_view, scheme_is_http};
use crate::decode::{cache_entry_body, decoded_for_token, gzip_decoded, gzip_token, DecodeError};
use crate::text::views;

verus! {

/// What the caching strategy does with a request.
pub enum CachePlan {
    /// Answer `404 Not Found` without touching the cache or any origin.
    NotFound,
    /// Serve the cache file at these segments below the cache root where it
    /// exists; else fetch from the origin, and store the decoded body there.
    Lookup(Vec<String>),
}

/// Decides what to do with a request of the given scheme, host and path:
/// a scheme other than `http` is refused; otherwise the request goes to the
/// cache entry of its host and sanitized path, whatever its query string.
pub fn plan_cache_request(scheme: Option<&str>, host: Option<&str>, path: &str) -> (r: CachePlan)
    ensures
        !is_http(opt_view(scheme)) ==> r is NotFound,
        is_http(opt_view(scheme)) ==> r is Lookup,
        r matches CachePlan::Lookup(segs) ==> views(segs@) == cache_entry(
            host_or_empty(host),
            path@,
        ),
        r matches CachePlan::Lookup(segs) ==> forall|i: int|
            0 <= i < segs@.len() ==> is_plain_name(#[trigger] segs@[i]@),
{
    if !scheme_is_http(scheme) {
        return CachePlan::NotFound;
    }
    let no_host = String::new();
    let segs = match host {
        Some(h) => cache_entry_segments(h, path),
        None => cache_entry_segments(no_host.as_str(), path),
    };
    CachePlan::Lookup(segs)
}

/// Where a request of the caching strategy stands between its outside steps.
pub enum CacheState {
    /// The cache file at these segments is being read.
    Reading(Vec<String>),
    /// The request is with the origin; its entry is at these segments.
    Fetching(Vec<String>),
    /// The decoded body is being written to the entry.
    Writing,
    /// The reply is chosen; nothing is awaited.
    Done,
}

/// The outcome of an outside step, handed back to the strategy.
pub enum CacheEvent {
    /// The entry's whole content; `None` where no regular file is there or
    /// reading it failed.
    EntryRead(Option<Vec<u8>>),
    /// The origin's response arrived whole: its `Content-Encoding` token, if
    /// any, and its body as sent.
    OriginAnswered(Option<String>, Vec<u8>),
    /// The request could not be sent or its response not received.
    OriginFailed,
    /// The entry was written (`true`) or writing it failed (`false`).
    EntryWritten(bool),
}

/// The outside step the strategy asks for next.
pub enum CacheAction {
    /// Answer `404 Not Found`.
    RespondNotFound,
    /// Read the cache file at these segments below the cache root.
    ReadEntry(Vec<String>),
    /// Answer `200 OK` with these bytes as body and no other header.
    ServeEntry(Vec<u8>),
    /// Send the request, unmodified, to its origin.
    FetchOrigin,
    /// Write these bytes as the cache file at these segments, creating its
    /// directories.
    WriteEntry(Vec<String>, Vec<u8>),
    /// Answer with the origin's response as it came: status, headers and
    /// encoded body.
    RelayOrigin,
    /// Answer with the failure to decode the origin's body.
    RejectBody(DecodeError),
    /// Fail the request as its transport failed.
    PropagateFailure,
}

/// The first step for a request: refuse it, or read its cache entry. A
/// request whose entry has no segment has no file to read, and goes to the
/// origin at once.
pub fn start_cache_request(scheme: Option<&str>, host: Option<&str>, path: &str) -> (r: (
    CacheState,
    CacheAction,
))
    ensures
        (r.0@, r.1@) == start_step(opt_view(scheme), host_or_empty(host), path@),
{
    match plan_cache_request(scheme, host, path) {
        CachePlan::NotFound => (CacheState::Done, CacheAction::RespondNotFound),
        CachePlan::Lookup(segs) => {
            if segs.len() == 0 {
                (CacheState::Fetching(segs), CacheAction::FetchOrigin)
            } else {
                let read = segs.clone();
                proof {
                    assert(read@ =~= segs@);
                }
                (CacheState::Reading(segs), CacheAction::ReadEntry(read))
            }
        },
    }
}

/// The next step after an outside one. An entry that was read is served; one
/// that is missing or unreadable sends the request to the origin. An origin
/// response has its decoded body written to the entry and is then relayed,
/// whether the write succeeded or not; a body that does not decode is
/// rejected and nothing is written; a transport failure is passed on and
/// nothing is written. An event that the state does not await ends the
/// request as a failure.
pub fn cache_step(state: CacheState, event: CacheEvent) -> (r: (CacheState, CacheAction))
    ensures
        (r.0@, r.1@) == next_step(state@, event@),
{
    match state {
        CacheState::Reading(segs) => match event {
            CacheEvent::EntryRead(Some(bytes)) => (CacheState::Done, CacheAction::ServeEntry(bytes)),
            CacheEvent::EntryRead(None) => (CacheState::Fetching(segs), CacheAction::FetchOrigin),
            _ => (CacheState::Done, CacheAction::PropagateFailure),
        },
        CacheState::Fetching(segs) => match event {
            CacheEvent::OriginFailed => (CacheState::Done, CacheAction::PropagateFailure),
            CacheEvent::OriginAnswered(token, body) => {
                let decoded = match &token {
                    Some(t) => cache_entry_body(Some(t.as_str()), body.as_slice()),
                    None => cache_entry_body(None, body.as_slice()),
                };
                match decoded {
                    Ok(bytes) => {
                        if segs.len() > 0 {
                            (CacheState::Writing, CacheAction::WriteEntry(segs, bytes))
                        } else {
                            (CacheState::Done, CacheAction::RelayOrigin)
                        }
                    },
                    Err(e) => (CacheState::Done, CacheAction::RejectBody(e)),
                }
            },
            _ => (CacheState::Done, CacheAction::PropagateFailure),
        },
        CacheState::Writing => match event {
            CacheEvent::EntryWritten(_) => (CacheState::Done, CacheAction::RelayOrigin),
            _ => (CacheState::Done, CacheAction::PropagateFailure),
        },
        CacheState::Done => (CacheState::Done, CacheAction::PropagateFailure),
    }
}

/// The view of an optional string.
pub open spec fn opt_view_string(s: Option<String>) -> Option<Seq<char>> {
    match s {
        Some(t) => Some(t@),
        None => None,
    }
}

/// The model of a request's state.
pub enum CacheStateModel {
    Reading(Seq<Seq<char>>),
    Fetching(Seq<Seq<char>>),
    Writing,
    Done,
}

/// The model of an event.
pub enum CacheEventModel {
    EntryRead(Option<Seq<u8>>),
    OriginAnswered(Option<Seq<char>>, Seq<u8>),
    OriginFailed,
    EntryWritten(bool),
}

/// The model of an action.
pub enum CacheActionModel {
    RespondNotFound,
    ReadEntry(Seq<Seq<char>>),
    ServeEntry(Seq<u8>),
    FetchOrigin,
    WriteEntry(Seq<Seq<char>>, Seq<u8>),
    RelayOrigin,
    RejectBody(DecodeError),
    PropagateFailure,
}

impl View for CacheState {
    type V = CacheStateModel;

    open spec fn view(&self) -> CacheStateModel {
        match self {
            CacheState::Reading(s) => CacheStateModel::Reading(views(s@)),
            CacheState::Fetching(s) => CacheStateModel::Fetching(views(s@)),
            CacheState::Writing => CacheStateModel::Writing,
            CacheState::Done => CacheStateModel::Done,
        }
    }
}

impl View for CacheEvent {
    type V = CacheEventModel;

    open spec fn view(&self) -> CacheEventModel {
        match self {
            CacheEvent::EntryRead(Some(b)) => CacheEventModel::EntryRead(Some(b@)),
            CacheEvent::EntryRead(None) => CacheEventModel::EntryRead(None),
            CacheEvent::OriginAnswered(t, b) => CacheEventModel::OriginAnswered(
                opt_view_string(*t),
                b@,
            ),
            CacheEvent::OriginFailed => CacheEventModel::OriginFailed,
            CacheEvent::EntryWritten(w) => CacheEventModel::EntryWritten(*w),
        }
    }
}

impl View for CacheAction {
    type V = CacheActionModel;

    open spec fn view(&self) -> CacheActionModel {
        match self {
            CacheAction::RespondNotFound => CacheActionModel::RespondNotFound,
            CacheAction::ReadEntry(s) => CacheActionModel::ReadEntry(views(s@)),
            CacheAction::ServeEntry(b) => CacheActionModel::ServeEntry(b@),
            CacheAction::FetchOrigin => CacheActionModel::FetchOrigin,
            CacheAction::WriteEntry(s, b) => CacheActionModel::WriteEntry(views(s@), b@),
            CacheAction::RelayOrigin => CacheActionModel::RelayOrigin,
            CacheAction::RejectBody(e) => CacheActionModel::RejectBody(*e),
            CacheAction::PropagateFailure => CacheActionModel::PropagateFailure,
        }
    }
}

/// The first step for a request of the given scheme, host and path.
pub open spec fn start_step(scheme: Option<Seq<char>>, host: Seq<char>, path: Seq<char>) -> (
    CacheStateModel,
    CacheActionModel,
) {
    if !is_http(scheme) {
        (CacheStateModel::Done, CacheActionModel::RespondNotFound)
    } else if cache_entry(host, path).len() == 0 {
        (CacheStateModel::Fetching(Seq::empty()), CacheActionModel::FetchOrigin)
    } else {
        (
            CacheStateModel::Reading(cache_entry(host, path)),
            CacheActionModel::ReadEntry(cache_entry(host, path)),
        )
    }
}

/// The step that follows an event in a state.
pub open spec fn next_step(state: CacheStateModel, event: CacheEventModel) -> (
    CacheStateModel,
    CacheActionModel,
) {
    match (state, event) {
        (CacheStateModel::Reading(_), CacheEventModel::EntryRead(Some(b))) => (
            CacheStateModel::Done,
            CacheActionModel::ServeEntry(b),
        ),
        (CacheStateModel::Reading(s), CacheEventModel::EntryRead(None)) => (
            CacheStateModel::Fetching(s),
            CacheActionModel::FetchOrigin,
        ),
        (CacheStateModel::Fetching(_), CacheEventModel::OriginFailed) => (
            CacheStateModel::Done,
            CacheActionModel::PropagateFailure,
        ),
        (CacheStateModel::Fetching(s), CacheEventModel::OriginAnswered(t, b)) => match decoded_for_token(b, t) {
            Ok(d) => if s.len() > 0 {
                (CacheStateModel::Writing, CacheActionModel::WriteEntry(s, d))
            } else {
                (CacheStateModel::Done, CacheActionModel::RelayOrigin)
            },
            Err(e) => (CacheStateModel::Done, CacheActionModel::RejectBody(e)),
        },
        (CacheStateModel::Writing, CacheEventModel::EntryWritten(_)) => (
            CacheStateModel::Done,
            CacheActionModel::RelayOrigin,
        ),
        _ => (CacheStateModel::Done, CacheActionModel::PropagateFailure),
    }
}

/// A first request for an entry that is not on disk: it reads the entry,
/// finds none, and goes to the origin; a gzip body is then written to the
/// entry decoded, and the origin's response is relayed as it came, whether
/// the write succeeded or not.
pub proof fn lemma_first_request_stores_decoded(
    host: Seq<char>,
    path: Seq<char>,
    body: Seq<u8>,
    plain: Seq<u8>,
    written: bool,
)
    requires
        is_plain_name(host),
        gzip_decoded(body) == Some(plain),
    ensures
        start_step(Some(http_scheme()), host, path) == (
            CacheStateModel::Reading(cache_entry(host, path)),
            CacheActionModel::ReadEntry(cache_entry(host, path)),
        ),
        next_step(CacheStateModel::Reading(cache_entry(host, path)), CacheEventModel::EntryRead(None))
            == (CacheStateModel::Fetching(cache_entry(host, path)), CacheActionModel::FetchOrigin),
        next_step(
            CacheStateModel::Fetching(cache_entry(host, path)),
            CacheEventModel::OriginAnswered(Some(gzip_token()), body),
        ) == (CacheStateModel::Writing, CacheActionModel::WriteEntry(cache_entry(host, path), plain)),
        next_step(CacheStateModel::Writing, CacheEventModel::EntryWritten(written)) == (
            CacheStateModel::Done,
            CacheActionModel::RelayOrigin,
        ),
{
    assert(cache_entry(host, path).len() > 0);
}

/// A request whose entry is on disk is answered with exactly the stored
/// bytes, and the origin is not asked.
pub proof fn lemma_stored_entry_served(host: Seq<char>, path: Seq<char>, stored: Seq<u8>)
    requires
        is_plain_name(host),
    ensures
        start_step(Some(http_scheme()), host, path) == (
            CacheStateModel::Reading(cache_entry(host, path)),
            CacheActionModel::ReadEntry(cache_entry(host, path)),
        ),
        next_step(
            CacheStateModel::Reading(cache_entry(host, path)),
            CacheEventModel::EntryRead(Some(stored)),
        ) == (CacheStateModel::Done, CacheActionModel::ServeEntry(stored)),
{
    assert(cache_entry(host, path).len() > 0);
}

} // verus!
