//! The HTTP side of the exporter: which page a request asks for and what is answered.
use vstd::prelude::*;

use crate::text::text_eq;

verus! {

/// The page that a request asks for.
#[derive(PartialEq, Eq, Structural, Clone, Copy, Debug)]
pub enum Route {
    /// `GET /metrics`: the metrics in the Prometheus text format.
    Metrics,
    /// `GET /`: a redirect to `/metrics`.
    Redirect,
    /// Anything else.
    NotFound,
}

/// The page that a request with the given method and path asks for.
pub fn route(method: &str, path: &str) -> (r: Route)
    ensures
        r == if method@ == "GET"@ && path@ == "/metrics"@ {
            Route::Metrics
        } else if method@ == "GET"@ && path@ == "/"@ {
            Route::Redirect
        } else {
            Route::NotFound
        },
{
    if text_eq(method, "GET") {
        if text_eq(path, "/metrics") {
            return Route::Metrics;
        }
        if text_eq(path, "/") {
            return Route::Redirect;
        }
    }
    Route::NotFound
}

/// What an HTTP response holds: its status, its `Location` header if any, and its body.
pub struct ResponsePlan {
    pub status: u16,
    pub location: Option<String>,
    pub body: String,
}

/// The answer to `GET /metrics`, given the metrics encoded in the text format, or `None`
/// where encoding failed: the text with status 200, or status 500 with
/// `Error serializing to prometheus`.
pub fn prometheus_to_response(encoded: Option<String>) -> (r: ResponsePlan)
    ensures
        match encoded {
            Some(text) => r.status == 200 && r.location is None && r.body@ == text@,
            None => r.status == 500 && r.location is None && r.body@
                == "Error serializing to prometheus"@,
        },
{
    match encoded {
        Some(text) => ResponsePlan { status: 200, location: None, body: text },
        None => ResponsePlan {
            status: 500,
            location: None,
            body: "Error serializing to prometheus".to_owned(),
        },
    }
}

/// The answer to `GET /`: status 301 to `/metrics`, with a short note as body.
pub fn redirect() -> (r: ResponsePlan)
    ensures
        r.status == 301,
        r.location matches Some(l) && l@ == "/metrics"@,
        r.body@ == "Go to /metrics \n"@,
{
    ResponsePlan {
        status: 301,
        location: Some("/metrics".to_owned()),
        body: "Go to /metrics \n".to_owned(),
    }
}

/// The answer to any other request: status 404 with an empty body.
pub fn four_oh_four() -> (r: ResponsePlan)
    ensures
        r.status == 404,
        r.location is None,
        r.body@ == Seq::<char>::empty(),
{
    ResponsePlan { status: 404, location: None, body: String::new() }
}

/// What the sensor watchdog sees while it waits for the next reading.
#[derive(PartialEq, Eq, Structural, Clone, Copy, Debug)]
pub enum WatchEvent {
    /// No reading came within the timeout.
    TimedOut,
    /// A reading came.
    Received,
    /// No sender is left.
    Closed,
}

/// What the watchdog does next.
#[derive(PartialEq, Eq, Structural, Clone, Copy, Debug)]
pub enum WatchAction {
    /// Wait for the next reading.
    Continue,
    /// Stop: no new values within the timeout.
    StopNoValues,
    /// Stop: no data-emitting tasks left.
    StopNoSenders,
}

/// The watchdog's step: it keeps waiting while readings come, and stops on a timeout or
/// when no sender is left.
pub fn sensor_processor(event: WatchEvent) -> (r: WatchAction)
    ensures
        event == WatchEvent::Received <==> r == WatchAction::Continue,
        event == WatchEvent::TimedOut <==> r == WatchAction::StopNoValues,
        event == WatchEvent::Closed <==> r == WatchAction::StopNoSenders,
{
    match event {
        WatchEvent::TimedOut => WatchAction::StopNoValues,
        WatchEvent::Received => WatchAction::Continue,
        WatchEvent::Closed => WatchAction::StopNoSenders,
    }
}

/// Seconds that the watchdog waits for a reading.
pub const WATCH_TIMEOUT_SECS: u64 = 120;

} // verus!
