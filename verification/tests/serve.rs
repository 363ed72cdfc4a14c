use ruuvi_exporter::serve::{
    four_oh_four, prometheus_to_response, redirect, route, sensor_processor, Route, WatchAction,
    WatchEvent,
};

#[test]
fn routes() {
    assert_eq!(route("GET", "/metrics"), Route::Metrics);
    assert_eq!(route("GET", "/"), Route::Redirect);
    assert_eq!(route("POST", "/metrics"), Route::NotFound);
    assert_eq!(route("GET", "/metrics/"), Route::NotFound);
    assert_eq!(route("get", "/"), Route::NotFound);
}

#[test]
fn responses() {
    let m = prometheus_to_response(Some("a 1\n".to_string()));
    assert_eq!((m.status, m.location, m.body.as_str()), (200, None, "a 1\n"));
    let e = prometheus_to_response(None);
    assert_eq!((e.status, e.body.as_str()), (500, "Error serializing to prometheus"));
    let r = redirect();
    assert_eq!(r.status, 301);
    assert_eq!(r.location.as_deref(), Some("/metrics"));
    assert_eq!(r.body, "Go to /metrics \n");
    let n = four_oh_four();
    assert_eq!((n.status, n.location, n.body.as_str()), (404, None, ""));
}

#[test]
fn watchdog_steps() {
    assert_eq!(sensor_processor(WatchEvent::Received), WatchAction::Continue);
    assert_eq!(sensor_processor(WatchEvent::TimedOut), WatchAction::StopNoValues);
    assert_eq!(sensor_processor(WatchEvent::Closed), WatchAction::StopNoSenders);
}
