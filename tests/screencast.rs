use screencast_portal::screencast::{BackendError, ScreenCast, INTERFACE_VERSION};
use screencast_portal::session::{
    SelectSourcesOptions, SessionData, SourceSelection, CURSOR_MODE_HIDDEN, PORTAL_RESPONSE_OTHER,
    PORTAL_RESPONSE_SUCCESS, SOURCE_TYPE_MONITOR, SOURCE_TYPE_VIRTUAL, SOURCE_TYPE_WINDOW,
};

fn handle(s: &str) -> String {
    s.to_string()
}

#[test]
fn create_then_start_reports_stream() {
    let mut sc: ScreenCast<&'static str> = ScreenCast::new();
    let (status, res) = sc.create_session(handle("/s1")).unwrap();
    assert_eq!(status, PORTAL_RESPONSE_SUCCESS);
    assert!(!res.session_id.is_empty());
    let selection = sc.begin_start(&handle("/s1")).ok().unwrap();
    assert_eq!(selection, SourceSelection::new());
    let out = sc.finish_start(&handle("/s1"), Ok((Some(42), "stop-42")));
    assert_eq!(out.status, PORTAL_RESPONSE_SUCCESS);
    assert_eq!(out.result.streams, vec![42]);
    assert_eq!(out.result.persist_mode, None);
    assert!(out.stop.is_none());
    // the stored handle comes back on close, exactly once
    assert_eq!(sc.close_session(&handle("/s1")), Some("stop-42"));
    assert_eq!(sc.close_session(&handle("/s1")), None);
}

#[test]
fn close_before_backend_result_fails_start_and_stops_stream() {
    let mut sc: ScreenCast<u32> = ScreenCast::new();
    let (status, _) = sc.create_session(handle("/s2")).unwrap();
    assert_eq!(status, PORTAL_RESPONSE_SUCCESS);
    assert!(sc.begin_start(&handle("/s2")).is_ok());
    assert_eq!(sc.close_session(&handle("/s2")), None);
    let out = sc.finish_start(&handle("/s2"), Ok((Some(7), 7)));
    assert_eq!(out.status, PORTAL_RESPONSE_OTHER);
    assert!(out.result.streams.is_empty());
    // one stop signal for endpoint 7, none afterwards
    assert_eq!(out.stop, Some(7));
    assert_eq!(sc.close_session(&handle("/s2")), None);
    let d = sc.lookup(&handle("/s2")).unwrap();
    assert!(d.closed);
    assert!(d.stop_handle.is_none());
}

#[test]
fn start_unknown_handle_fails_without_registering() {
    let mut sc: ScreenCast<u32> = ScreenCast::new();
    sc.create_session(handle("/known")).unwrap();
    match sc.begin_start(&handle("/unknown")) {
        Err((status, res)) => {
            assert_eq!(status, PORTAL_RESPONSE_OTHER);
            assert!(res.streams.is_empty());
            assert_eq!(res.persist_mode, None);
        }
        Ok(_) => panic!("unknown handle started"),
    }
    let out = sc.finish_start(&handle("/unknown"), Ok((Some(3), 3)));
    assert_eq!(out.status, PORTAL_RESPONSE_OTHER);
    assert!(out.result.streams.is_empty());
    assert_eq!(out.stop, Some(3));
    // the unknown handle is still unknown, the known one untouched
    assert!(sc.begin_start(&handle("/unknown")).is_err());
    assert!(sc.lookup(&handle("/unknown")).is_none());
    assert_eq!(sc.len(), 1);
    assert_eq!(sc.select_sources(&handle("/known"), &no_options()), PORTAL_RESPONSE_SUCCESS);
    // the registry did not grow: the next id follows the one session
    assert_eq!(sc.create_session(handle("/next")).unwrap().1.session_id, "1");
}

fn no_options() -> SelectSourcesOptions {
    SelectSourcesOptions { types: None, multiple: None, persist_mode: None }
}

#[test]
fn sessions_are_independent() {
    let mut sc: ScreenCast<u32> = ScreenCast::new();
    for h in ["/a", "/b", "/c"] {
        assert_eq!(sc.create_session(handle(h)).unwrap().0, PORTAL_RESPONSE_SUCCESS);
    }
    assert_eq!(sc.len(), 3);
    for h in ["/a", "/b", "/c"] {
        let d = sc.lookup(&handle(h)).unwrap();
        assert!(!d.closed);
        assert!(d.stop_handle.is_none());
        assert_eq!(d.selection, SourceSelection::new());
    }
    assert_eq!(sc.finish_start(&handle("/b"), Ok((Some(5), 50))).status, PORTAL_RESPONSE_SUCCESS);
    assert_eq!(sc.close_session(&handle("/a")), None);
    // closing /a did not touch /b or /c
    assert_eq!(sc.finish_start(&handle("/c"), Ok((Some(6), 60))).status, PORTAL_RESPONSE_SUCCESS);
    assert!(sc.lookup(&handle("/a")).unwrap().closed);
    assert!(!sc.lookup(&handle("/b")).unwrap().closed);
    assert_eq!(sc.lookup(&handle("/b")).unwrap().stop_handle, Some(50));
    assert_eq!(sc.close_session(&handle("/b")), Some(50));
    assert_eq!(sc.close_session(&handle("/c")), Some(60));
}

#[test]
fn start_unknown_keeps_registry_size() {
    let mut sc: ScreenCast<u32> = ScreenCast::default();
    assert_eq!(sc.len(), 0);
    let before = sc.len();
    match sc.begin_start(&handle("/unknown")) {
        Err((status, res)) => {
            assert_eq!(status, 2);
            assert_eq!(res.streams, Vec::<u32>::new());
        }
        Ok(_) => panic!("unknown handle started"),
    }
    assert_eq!(sc.len(), before);
}

#[test]
fn session_ids_are_minted_in_decimal() {
    let mut sc: ScreenCast<u32> = ScreenCast::new();
    let mut ids = Vec::new();
    for i in 0..12 {
        let h = format!("/session/{}", i);
        ids.push(sc.create_session(h).unwrap().1.session_id);
    }
    assert_eq!(ids[0], "0");
    assert_eq!(ids[9], "9");
    assert_eq!(ids[10], "10");
    assert_eq!(ids[11], "11");
}

#[test]
fn duplicate_handle_is_refused() {
    let mut sc: ScreenCast<u32> = ScreenCast::new();
    assert!(sc.create_session(handle("/dup")).is_ok());
    assert!(sc.finish_start(&handle("/dup"), Ok((Some(1), 10))).stop.is_none());
    assert!(sc.create_session(handle("/dup")).is_err());
    // the first session is kept as it was
    assert_eq!(sc.close_session(&handle("/dup")), Some(10));
}

#[test]
fn close_twice_equals_close_once() {
    let mut s: SessionData<u32> = SessionData::new();
    s.stop_handle = Some(9);
    assert_eq!(s.close(), Some(9));
    assert!(s.closed);
    assert_eq!(s.close(), None);
    assert!(s.closed);
    assert!(s.stop_handle.is_none());
}

#[test]
fn close_unknown_handle_is_a_no_op() {
    let mut sc: ScreenCast<u32> = ScreenCast::new();
    assert_eq!(sc.close_session(&handle("/nothing")), None);
    assert!(sc.begin_start(&handle("/nothing")).is_err());
}

#[test]
fn backend_failure_leaves_session_open() {
    let mut sc: ScreenCast<u32> = ScreenCast::new();
    sc.create_session(handle("/f")).unwrap();
    let out = sc.finish_start(&handle("/f"), Err(BackendError));
    assert_eq!(out.status, PORTAL_RESPONSE_OTHER);
    assert!(out.result.streams.is_empty());
    assert!(out.stop.is_none());
    // still open: a retry can succeed
    let out = sc.finish_start(&handle("/f"), Ok((Some(11), 110)));
    assert_eq!(out.status, PORTAL_RESPONSE_SUCCESS);
    assert_eq!(out.result.streams, vec![11]);
}

#[test]
fn backend_without_endpoint_fails_and_stops_worker() {
    let mut sc: ScreenCast<u32> = ScreenCast::new();
    sc.create_session(handle("/n")).unwrap();
    let out = sc.finish_start(&handle("/n"), Ok((None, 12)));
    assert_eq!(out.status, PORTAL_RESPONSE_OTHER);
    assert!(out.result.streams.is_empty());
    assert_eq!(out.stop, Some(12));
    assert_eq!(sc.close_session(&handle("/n")), None);
}

#[test]
fn second_start_replaces_and_stops_previous_stream() {
    let mut sc: ScreenCast<u32> = ScreenCast::new();
    sc.create_session(handle("/r")).unwrap();
    assert!(sc.finish_start(&handle("/r"), Ok((Some(1), 100))).stop.is_none());
    let out = sc.finish_start(&handle("/r"), Ok((Some(2), 200)));
    assert_eq!(out.status, PORTAL_RESPONSE_SUCCESS);
    assert_eq!(out.result.streams, vec![2]);
    assert_eq!(out.stop, Some(100));
    assert_eq!(sc.close_session(&handle("/r")), Some(200));
}

#[test]
fn select_sources_records_last_selection() {
    let mut sc: ScreenCast<u32> = ScreenCast::new();
    sc.create_session(handle("/sel")).unwrap();
    let first = SelectSourcesOptions { types: Some(SOURCE_TYPE_WINDOW), multiple: Some(true), persist_mode: Some(2) };
    assert_eq!(sc.select_sources(&handle("/sel"), &first), PORTAL_RESPONSE_SUCCESS);
    let second = SelectSourcesOptions { types: Some(SOURCE_TYPE_VIRTUAL), multiple: None, persist_mode: None };
    assert_eq!(sc.select_sources(&handle("/sel"), &second), PORTAL_RESPONSE_SUCCESS);
    let selection = sc.begin_start(&handle("/sel")).ok().unwrap();
    assert_eq!(selection, SourceSelection { types: SOURCE_TYPE_VIRTUAL, multiple: false, persist_mode: 0 });
}

#[test]
fn select_sources_defaults() {
    let s = SourceSelection::from_options(&no_options());
    assert_eq!(s, SourceSelection { types: SOURCE_TYPE_MONITOR, multiple: false, persist_mode: 0 });
}

#[test]
fn select_sources_refused_after_start_close_or_unknown() {
    let mut sc: ScreenCast<u32> = ScreenCast::new();
    assert_eq!(sc.select_sources(&handle("/x"), &no_options()), PORTAL_RESPONSE_OTHER);
    sc.create_session(handle("/x")).unwrap();
    sc.finish_start(&handle("/x"), Ok((Some(4), 40)));
    assert_eq!(sc.select_sources(&handle("/x"), &no_options()), PORTAL_RESPONSE_OTHER);
    sc.create_session(handle("/y")).unwrap();
    sc.close_session(&handle("/y"));
    assert_eq!(sc.select_sources(&handle("/y"), &no_options()), PORTAL_RESPONSE_OTHER);
}

#[test]
fn properties_are_constant() {
    let mut sc: ScreenCast<u32> = ScreenCast::new();
    let before = (sc.available_source_types(), sc.available_cursor_modes(), sc.version());
    sc.create_session(handle("/p")).unwrap();
    sc.finish_start(&handle("/p"), Ok((Some(8), 80)));
    sc.close_session(&handle("/p"));
    let after = (sc.available_source_types(), sc.available_cursor_modes(), sc.version());
    assert_eq!(before, after);
    assert_eq!(before, (SOURCE_TYPE_MONITOR, CURSOR_MODE_HIDDEN, 4));
    assert_eq!(INTERFACE_VERSION, 4);
}
