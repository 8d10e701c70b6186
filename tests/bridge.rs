use alaaarm::endpoints::{create_event_url, create_target, end_event_url, end_target, login_url};
use alaaarm::notification::strip_terminator;
use alaaarm::{
    Action, CameraEvent, Config, ConfigError, Event, FrameError, LoginRetry, Reply, Status, Step,
    TrackError, Tracker,
};

fn event(kind: &str, status: i32, device: &str) -> CameraEvent {
    CameraEvent {
        kind: kind.to_string(),
        status,
        time: "t1".to_string(),
        ip: "1.2.3.4".to_string(),
        device_name: device.to_string(),
    }
}

fn expect_create(a: Result<Action, TrackError>, device: &str, kind: &str) {
    match a {
        Ok(Action::Create { device: d, kind: k }) => {
            assert_eq!(d, device);
            assert_eq!(k, kind);
        }
        other => panic!("expected a create, got {:?}", other),
    }
}

fn expect_end(a: Result<Action, TrackError>, id: &str) {
    match a {
        Ok(Action::End { event_id }) => assert_eq!(event_id, id),
        other => panic!("expected an end, got {:?}", other),
    }
}

#[test]
fn alternating_pairs_create_then_end() {
    let mut t = Tracker::new();
    let cam = "cam1".to_string();
    for id in ["e1", "e2", "e3"] {
        expect_create(t.plan(&event("person", 1, "cam1")), "cam1", "person");
        assert_eq!(t.len(), 0);
        t.record_created(cam.clone(), id.to_string());
        assert_eq!(t.event_of(&cam), Some(id.to_string()));
        expect_end(t.plan(&event("person", 0, "cam1")), id);
        assert_eq!(t.len(), 0);
        assert!(!t.contains(&cam));
    }
}

#[test]
fn duplicate_start_is_ignored() {
    let mut t = Tracker::new();
    let cam = "cam1".to_string();
    t.record_created(cam.clone(), "e1".to_string());
    assert!(matches!(t.plan(&event("car", 1, "cam1")), Ok(Action::Duplicate)));
    assert_eq!(t.event_of(&cam), Some("e1".to_string()));
    assert_eq!(t.len(), 1);
}

#[test]
fn unmatched_end_is_ignored() {
    let mut t = Tracker::new();
    t.record_created("cam2".to_string(), "e9".to_string());
    assert!(matches!(t.plan(&event("person", 0, "cam1")), Ok(Action::Unmatched)));
    assert_eq!(t.len(), 1);
    assert_eq!(t.event_of(&"cam2".to_string()), Some("e9".to_string()));
}

#[test]
fn invalid_status_is_rejected() {
    let mut t = Tracker::new();
    t.record_created("cam1".to_string(), "e1".to_string());
    for code in [2, -1, 100] {
        let r = t.plan(&event("person", code, "cam1"));
        assert!(matches!(r, Err(TrackError::InvalidStatus(c)) if c == code));
        assert_eq!(t.len(), 1);
    }
    assert!(matches!(t.plan(&event("person", 7, "cam3")), Err(TrackError::InvalidStatus(7))));
    assert_eq!(t.len(), 1);
}

#[test]
fn status_codes_are_read() {
    assert_eq!(event("p", 1, "c").status_kind(), Some(Status::Started));
    assert_eq!(event("p", 0, "c").status_kind(), Some(Status::Ended));
    assert_eq!(event("p", 3, "c").status_kind(), None);
}

#[test]
fn devices_are_tracked_apart() {
    let mut t = Tracker::new();
    t.record_created("cam1".to_string(), "a".to_string());
    t.record_created("cam2".to_string(), "b".to_string());
    assert_eq!(t.len(), 2);
    expect_end(t.plan(&event("person", 0, "cam2")), "b");
    assert_eq!(t.event_of(&"cam1".to_string()), Some("a".to_string()));
    assert_eq!(t.event_of(&"cam2".to_string()), None);
    t.record_created("cam1".to_string(), "c".to_string());
    assert_eq!(t.len(), 1);
    assert_eq!(t.event_of(&"cam1".to_string()), Some("c".to_string()));
}

#[test]
fn unauthorized_then_success_logs_in_once() {
    let mut r = LoginRetry::new();
    assert_eq!(r.calls(), 1);
    assert_eq!(r.next(Event::Replied(Reply::Unauthorized)), Step::Login);
    assert_eq!(r.next(Event::LoggedIn(true)), Step::Call);
    assert_eq!(r.next(Event::Replied(Reply::Success)), Step::Succeed);
    assert_eq!(r.logins(), 1);
    assert_eq!(r.calls(), 2);
    assert!(r.is_done());
}

#[test]
fn second_unauthorized_fails_without_third_call() {
    let mut r = LoginRetry::new();
    assert_eq!(r.next(Event::Replied(Reply::Unauthorized)), Step::Login);
    assert_eq!(r.next(Event::LoggedIn(true)), Step::Call);
    assert_eq!(r.next(Event::Replied(Reply::Unauthorized)), Step::Fail);
    assert_eq!(r.next(Event::Replied(Reply::Unauthorized)), Step::Fail);
    assert_eq!(r.next(Event::LoggedIn(true)), Step::Fail);
    assert_eq!(r.calls(), 2);
    assert_eq!(r.logins(), 1);
}

#[test]
fn first_success_needs_no_login() {
    let mut r = LoginRetry::new();
    assert_eq!(r.next(Event::Replied(Reply::Success)), Step::Succeed);
    assert_eq!(r.logins(), 0);
    assert_eq!(r.calls(), 1);
}

#[test]
fn other_failure_is_not_retried() {
    let mut r = LoginRetry::new();
    assert_eq!(r.next(Event::Replied(Reply::Failure)), Step::Fail);
    assert_eq!(r.logins(), 0);
    assert_eq!(r.calls(), 1);
}

#[test]
fn failed_login_fails_the_call() {
    let mut r = LoginRetry::new();
    assert_eq!(r.next(Event::Replied(Reply::Unauthorized)), Step::Login);
    assert_eq!(r.next(Event::LoggedIn(false)), Step::Fail);
    assert_eq!(r.calls(), 1);
    assert!(r.is_done());
}

#[test]
fn end_to_end_start_and_end() {
    let mut t = Tracker::new();
    let first = b"{\"Type\":\"person\",\"Status\":1,\"Time\":\"t1\",\"IP\":\"1.2.3.4\",\"DeviceName\":\"cam1\"}\0";
    let body = strip_terminator(first).unwrap();
    assert_eq!(body, &first[..first.len() - 1]);
    expect_create(t.plan(&event("person", 1, "cam1")), "cam1", "person");
    t.record_created("cam1".to_string(), "1700000000.1-abc".to_string());
    assert_eq!(t.event_of(&"cam1".to_string()), Some("1700000000.1-abc".to_string()));

    let second = b"{\"Type\":\"person\",\"Status\":0,\"Time\":\"t2\",\"IP\":\"1.2.3.4\",\"DeviceName\":\"cam1\"}\0";
    assert!(strip_terminator(second).is_ok());
    let mut end = event("person", 0, "cam1");
    end.time = "t2".to_string();
    expect_end(t.plan(&end), "1700000000.1-abc");
    assert!(!t.contains(&"cam1".to_string()));
    assert_eq!(
        end_event_url("http://nvr/api/", "1700000000.1-abc"),
        "http://nvr/api/events/1700000000%2E1%2Dabc/end"
    );
}

#[test]
fn payload_without_terminator_is_refused() {
    let payload = b"{\"Type\":\"person\",\"Status\":1,\"Time\":\"t1\",\"IP\":\"1.2.3.4\",\"DeviceName\":\"cam1\"}";
    assert_eq!(strip_terminator(payload), Err(FrameError::MissingTerminator));
    assert_eq!(strip_terminator(b""), Err(FrameError::MissingTerminator));
    assert_eq!(strip_terminator(b"{}\0x"), Err(FrameError::MissingTerminator));
}

#[test]
fn lone_terminator_leaves_empty_body() {
    assert_eq!(strip_terminator(b"\0"), Ok(&b""[..]));
    assert_eq!(strip_terminator(b"{}\0\0"), Ok(&b"{}\0"[..]));
}

#[test]
fn create_url_encodes_segments() {
    assert_eq!(
        create_event_url("http://nvr/api/", "front door", "person"),
        "http://nvr/api/events/front%20door/person/create"
    );
    assert_eq!(
        create_event_url("http://nvr/api/", "a/b", "c?d"),
        "http://nvr/api/events/a%2Fb/c%3Fd/create"
    );
    assert_eq!(
        create_event_url("http://nvr/api/", "cam1", "person"),
        "http://nvr/api/events/cam1/person/create"
    );
}

#[test]
fn targets_from_encoded_segments() {
    assert_eq!(create_target("b/", "x%20y", "z"), "b/events/x%20y/z/create");
    assert_eq!(end_target("b/", "i%2E1"), "b/events/i%2E1/end");
    assert_eq!(end_event_url("b/", ""), "b/events//end");
    assert_eq!(login_url("http://nvr/api/"), "http://nvr/api/login");
}

#[test]
fn config_defaults_and_requirements() {
    let c = Config::from_values(
        tracing::Level::DEBUG,
        None,
        Some("http://nvr/api/".to_string()),
        Some("u".to_string()),
        Some("p".to_string()),
    )
    .ok()
    .unwrap();
    assert_eq!(c.listen_addr, "0.0.0.0:6060");
    assert_eq!(c.log_level, tracing::Level::DEBUG);
    assert_eq!(c.frigate_url, "http://nvr/api/");
    let c = Config::from_values(
        tracing::Level::INFO,
        Some("127.0.0.1:7000".to_string()),
        Some("x".to_string()),
        Some("u".to_string()),
        Some("p".to_string()),
    )
    .ok()
    .unwrap();
    assert_eq!(c.listen_addr, "127.0.0.1:7000");
    let missing = |url: bool, user: bool, pw: bool| {
        Config::from_values(
            tracing::Level::INFO,
            None,
            if url { Some("x".to_string()) } else { None },
            if user { Some("u".to_string()) } else { None },
            if pw { Some("p".to_string()) } else { None },
        )
        .err()
    };
    assert_eq!(missing(false, false, false), Some(ConfigError::MissingFrigateUrl));
    assert_eq!(missing(true, false, false), Some(ConfigError::MissingFrigateUser));
    assert_eq!(missing(true, true, false), Some(ConfigError::MissingFrigatePassword));
    assert_eq!(missing(true, true, true), None);
}

#[test]
fn failure_after_login_is_reported() {
    let mut r = LoginRetry::new();
    assert_eq!(r.next(Event::Replied(Reply::Unauthorized)), Step::Login);
    assert_eq!(r.next(Event::LoggedIn(true)), Step::Call);
    assert_eq!(r.next(Event::Replied(Reply::Failure)), Step::Fail);
    assert_eq!(r.calls(), 2);
    assert!(r.is_done());
}

#[test]
fn new_tracker_is_empty() {
    let t = Tracker::new();
    assert_eq!(t.len(), 0);
    assert!(!t.contains(&"cam1".to_string()));
    assert_eq!(t.event_of(&"cam1".to_string()), None);
}
