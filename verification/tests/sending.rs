use zju_assist::error::ErrorOf;
use zju_assist::request::{Method, Route, SendStep, MAX_ATTEMPTS};
use zju_assist::zju_assist::ZjuAssist;

#[test]
fn a_request_names_its_agent_and_goes_by_the_default_way_first() {
    let assist = ZjuAssist::new();
    let request = assist.post("https://courses.zju.edu.cn/");
    assert_eq!(request.method, Method::Post);
    assert_eq!(request.url, "https://courses.zju.edu.cn/");
    assert_eq!(request.headers.len(), 1);
    assert_eq!(request.headers[0].0, "user-agent");
    assert!(request.headers[0].1.starts_with("Mozilla/5.0"));
    assert!(request.form.is_none());
    assert!(request.through_proxy(Route::First));
    assert!(!request.through_proxy(Route::Second));
}

#[test]
fn headers_of_the_same_name_are_replaced() {
    let mut request = ZjuAssist::new().get("https://h/");
    request.headers(vec![("a".to_string(), "1".to_string()), ("b".to_string(), "2".to_string())]);
    request.headers(vec![("b".to_string(), "3".to_string()), ("user-agent".to_string(), "x".to_string())]);
    let expected = [("a", "1"), ("b", "3"), ("user-agent", "x")];
    assert_eq!(request.headers.len(), 3);
    for (i, (name, value)) in expected.iter().enumerate() {
        assert_eq!(&request.headers[i].0, name);
        assert_eq!(&request.headers[i].1, value);
    }
    request.form(vec![("k".to_string(), "v".to_string())]);
    assert_eq!(request.form.unwrap().len(), 1);
}

#[test]
fn a_request_that_fails_is_sent_six_times_three_by_each_route() {
    let request = ZjuAssist::new().get("https://h/");
    let mut flow = request.send();
    assert_eq!(request.first_route(), Route::First);
    let mut routes = vec![request.first_route()];
    let mut waits = vec![];
    while let SendStep::Retry { after_ms, route } = flow.next(true) {
        routes.push(route);
        waits.push(after_ms);
    }
    assert_eq!(routes.len() as u64, MAX_ATTEMPTS);
    assert_eq!(routes.iter().filter(|r| **r == Route::First).count(), 3);
    assert_eq!(routes[1], Route::Second);
    assert_eq!(routes[5], Route::Second);
    assert_eq!(waits, vec![100, 200, 400, 800, 1600]);
}

#[test]
fn a_request_that_succeeds_is_not_sent_again() {
    let request = ZjuAssist::new().get("https://h/");
    let mut flow = request.send();
    assert!(matches!(flow.next(true), SendStep::Retry { after_ms: 100, route: Route::Second }));
    assert!(matches!(flow.next(false), SendStep::Stop));
}

#[test]
fn a_proxy_is_set_only_if_its_address_parses() {
    let mut assist = ZjuAssist::new();
    assert!(assist.set_custom_proxy(Some("http://127.0.0.1:7890".to_string())).is_ok());
    assert_eq!(assist.get_custom_proxy(), Some("http://127.0.0.1:7890".to_string()));
    match assist.set_custom_proxy(Some("http://[".to_string())) {
        Err(ErrorOf::InvalidProxy { url, reason }) => {
            assert_eq!(url, "http://[");
            assert!(!reason.is_empty());
        },
        _ => panic!("a refusal"),
    }
    assert_eq!(assist.get_custom_proxy(), Some("http://127.0.0.1:7890".to_string()));
    assert_eq!(assist.get("https://h/").custom_proxy, Some("http://127.0.0.1:7890".to_string()));
    assert!(assist.can_connect().is_ok());
    assist.custom_proxy = Some("http://[".to_string());
    assert!(matches!(assist.can_connect(), Err(ErrorOf::InvalidProxy { .. })));
    assert!(assist.set_custom_proxy(None).is_ok());
    assert_eq!(assist.get_custom_proxy(), None);
}

#[test]
fn a_new_session_is_logged_out() {
    let mut assist = ZjuAssist::new();
    assert!(!assist.is_login());
    assert_eq!(assist.get_username(), "");
    assist.have_login = true;
    assist.username = "3210000000".to_string();
    assert_eq!(assist.get_username(), "3210000000");
    assist.logout();
    assert!(!assist.is_login());
    assert_eq!(assist.get_username(), "");
}
