use zju_assist::capture::LiveTranscriptStore;
use zju_assist::classroom::RangeStep;
use zju_assist::error::ErrorOf;
use zju_assist::login::{token_of_cookies, LoginEvent, LoginFlow, LoginStep, Way};
use zju_assist::request::{Method, ZjuRequestBuilder};
use zju_assist::zju_assist::ZjuAssist;

const PAGE: &str = r#"<title>统一身份认证平台</title><input type="hidden" name="execution" value="e1s1" /><input type="hidden" name="execution" value="e2" />"#;

fn sent(step: LoginStep) -> (ZjuRequestBuilder, LoginFlow) {
    match step {
        LoginStep::Send { request, flow } => (request, flow),
        _ => panic!("a request"),
    }
}

fn submitted(assist: &mut ZjuAssist) -> LoginFlow {
    let (request, flow) = sent(assist.login("user", "pass"));
    assert_eq!(request.url, "https://zjuam.zju.edu.cn/cas/login");
    let (request, flow) = sent(assist.login_step(flow, LoginEvent::Page(PAGE.to_string())));
    assert_eq!(request.url, "https://zjuam.zju.edu.cn/cas/v2/getPubKey");
    let key = br#"{"modulus": "ab12", "exponent": "10001"}"#.to_vec();
    let (request, flow) = sent(assist.login_step(flow, LoginEvent::Key(key)));
    assert_eq!(request.method, Method::Post);
    let form = request.form.unwrap();
    let expected = [
        ("username", "user"),
        ("password", "975d"),
        ("execution", "e1s1"),
        ("_eventId", "submit"),
        ("authcode", ""),
    ];
    assert_eq!(form.len(), expected.len());
    for (i, (name, value)) in expected.iter().enumerate() {
        assert_eq!(&form[i].0, name);
        assert_eq!(&form[i].1, value);
    }
    flow
}

#[test]
fn a_login_visits_the_services_and_remembers_the_account() {
    let mut assist = ZjuAssist::new();
    let flow = submitted(&mut assist);
    let (request, flow) = sent(assist.login_step(flow, LoginEvent::Page("welcome".to_string())));
    assert_eq!(request.url, "https://courses.zju.edu.cn/user/courses");
    let (request, flow) = sent(assist.login_step(flow, LoginEvent::Visited));
    assert!(request.url.starts_with("https://tgmedia.cmc.zju.edu.cn/"));
    assert!(!assist.is_login());
    let (request, flow) = sent(assist.login_step(flow, LoginEvent::Visited));
    assert_eq!(request.method, Method::Post);
    assert!(request.url.starts_with("https://zjuam.zju.edu.cn/cas/login?service=https://zdbk"));
    assert!(matches!(assist.login_step(flow, LoginEvent::Visited), LoginStep::Done(Ok(()))));
    assert!(assist.is_login());
    assert_eq!(assist.get_username(), "user");
    assert_eq!(assist.password, "pass");
    assert!(matches!(assist.login("other", "x"), LoginStep::Done(Ok(()))));
}

#[test]
fn a_wrong_password_shows_the_login_page_again() {
    let mut assist = ZjuAssist::new();
    let flow = submitted(&mut assist);
    let step = assist.login_step(flow, LoginEvent::Page(PAGE.to_string()));
    match step {
        LoginStep::Done(Err(error)) => {
            assert_eq!(error.message(), "Login failed: Wrong username or password");
        },
        _ => panic!("a refusal"),
    }
    assert!(!assist.is_login());
}

#[test]
fn a_page_that_is_not_the_login_page_is_asked_for_once_more() {
    let mut assist = ZjuAssist::new();
    let (_, flow) = sent(assist.login("user", "pass"));
    let (request, flow) = sent(assist.login_step(flow, LoginEvent::Page("portal".to_string())));
    assert_eq!(request.url, "https://zjuam.zju.edu.cn/cas/login");
    let step = assist.login_step(flow, LoginEvent::Page("portal".to_string()));
    assert!(matches!(step, LoginStep::Done(Err(ErrorOf::LoginPageMissing))));
}

#[test]
fn a_login_needs_the_execution_value_and_the_key() {
    let mut assist = ZjuAssist::new();
    let (_, flow) = sent(assist.login("user", "pass"));
    let step = assist.login_step(flow, LoginEvent::Page("统一身份认证平台".to_string()));
    assert!(matches!(step, LoginStep::Done(Err(ErrorOf::ExecutionNotFound))));

    let replies: [(&[u8], &str); 4] = [
        (b"{}", "Modulus not found"),
        (br#"{"modulus": "1"}"#, "Exponent not found"),
        (br#"{"modulus": "xyz", "exponent": "3"}"#, "the reply lacks a part that it must have"),
        (b"<", "error decoding response body"),
    ];
    for (reply, words) in replies {
        let (_, flow) = sent(assist.login("user", "pass"));
        let (_, flow) = sent(assist.login_step(flow, LoginEvent::Page(PAGE.to_string())));
        match assist.login_step(flow, LoginEvent::Key(reply.to_vec())) {
            LoginStep::Done(Err(error)) => assert_eq!(error.message(), words),
            _ => panic!("a refusal"),
        }
    }
    let (_, flow) = sent(assist.login("user", "pass"));
    match assist.login_step(flow, LoginEvent::Failed("no route".to_string())) {
        LoginStep::Done(Err(ErrorOf::Failed(words))) => assert_eq!(words, "no route"),
        _ => panic!("a failure"),
    }
}

#[test]
fn a_repeated_login_that_fails_restores_the_session() {
    let mut assist = ZjuAssist::new();
    assert!(matches!(assist.relogin(), Err(ErrorOf::NotLogin)));
    assist.have_login = true;
    assist.username = "user".to_string();
    assist.password = "pass".to_string();
    let jar = assist.jar.clone();
    let (saved, step) = match assist.relogin() {
        Ok(start) => start,
        Err(_) => panic!("a start"),
    };
    assert!(!assist.is_login());
    let (_, flow) = sent(step);
    let step = assist.relogin_step(&saved, flow, LoginEvent::Failed("down".to_string()));
    assert!(matches!(step, LoginStep::Done(Err(ErrorOf::Failed(_)))));
    assert!(assist.is_login());
    assert_eq!(assist.get_username(), "user");
    assert_eq!(assist.password, "pass");
    assert!(std::sync::Arc::ptr_eq(&jar, &assist.jar));
}

#[test]
fn the_token_is_found_among_encoded_cookies() {
    let cookies = "sid=1; _token=abc%7Bi%3A0%3Bs%3A6%3A%22_token%22%3Bi%3A1%3Bs%3A5%3A%22ey.Jh%22%3B%7D";
    assert_eq!(token_of_cookies(Some(cookies.to_string())).ok(), Some("ey.Jh".to_string()));
    let plain = r#"{i:0;s:6:"_token";i:1;s:3:"t0k";}"#;
    assert_eq!(token_of_cookies(Some(plain.to_string())).ok(), Some("t0k".to_string()));
    assert!(matches!(token_of_cookies(Some("sid=1".to_string())), Err(ErrorOf::TokenNotFound)));
    assert!(matches!(token_of_cookies(None), Err(ErrorOf::TokenNotFound)));
}

const TOKEN_COOKIE: &str =
    "_token=abc%7Bi%3A0%3Bs%3A6%3A%22_token%22%3Bi%3A1%3Bs%3A5%3A%22ey.Jh%22%3B%7D";

fn with_cookie(site: &str) -> ZjuAssist {
    let mut assist = ZjuAssist::new();
    assist.have_login = true;
    assist.username = "user".to_string();
    assist.jar.add_cookie_str(TOKEN_COOKIE, &url::Url::parse(site).unwrap());
    assist
}

#[test]
fn the_token_is_read_from_the_jar() {
    let mut assist = with_cookie("https://classroom.zju.edu.cn");
    assert_eq!(assist.get_token().ok(), Some("ey.Jh".to_string()));
    assert!(matches!(assist.keep_classroom_alive(), Ok(None)));
    assert!(assist.is_login());
    let request = assist.get_month_subs("2024-03").ok().unwrap();
    assert!(request.url.ends_with("get-my-course-month?month=2024-03"));
    assert_eq!(request.headers[1].1, "Bearer ey.Jh");
    match assist.get_range_subs("2024-03-01", "2024-03-02") {
        RangeStep::Send { request, .. } => assert_eq!(request.headers[1].1, "Bearer ey.Jh"),
        _ => panic!("a request"),
    }
    let (request, query) = assist.get_course_subs(5).ok().unwrap();
    assert_eq!(request.headers[1].1, "Bearer ey.Jh");
    assert_eq!(query.token, "ey.Jh");
    let (_, words) = assist.search_courses("a", "b").ok().unwrap();
    assert_eq!((words.token.as_str(), words.course_name.as_str()), ("ey.Jh", "a"));
    let request = assist.get_trans_socket_url(9).ok().unwrap();
    assert_eq!(request.headers[1].1, "Bearer ey.Jh");
    let mut store = LiveTranscriptStore::new();
    let start = assist.start_live_transcript_capture(&mut store, 9, 7).ok().unwrap();
    assert_eq!(start.request.ok().unwrap().headers[1].1, "Bearer ey.Jh");
}

#[test]
fn the_token_of_another_site_is_not_taken() {
    for site in ["https://pintia.cn/", "https://courses.zju.edu.cn"] {
        let assist = with_cookie(site);
        assert!(matches!(assist.get_token(), Err(ErrorOf::TokenNotFound)));
        assert!(matches!(assist.get_month_subs("2024-03"), Err(ErrorOf::TokenNotFound)));
    }
    let mut assist = with_cookie("https://classroom.zju.edu.cn");
    assist.logout();
    assist.have_login = true;
    assert!(matches!(assist.get_token(), Err(ErrorOf::TokenNotFound)));
}

#[test]
fn a_session_starts_afresh_only_without_the_login_page() {
    let mut assist = ZjuAssist::new();
    let jar = assist.jar.clone();
    let (_, flow) = sent(assist.login("user", "pass"));
    let (_, flow) = sent(assist.login_step(flow, LoginEvent::Page(PAGE.to_string())));
    assert!(std::sync::Arc::ptr_eq(&jar, &assist.jar));
    assist.login_step(flow, LoginEvent::Failed("down".to_string()));
    assert!(std::sync::Arc::ptr_eq(&jar, &assist.jar));
    let (_, flow) = sent(assist.login("user", "pass"));
    let (_, flow) = sent(assist.login_step(flow, LoginEvent::Page("portal".to_string())));
    assert!(!std::sync::Arc::ptr_eq(&jar, &assist.jar));
    assist.login_step(flow, LoginEvent::Page("portal".to_string()));
    assert!(!assist.is_login());
    assert_eq!(assist.get_username(), "");
    assert_eq!(assist.password, "");
}

#[test]
fn a_session_without_a_token_logs_in_again() {
    let mut assist = ZjuAssist::new();
    assert!(matches!(assist.get_token(), Err(ErrorOf::NotLogin)));
    assert!(matches!(assist.keep_classroom_alive(), Err(ErrorOf::NotLogin)));
    assist.have_login = true;
    assist.username = "user".to_string();
    assert!(matches!(assist.get_token(), Err(ErrorOf::TokenNotFound)));
    assert!(matches!(assist.renew_without_token(&Ok("t".to_string())), Ok(None)));
    assert!(assist.is_login());
    match assist.keep_classroom_alive() {
        Ok(Some((saved, LoginStep::Send { .. }))) => assert_eq!(saved.username, "user"),
        _ => panic!("a login"),
    }
    assert!(!assist.is_login());
}

#[test]
fn the_faster_way_to_the_network_is_taken_first() {
    let mut assist = ZjuAssist::new();
    assert_eq!(assist.first_connection(Way::NoProxy, true), None);
    assert!(!assist.proxy_first);
    assert_eq!(assist.first_connection(Way::Default, false), Some(Way::NoProxy));
    assert_eq!(assist.first_connection(Way::NoProxy, false), Some(Way::Default));
    assert_eq!(assist.first_connection(Way::Default, true), None);
    assert!(assist.proxy_first);
    for (default, no_proxy, first) in [
        (None, Some(9), false),
        (Some(9), None, true),
        (Some(3), Some(4), true),
        (Some(4), Some(4), false),
    ] {
        assert!(assist.test_connection(default, no_proxy).is_ok());
        assert_eq!(assist.proxy_first, first);
    }
    assert!(matches!(assist.test_connection(None, None), Err(ErrorOf::ConnectionFailed)));
}
