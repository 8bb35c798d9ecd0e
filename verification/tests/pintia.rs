use std::sync::Arc;
use chrono::{DateTime, Utc};
use reqwest::cookie::CookieStore;
use zju_assist::boundary::{FIRST_MILLIS, LAST_MILLIS};
use zju_assist::error::{Error, ErrorOf};
use zju_assist::json::{parse_text, Json};
use zju_assist::pintia::{has_session, CheckStep, PintiaAssist, PintiaReply, PintiaRequest};
use zju_assist::problem_sets::{RawStep, SetsEvent, SetsStage, SetsStep};
use zju_assist::request::Method;

fn refused(status: u16, status_text: &str, body: &str) -> PintiaReply {
    PintiaReply::Refused { status, status_text: status_text.to_string(), body: body.to_string() }
}

fn success(body: &str) -> PintiaReply {
    PintiaReply::Success { body: body.as_bytes().to_vec() }
}

fn logged_in() -> PintiaAssist {
    let mut assist = PintiaAssist::new();
    assist.login_reply_with("a@b.c", "pw", &success(""), true).ok().unwrap();
    assist
}

fn same_text(json: &Json, key: &str, text: &str) {
    assert_eq!(json.text_at(key), Some(text));
}

#[test]
fn a_login_sends_a_mail_address_or_a_phone_number() {
    let assist = PintiaAssist::new();
    assert!(!assist.is_login());
    let request = assist.login("a@b.c", "pw");
    assert_eq!(request.method, Method::Post);
    assert_eq!(request.url, "https://passport.pintia.cn/api/users/sessions");
    assert_eq!(request.headers[0].0, "accept");
    assert_eq!(request.headers[1].1, "https://pintia.cn");
    assert_eq!(request.headers[2].1, "https://pintia.cn/");
    let payload = request.payload.unwrap();
    same_text(&payload, "email", "a@b.c");
    same_text(&payload, "password", "pw");
    assert!(payload.get("phone").is_none());
    assert!(matches!(payload.get("rememberMe"), Some(Json::Bool(true))));
    assert!(matches!(payload.get("inMiniProgram"), Some(Json::Bool(false))));
    let payload = assist.login("13800", "pw").payload.unwrap();
    same_text(&payload, "phone", "13800");
    assert!(payload.get("email").is_none());
}

#[test]
fn a_login_is_refused_with_a_reason() {
    let mut assist = PintiaAssist::new();
    let mut words = |reply: PintiaReply| -> String {
        match assist.login_reply("u", "p", &reply) {
            Err(error) => error.message(),
            Ok(_) => panic!("a refusal"),
        }
    };
    assert!(words(refused(400, "400 Bad Request", r#"{"error": {"code": "GATEWAY_WRONG_CAPTCHA", "message": "m"}}"#)).starts_with("拼题A登录触发了人机验证"));
    assert_eq!(words(refused(415, "415 Unsupported Media Type", r#"{"error": {"message": "密码错误"}}"#)), "拼题A登录失败: 密码错误");
    assert_eq!(words(refused(500, "500 Internal Server Error", "oops")), "拼题A登录失败: HTTP 500 Internal Server Error");
    assert_eq!(words(success("{}")), "拼题A登录未返回会话 Cookie，请重试");
    assert!(!assist.is_login());
}

#[test]
fn a_login_with_a_session_cookie_succeeds() {
    let assist = logged_in();
    assert!(assist.is_login());
    assert_eq!(assist.get_account(), "a@b.c");
    assert_eq!(assist.password, "pw");
    assert!(!assist.cookie_login);
    assert!(has_session(&Some("a=1; PTASession=xyz".to_string())));
    assert!(!has_session(&Some("a=1".to_string())));
    assert!(!has_session(&None));
}

#[test]
fn a_pasted_cookie_is_cleaned_and_probed() {
    for pasted in [" abc ", "PTASession=abc", "PTASession=abc; Path=/", " abc ;x=1"] {
        let mut assist = PintiaAssist::new();
        let request: PintiaRequest = assist.login_with_cookie(pasted).ok().unwrap();
        assert_eq!(request.url, "https://pintia.cn/api/problem-sets?limit=1");
        assert!(Arc::ptr_eq(&request.jar, &assist.jar));
        let url = url::Url::parse("https://pintia.cn/").unwrap();
        assert_eq!(assist.jar.cookies(&url).unwrap().to_str().unwrap(), "PTASession=abc");
        assert!(assist.has_session_cookie());
        assert!(!assist.is_login());
        assert_eq!(assist.cookie_login_reply(&refused(429, "429 Too Many Requests", "")).ok(), Some("Cookie 登录".to_string()));
        assert!(assist.is_login() && assist.cookie_login);
    }
}

#[test]
fn a_session_cookie_must_be_the_services_own() {
    let mut assist = PintiaAssist::new();
    let site = |address: &str| url::Url::parse(address).unwrap();
    assist.jar.add_cookie_str("PTASession=xyz", &site("https://classroom.zju.edu.cn"));
    assert!(!assist.has_session_cookie());
    let refusal = assist.login_reply("a@b.c", "pw", &success(""));
    assert!(matches!(refusal, Err(ErrorOf::PintiaNoCookie)));
    assist.jar.add_cookie_str("PTASession=xyz", &site("https://pintia.cn/"));
    assert!(assist.has_session_cookie());
    assert_eq!(assist.login_reply("a@b.c", "pw", &success("")).ok(), Some("a@b.c".to_string()));
    assert!(assist.is_login());
}

#[test]
fn a_pasted_cookie_may_be_empty_or_unknown() {
    let mut assist = PintiaAssist::new();
    for pasted in ["", "  ", "PTASession=", "PTASession= ; a=b", ";"] {
        assert!(matches!(assist.login_with_cookie(pasted), Err(ErrorOf::CookieEmpty)));
    }
    assert!(!assist.has_session_cookie());
    assist.login_with_cookie("abc").ok().unwrap();
    match assist.cookie_login_reply(&refused(404, "404 Not Found", "USER_NOT_FOUND")) {
        Err(error) => assert_eq!(error.message(), "Cookie 无效或已过期"),
        Ok(_) => panic!("a refusal"),
    }
    assert!(!assist.is_login());
    assist.logout();
    assert!(!assist.has_session_cookie());
    assert_eq!(assist.get_account(), "");
}

#[test]
fn requests_keep_six_hundred_milliseconds_apart() {
    assert_eq!(PintiaAssist::throttle(0), Some(600_000_000));
    assert_eq!(PintiaAssist::throttle(599_999_999), Some(1));
    assert_eq!(PintiaAssist::throttle(600_000_000), Some(0));
    assert_eq!(PintiaAssist::throttle(600_000_001), None);
}

#[test]
fn a_check_probes_and_logs_in_again() {
    let mut assist = PintiaAssist::new();
    assert!(matches!(assist.check_login(), CheckStep::Done(Ok(None))));
    assist = logged_in();
    assert!(matches!(assist.check_login(), CheckStep::Probe(_)));
    match assist.check_probe(&success("")) {
        CheckStep::Done(Ok(Some(account))) => assert_eq!(account, "a@b.c"),
        _ => panic!("an account"),
    }
    match assist.check_probe(&refused(404, "404 Not Found", "")) {
        CheckStep::Login(request) => same_text(&request.payload.unwrap(), "email", "a@b.c"),
        _ => panic!("a login"),
    }
    assert!(matches!(assist.check_relogin(Ok("a@b.c".to_string())), Ok(Some(_))));
    assert!(assist.is_login());
    assert!(matches!(assist.check_relogin(Err(ErrorOf::Captcha)), Err(ErrorOf::Captcha)));
    assert!(!assist.is_login());
    assist = logged_in();
    assist.cookie_login = true;
    assert!(matches!(assist.check_probe(&refused(404, "", "")), CheckStep::Done(Ok(None))));
    assert!(!assist.is_login());
}

#[test]
fn problem_sets_that_end_later_are_picked() {
    let assist = logged_in();
    assert_eq!(
        PintiaAssist::active_sets(1789776000123),
        Some("{\"endAtAfter\":\"2026-09-19T00:00:00.123Z\"}".to_string())
    );
    assert_eq!(PintiaAssist::filter_after("T"), "{\"endAtAfter\":\"T\"}");
    assert_eq!(DateTime::<Utc>::MIN_UTC.timestamp_millis(), FIRST_MILLIS);
    assert_eq!(DateTime::<Utc>::MAX_UTC.timestamp_millis(), LAST_MILLIS);
    assert!(PintiaAssist::active_sets(FIRST_MILLIS).is_some());
    assert!(PintiaAssist::active_sets(LAST_MILLIS).is_some());
    assert_eq!(PintiaAssist::active_sets(FIRST_MILLIS - 1), None);
    assert_eq!(PintiaAssist::active_sets(LAST_MILLIS + 1), None);
    assert_eq!(PintiaAssist::active_sets(i64::MAX), None);
    assert!(assist.get_problem_sets(i64::MAX).is_none());
    let (filter, request) = assist.get_problem_sets(0).unwrap();
    assert_eq!(filter, "{\"endAtAfter\":\"1970-01-01T00:00:00.000Z\"}");
    assert_eq!(request.method, Method::Get);
    assert_eq!(request.url, "https://pintia.cn/api/problem-sets");
    let expected = [
        ("filter", "{\"endAtAfter\":\"1970-01-01T00:00:00.000Z\"}"),
        ("limit", "100"),
        ("order_by", "END_AT"),
        ("asc", "true"),
    ];
    assert_eq!(request.query.len(), 4);
    for (i, (name, value)) in expected.iter().enumerate() {
        assert_eq!(&request.query[i].0, name);
        assert_eq!(&request.query[i].1, value);
    }
}

fn failed(step: SetsStep) -> Error {
    match step {
        SetsStep::Done(Err(error)) => error,
        _ => panic!("a failure"),
    }
}

#[test]
fn a_request_that_came_too_early_is_sent_once_more() {
    let mut assist = logged_in();
    assert!(matches!(
        assist.get_assignments(),
        SetsStep::Send { after_secs: 0, stage: SetsStage::First, .. }
    ));
    let early = || SetsEvent::Reply(refused(429, "429 Too Many Requests", ""));
    match assist.fetch_sets_step("{}", SetsStage::First, early()) {
        SetsStep::Send { after_secs, request, stage } => {
            assert_eq!(after_secs, 3);
            assert_eq!(stage, SetsStage::FirstRetry);
            assert_eq!(request.query[0].1, "{}");
        },
        _ => panic!("one more request"),
    }
    let step = assist.fetch_sets_step("{}", SetsStage::FirstRetry, early());
    assert_eq!(failed(step).message(), "获取拼题A题集失败: HTTP 429 Too Many Requests");
    let step = assist.fetch_sets_step("{}", SetsStage::Again, early());
    assert!(matches!(step, SetsStep::Send { after_secs: 3, stage: SetsStage::AgainRetry, .. }));
    let step = assist.fetch_sets_step("{}", SetsStage::AgainRetry, early());
    assert!(matches!(failed(step), ErrorOf::ProblemSets(_)));
    assert!(matches!(failed(PintiaAssist::new().get_assignments()), ErrorOf::NotLogin));
}

#[test]
fn a_plain_question_is_sent_twice_at_most() {
    let assist = logged_in();
    let early = refused(429, "429 Too Many Requests", "");
    match assist.problem_sets_reply("f", false, &early) {
        RawStep::Retry { after_secs, request } => {
            assert_eq!(after_secs, 3);
            assert_eq!(request.query[0].1, "f");
        },
        RawStep::Done(_) => panic!("one more request"),
    }
    assert!(matches!(
        assist.problem_sets_reply("f", true, &early),
        RawStep::Done(Err(ErrorOf::ProblemSets(_)))
    ));
    match assist.problem_sets_reply("f", false, &success(r#"{"problemSets": [1]}"#)) {
        RawStep::Done(Ok(sets)) => assert_eq!(sets.len(), 1),
        _ => panic!("the sets"),
    }
}

#[test]
fn an_unknown_session_is_opened_again_if_it_can_be() {
    let mut assist = logged_in();
    let lost = || SetsEvent::Reply(refused(404, "404 Not Found", "{\"code\": \"USER_NOT_FOUND\"}"));
    match assist.fetch_sets_step("{}", SetsStage::First, lost()) {
        SetsStep::Login { request, stage: SetsStage::Login } => {
            same_text(&request.payload.unwrap(), "password", "pw");
        },
        _ => panic!("a login"),
    }
    let event = SetsEvent::LoggedIn(Ok("a@b.c".to_string()));
    let step = assist.fetch_sets_step("{}", SetsStage::Login, event);
    assert!(matches!(step, SetsStep::Send { after_secs: 0, stage: SetsStage::Again, .. }));
    let event = SetsEvent::LoggedIn(Err(ErrorOf::Captcha));
    let step = assist.fetch_sets_step("{}", SetsStage::Login, event);
    assert!(matches!(failed(step), ErrorOf::Captcha));
    let step = assist.fetch_sets_step("{}", SetsStage::Again, lost());
    assert_eq!(failed(step).message(), "pintia session expired");
    assert!(assist.is_login());
    assist.cookie_login = true;
    let step = assist.fetch_sets_step("{}", SetsStage::FirstRetry, lost());
    assert_eq!(failed(step).message(), "拼题A会话已过期，请重新登录");
    assert!(!assist.is_login());
    let event = SetsEvent::Failed("down".to_string());
    assert_eq!(failed(assist.fetch_sets_step("{}", SetsStage::First, event)).message(), "down");
}

#[test]
fn problem_sets_stand_in_the_reply() {
    let mut assist = logged_in();
    let event = SetsEvent::Reply(success(r#"{"problemSets": [{"id": "1"}, {"id": "2"}]}"#));
    match assist.fetch_sets_step("{}", SetsStage::First, event) {
        SetsStep::Done(Ok(sets)) => assert_eq!(sets.len(), 2),
        _ => panic!("the sets"),
    }
    assert_eq!(PintiaAssist::sets_reply(&success("{}")).ok().unwrap().len(), 0);
    assert!(matches!(PintiaAssist::sets_reply(&success("<")), Err(ErrorOf::NotJson(_))));
    let other = refused(404, "404 Not Found", "nothing");
    assert!(matches!(PintiaAssist::sets_reply(&other), Err(ErrorOf::ProblemSets(_))));
}

#[test]
fn what_is_due_comes_from_the_problem_sets() {
    let assist = logged_in();
    let (filter, step) = assist.get_todos(0).unwrap();
    assert_eq!(filter, "{\"endAtAfter\":\"1970-01-01T00:00:00.000Z\"}");
    assert!(matches!(step, SetsStep::Send { .. }));
    let sets = parse_text(r#"[
        {"id": "12", "name": "A", "type": "HOMEWORK", "endAt": "e1", "organizationName": "C"},
        {"id": 13, "name": "B", "type": "EXAM", "endAt": "e2"},
        {"id": "x", "type": "CONTEST", "endAt": "e3"},
        {"id": "15", "name": "D", "type": "BOOK", "endAt": "e4"},
        {"id": "16", "name": "E", "type": "HOMEWORK", "endAt": null}]"#).unwrap();
    let todos = PintiaAssist::todos_of(sets.as_array().unwrap());
    assert_eq!(todos.len(), 3);
    let expected = [
        (12, "A", "C", "e1"),
        (13, "B（考试）", "拼题A", "e2"),
        (0, "未命名题集（竞赛）", "拼题A", "e3"),
    ];
    for (todo, (id, title, course, end)) in todos.iter().zip(expected) {
        assert_eq!(todo.i64_at("id"), Some(id));
        assert_eq!(todo.i64_at("course_id"), Some(id));
        same_text(todo, "source", "pintia");
        same_text(todo, "title", title);
        same_text(todo, "course_name", course);
        same_text(todo, "end_time", end);
    }
}
