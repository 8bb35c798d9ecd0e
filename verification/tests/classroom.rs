use chrono::{Datelike, NaiveDate};
use zju_assist::boundary::{FIRST_DAY, LAST_DAY};
use zju_assist::classroom::{course_subjects, day_subjects, month_subjects, RangeFlow, RangeStep};
use zju_assist::error::ErrorOf;
use zju_assist::json::parse_text;
use zju_assist::model::Subject;
use zju_assist::search::{SearchFlow, SearchStep, SearchWords};
use zju_assist::zju_assist::ZjuAssist;

fn logged_in() -> ZjuAssist {
    let mut assist = ZjuAssist::new();
    assist.have_login = true;
    assist
}

const LECTURE: &str = r#"{"id": "11", "title": "A/B", "sub_id": "22", "sub_title": "1/2", "realname": "T", "start_at": "1700000000", "room": 305, "tenant_code": "112"}"#;

fn check_lecture(subject: &Subject) {
    assert_eq!(subject.course_id, 11);
    assert_eq!(subject.course_name, "A_B");
    assert_eq!(subject.sub_id, 22);
    assert_eq!(subject.sub_name, "1_2");
    assert_eq!(subject.lecturer_name, "T");
    assert_eq!(subject.path, "");
    assert!(subject.ppt_image_urls.is_empty());
    assert_eq!(subject.start_at, Some(1700000000));
    assert_eq!(subject.room.as_deref(), Some("305"));
    assert_eq!(subject.tenant_code.as_deref(), Some("112"));
    assert_eq!(subject.sub_public, None);
}

#[test]
fn a_month_lists_its_days() {
    let body = format!(r#"{{"list": [{{"course": [{}]}}, {{"course": []}}, {{"course": [{}]}}]}}"#, LECTURE, LECTURE);
    let subjects = ZjuAssist::month_subs(body.as_bytes()).ok().unwrap();
    assert_eq!(subjects.len(), 2);
    check_lecture(&subjects[1]);
    assert!(matches!(ZjuAssist::month_subs(b"{}"), Err(ErrorOf::Malformed)));
    assert!(matches!(ZjuAssist::month_subs(b""), Err(ErrorOf::NotJson(_))));
    let broken = parse_text(r#"{"list": [{"course": [{"id": "x"}]}]}"#).unwrap();
    assert!(month_subjects(&broken).is_none());
}

#[test]
fn a_day_may_have_no_lectures() {
    let json = parse_text(r#"{"list": []}"#).unwrap();
    assert_eq!(day_subjects(&json).unwrap().len(), 0);
    let json = parse_text(&format!(r#"{{"list": {{"3": {{"course": [{}]}}}}}}"#, LECTURE)).unwrap();
    check_lecture(&day_subjects(&json).unwrap()[0]);
}

#[test]
fn a_start_may_be_a_number() {
    let json = parse_text(r#"{"list": {"a": {"course": [{"id": "1", "title": "", "sub_id": "2", "sub_title": "", "realname": "", "start_at": -5, "room": true, "sub_public": 0}]}}}"#).unwrap();
    let subject = &day_subjects(&json).unwrap()[0];
    assert_eq!(subject.start_at, Some(-5));
    assert_eq!(subject.room, None);
    assert_eq!(subject.sub_public.as_deref(), Some("0"));
}

fn day(step: RangeStep) -> (String, RangeFlow) {
    match step {
        RangeStep::Send { request, flow } => {
            assert_eq!(request.headers[1].0, "authorization");
            assert_eq!(request.headers[1].1, "Bearer tok");
            (request.url, flow)
        },
        _ => panic!("a request"),
    }
}

#[test]
fn a_range_asks_for_every_day() {
    let assist = logged_in();
    let token = Ok("tok".to_string());
    let (url, flow) = day(assist.range_subs_with(token, "2024-02-28", "2024-03-01"));
    assert!(url.ends_with("get-my-course-day?day=2024-02-28"));
    let body = format!(r#"{{"list": {{"1": {{"course": [{}]}}}}}}"#, LECTURE);
    let (url, flow) = day(assist.range_reply(flow, body.as_bytes()));
    assert!(url.ends_with("?day=2024-02-29"));
    let (url, flow) = day(assist.range_reply(flow, br#"{"list": []}"#));
    assert!(url.ends_with("?day=2024-03-01"));
    match assist.range_reply(flow, body.as_bytes()) {
        RangeStep::Done(Ok(subjects)) => assert_eq!(subjects.len(), 2),
        _ => panic!("the lectures"),
    }
}

#[test]
fn a_range_that_ends_before_it_starts_is_empty() {
    let assist = logged_in();
    match assist.range_subs_with(Ok("t".to_string()), "2024-03-02", "2024-03-01") {
        RangeStep::Done(Ok(subjects)) => assert!(subjects.is_empty()),
        _ => panic!("nothing"),
    }
    let step = assist.range_subs_with(Ok("t".to_string()), "2024-02-30", "2024-03-01");
    assert!(matches!(step, RangeStep::Done(Err(ErrorOf::NotADate))));
    let step = assist.range_subs_with(Err(ErrorOf::TokenNotFound), "2024-03-01", "2024-03-01");
    assert!(matches!(step, RangeStep::Done(Err(ErrorOf::TokenNotFound))));
    let step = ZjuAssist::new().get_range_subs("2024-03-01", "2024-03-01");
    assert!(matches!(step, RangeStep::Done(Err(ErrorOf::NotLogin))));
}

#[test]
fn the_days_reach_as_far_as_dates_do() {
    assert_eq!(NaiveDate::MIN.num_days_from_ce(), FIRST_DAY);
    assert_eq!(NaiveDate::MAX.num_days_from_ce(), LAST_DAY);
    assert!(NaiveDate::from_num_days_from_ce_opt(FIRST_DAY - 1).is_none());
    assert!(NaiveDate::from_num_days_from_ce_opt(LAST_DAY + 1).is_none());
}

#[test]
fn classroom_pages_need_a_token() {
    let assist = logged_in();
    assert!(matches!(assist.get_month_subs("2024-03"), Err(ErrorOf::TokenNotFound)));
    assert!(matches!(assist.get_course_subs(1), Err(ErrorOf::TokenNotFound)));
    assert!(matches!(assist.search_courses("a", "b"), Err(ErrorOf::TokenNotFound)));
    assert!(matches!(ZjuAssist::new().get_month_subs("2024-03"), Err(ErrorOf::NotLogin)));
    assert!(matches!(ZjuAssist::new().search_courses("a", "b"), Err(ErrorOf::NotLogin)));
    assert!(matches!(ZjuAssist::new().get_course_subs(1), Err(ErrorOf::NotLogin)));
    let request = assist.ask_showing("https://h/", Ok("tok".to_string())).ok().unwrap();
    assert_eq!(request.headers.len(), 2);
    assert_eq!(request.headers[1].1, "Bearer tok");
}

#[test]
fn the_lectures_of_a_course_stand_under_years_months_and_weeks() {
    let assist = logged_in();
    let (request, query) = assist.course_subs_with(11, Ok("tok".to_string())).ok().unwrap();
    assert_eq!(request.url, "https://classroom.zju.edu.cn/userapi/v1/infosimple");
    let request = assist.course_subs_account(&query, br#"{"params": {"account": "32100"}}"#).ok().unwrap();
    assert_eq!(
        request.url,
        "https://yjapi.cmc.zju.edu.cn/courseapi/v3/multi-search/get-course-detail?course_id=11&student=32100"
    );
    assert!(matches!(assist.course_subs_account(&query, b"{}"), Err(ErrorOf::Malformed)));
    let body = br#"{"data": {"title": "A/B", "sub_list": {"2024": {"2": {"8": [{"id": "5", "sub_title": "x/y", "lecturer_name": "L"}], "9": []}, "3": {}}, "2025": {"1": {"1": [{"id": "6", "sub_title": "z", "lecturer_name": "M", "start_at": 7}]}}}}}"#;
    let subjects = ZjuAssist::course_subs(11, body).ok().unwrap();
    assert_eq!(subjects.len(), 2);
    assert_eq!(subjects[0].course_name, "A_B");
    assert_eq!(subjects[0].sub_id, 5);
    assert_eq!(subjects[0].sub_name, "x_y");
    assert_eq!(subjects[1].lecturer_name, "M");
    assert_eq!(subjects[1].start_at, Some(7));
    assert!(course_subjects(1, &parse_text(r#"{"data": {"title": "A", "sub_list": []}}"#).unwrap()).is_none());
}

fn page(step: SearchStep) -> (String, SearchFlow) {
    match step {
        SearchStep::Send { request, flow } => (request.url, flow),
        _ => panic!("a request"),
    }
}

fn searched() -> (ZjuAssist, SearchFlow) {
    let assist = logged_in();
    let (_, words): (_, SearchWords) =
        assist.search_courses_with("数据", "王", Ok("tok".to_string())).ok().unwrap();
    let account = br#"{"params": {"account": "32100", "id": 77}}"#;
    let (url, flow) = page(assist.search_account(words, account, "0.5"));
    assert_eq!(
        url,
        "https://classroom.zju.edu.cn/pptnote/v1/searchlist?tenant_id=112&user_id=77&user_name=32100&page=1&per_page=16&title=数据&realname=王&trans=&tenant_code=112&randomKey=0.5"
    );
    (assist, flow)
}

#[test]
fn a_search_goes_on_until_the_total_is_reached() {
    let (assist, flow) = searched();
    let (url, flow) = page(assist.search_reply(flow, br#"{"code": 0, "total": {"total": 3, "list": [1, 2]}}"#, "0.25"));
    assert!(url.contains("&page=2&per_page=16&"));
    assert!(url.ends_with("&randomKey=0.25"));
    match assist.search_reply(flow, br#"{"code": 9, "total": {"total": 0, "list": [3]}}"#, "") {
        SearchStep::Done(Ok(courses)) => assert_eq!(courses.len(), 3),
        _ => panic!("the courses"),
    }
}

#[test]
fn a_search_may_be_refused() {
    let (assist, flow) = searched();
    match assist.search_reply(flow, r#"{"code": 1, "msg": "登录已过期"}"#.as_bytes(), "") {
        SearchStep::Done(Err(error)) => assert_eq!(error.message(), "登录已过期"),
        _ => panic!("a refusal"),
    }
    let (assist, flow) = searched();
    let step = assist.search_reply(flow, br#"{"code": 0, "total": {"list": []}}"#, "");
    assert!(matches!(step, SearchStep::Done(Err(ErrorOf::Malformed))));
    let (assist, flow) = searched();
    let step = assist.search_reply(flow, b"no", "");
    assert!(matches!(step, SearchStep::Done(Err(ErrorOf::NotJson(_)))));
}
