use zju_assist::courses::{PageFlow, PageStep, UploadStep};
use zju_assist::error::ErrorOf;
use zju_assist::json::parse_text;
use zju_assist::zju_assist::ZjuAssist;

fn logged_in() -> ZjuAssist {
    let mut assist = ZjuAssist::new();
    assist.have_login = true;
    assist
}

fn awaited(step: PageStep) -> (String, PageFlow) {
    match step {
        PageStep::Send { request, flow } => (request.url, flow),
        _ => panic!("a request"),
    }
}

#[test]
fn lists_of_the_account_need_a_login() {
    let assist = ZjuAssist::new();
    assert!(matches!(assist.get_academic_year_list(), Err(ErrorOf::NotLogin)));
    assert!(matches!(assist.get_semester_list(), Err(ErrorOf::NotLogin)));
    assert!(matches!(assist.get_todo_list(), Err(ErrorOf::NotLogin)));
    assert!(matches!(assist.get_activities_uploads(1), Err(ErrorOf::NotLogin)));
    assert!(matches!(assist.get_courses(), PageStep::Done(Err(ErrorOf::NotLogin))));
    assert!(matches!(assist.get_homework_uploads(1), PageStep::Done(Err(ErrorOf::NotLogin))));
}

#[test]
fn lists_in_one_reply_stand_in_their_fields() {
    let assist = logged_in();
    assert_eq!(
        assist.get_todo_list().ok().unwrap().url,
        "https://courses.zju.edu.cn/api/todos?no-intercept=true"
    );
    assert_eq!(
        assist.get_semester_list().ok().unwrap().url,
        "https://courses.zju.edu.cn/api/my-semesters?"
    );
    assert_eq!(
        assist.get_academic_year_list().ok().unwrap().url,
        "https://courses.zju.edu.cn/api/my-academic-years?fields=id,name,sort,is_active"
    );
    assert_eq!(ZjuAssist::academic_years(br#"{"academic_years": [1, 2]}"#).ok().unwrap().len(), 2);
    assert_eq!(ZjuAssist::semesters(br#"{"semesters": [1]}"#).ok().unwrap().len(), 1);
    assert_eq!(ZjuAssist::todo_list(br#"{"todo_list": []}"#).ok().unwrap().len(), 0);
    assert!(matches!(ZjuAssist::todo_list(b"{}"), Err(ErrorOf::Malformed)));
    match ZjuAssist::todo_list(b"oops") {
        Err(error) => {
            assert_eq!(error.message(), "error decoding response body");
            assert!(matches!(error, ErrorOf::NotJson(words) if words == "expected value at line 1 column 1"));
        },
        Ok(_) => panic!("no list"),
    }
}

#[test]
fn files_of_activities_come_in_their_order() {
    let assist = logged_in();
    assert_eq!(
        assist.get_activities_uploads(42).ok().unwrap().url,
        "https://courses.zju.edu.cn/api/courses/42/activities"
    );
    let body = br#"{"activities": [{"uploads": [{"id": 1}, {"id": 2}]}, {"uploads": null}, {}, {"uploads": [{"id": 3}]}]}"#;
    let uploads = ZjuAssist::activities_uploads(body).ok().unwrap();
    let ids: Vec<Option<i64>> = uploads.iter().map(|u| u.i64_at("id")).collect();
    assert_eq!(ids, vec![Some(1), Some(2), Some(3)]);
}

#[test]
fn courses_come_page_by_page() {
    let assist = logged_in();
    let (url, flow) = awaited(assist.get_courses());
    assert!(url.ends_with("&page=1&page_size=100&showScorePassedStatus=false"));
    let (url, flow) = awaited(assist.page_reply(flow, br#"{"courses": [{"id": 1}], "pages": 3}"#));
    assert!(url.ends_with("&page=2&page_size=100&showScorePassedStatus=false"));
    let (url, flow) = awaited(assist.page_reply(flow, br#"{"courses": [], "pages": 9}"#));
    assert!(url.ends_with("&page=3&page_size=100&showScorePassedStatus=false"));
    match assist.page_reply(flow, br#"{"courses": [{"id": 2}]}"#) {
        PageStep::Done(Ok(courses)) => {
            assert_eq!(courses.len(), 2);
            assert_eq!(courses[1].i64_at("id"), Some(2));
        },
        _ => panic!("the courses"),
    }
}

#[test]
fn a_single_page_is_enough_and_a_page_must_be_whole() {
    let assist = logged_in();
    let (url, flow) = awaited(assist.get_homework_uploads(7));
    assert_eq!(
        url,
        "https://courses.zju.edu.cn/api/courses/7/homework-activities?conditions=%7B%22itemsSortBy%22:%7B%22predicate%22:%22module%22,%22reverse%22:false%7D%7D&page=1&page_size=20&reloadPage=false"
    );
    let json = parse_text(r#"{"homework_activities": [{"uploads": [{"id": 5}]}], "pages": 0}"#).unwrap();
    match assist.page_json(flow, &json) {
        PageStep::Done(Ok(uploads)) => assert_eq!(uploads[0].i64_at("id"), Some(5)),
        _ => panic!("the files"),
    }
    let (_, flow) = awaited(assist.get_courses());
    let step = assist.page_reply(flow, br#"{"courses": []}"#);
    assert!(matches!(step, PageStep::Done(Err(ErrorOf::Malformed))));
    let (_, flow) = awaited(assist.get_courses());
    let step = assist.page_reply(flow, b"<html>");
    assert!(matches!(step, PageStep::Done(Err(ErrorOf::NotJson(_)))));
}

#[test]
fn a_file_that_may_not_be_downloaded_is_previewed() {
    let assist = ZjuAssist::new();
    assert_eq!(
        assist.download_file(8).url,
        "https://courses.zju.edu.cn/api/uploads/reference/8/blob"
    );
    assert!(assist.download_file_reply(9, true).is_none());
    assert_eq!(
        assist.download_file_reply(9, false).unwrap().url,
        "https://courses.zju.edu.cn/api/uploads/9/blob"
    );
}

#[test]
fn a_file_is_asked_for_in_five_rounds() {
    let assist = ZjuAssist::new();
    let (request, mut flow) = assist.get_uploads_response(9, 8);
    assert!(request.url.ends_with("/reference/8/blob"));
    let mut waits = vec![];
    let mut requests = 1;
    loop {
        match assist.uploads_response_step(flow, false) {
            UploadStep::Send { request, flow: next } => {
                assert!(request.url.ends_with("/uploads/9/blob"));
                requests += 1;
                flow = next;
            },
            UploadStep::Retry { after_ms, request, flow: next } => {
                assert!(request.url.ends_with("/reference/8/blob"));
                requests += 1;
                waits.push(after_ms);
                flow = next;
            },
            UploadStep::Fail { after_ms, error } => {
                waits.push(after_ms);
                assert_eq!(error.message(), "Failed to get upload response");
                break;
            },
            UploadStep::Take => panic!("nothing came"),
        }
    }
    assert_eq!(requests, 10);
    assert_eq!(waits, vec![100, 200, 400, 800, 1600]);
    let (_, flow) = assist.get_uploads_response(9, 8);
    assert!(matches!(assist.uploads_response_step(flow, true), UploadStep::Take));
}
