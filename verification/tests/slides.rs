use zju_assist::error::ErrorOf;
use zju_assist::json::parse_text;
use zju_assist::slides::{keyed_url, ImageStep, PptFlow, PptStep};
use zju_assist::zju_assist::ZjuAssist;

#[test]
fn a_recording_is_opened_with_a_key() {
    let key = "7-1700000000-173e7970132d8d51bd213400a7d0a4bd";
    assert_eq!(
        ZjuAssist::get_auth_play_url("https://h.cn/a/b.mp4", "7", "112", "12345", 1700000000),
        Some(format!("https://h.cn/a/b.mp4?t={}", key))
    );
    assert_eq!(
        ZjuAssist::get_auth_play_url("https://h.cn/a/b.mp4?x=1", "7", "112", "12345", 1700000000),
        Some(format!("https://h.cn/a/b.mp4?x=1&t={}", key))
    );
    assert_eq!(ZjuAssist::get_auth_play_url("b.mp4", "7", "112", "12345", 1700000000), None);
    assert_eq!(
        keyed_url("u", "/a/b.mp4", "7", "112", "12345", 1700000000),
        format!("u?t={}", key)
    );
}

#[test]
fn a_recording_is_found_in_three_requests() {
    let assist = ZjuAssist::new();
    assert_eq!(
        assist.get_playback_response(3, 4).url,
        "https://classroom.zju.edu.cn/courseapi/v3/portal-home-setting/get-sub-info?course_id=3&sub_id=4"
    );
    let body = br#"{"data": {"content": {"save_playback": {"contents": "https://h.cn/a/b.mp4"}}}}"#;
    let (url, request) = assist.playback_source(body).ok().unwrap();
    assert_eq!(url, "https://h.cn/a/b.mp4");
    assert_eq!(request.url, "https://classroom.zju.edu.cn/userapi/v1/infosimple");
    let account = br#"{"params": {"id": 7, "tenant_id": 112, "phone": "12345"}}"#;
    let request = assist.playback_account(&url, 1700000000, account).ok().unwrap();
    assert_eq!(
        request.url,
        "https://h.cn/a/b.mp4?t=7-1700000000-173e7970132d8d51bd213400a7d0a4bd"
    );
    assert!(matches!(assist.playback_source(b"{}"), Err(ErrorOf::Malformed)));
    assert!(matches!(assist.playback_account("b.mp4", 1, account), Err(ErrorOf::Malformed)));
    assert!(matches!(assist.playback_account(&url, 1, b"{}"), Err(ErrorOf::Malformed)));
    assert!(matches!(assist.playback_account(&url, 1, b"-"), Err(ErrorOf::NotJson(_))));
}

fn slides(total: i64, count: usize) -> String {
    let item = r#"{"content": "{\"pptimgurl\": \"https://h/p.jpg\"}"}"#;
    let list = vec![item; count].join(",");
    format!(r#"{{"total": {}, "list": [{}]}}"#, total, list)
}

fn awaited(step: PptStep) -> (u64, String, PptFlow) {
    match step {
        PptStep::Send { after_ms, request, flow } => (after_ms, request.url, flow),
        _ => panic!("a request"),
    }
}

#[test]
fn slides_come_page_by_page() {
    let assist = ZjuAssist::new();
    let (wait, url, flow) = awaited(assist.get_ppt_urls(3, 4));
    assert_eq!(wait, 0);
    assert_eq!(
        url,
        "https://classroom.zju.edu.cn/pptnote/v1/schedule/search-ppt?course_id=3&sub_id=4&page=1&per_page=100"
    );
    let (wait, url, flow) = awaited(assist.ppt_reply(flow, slides(102, 100).as_bytes()));
    assert_eq!(wait, 0);
    assert!(url.ends_with("&page=2&per_page=100"));
    match assist.ppt_reply(flow, slides(0, 2).as_bytes()) {
        PptStep::Done(Ok(urls)) => {
            assert_eq!(urls.len(), 102);
            assert_eq!(urls[101], "https://h/p.jpg");
        },
        _ => panic!("the slides"),
    }
}

#[test]
fn a_short_page_is_asked_for_again_four_times() {
    let assist = ZjuAssist::new();
    let (_, _, flow) = awaited(assist.get_ppt_urls(3, 4));
    let (_, _, mut flow) = awaited(assist.ppt_reply(flow, slides(250, 100).as_bytes()));
    for _ in 0..4 {
        let (wait, url, next) = awaited(assist.ppt_reply(flow, slides(250, 99).as_bytes()));
        assert_eq!(wait, 200);
        assert!(url.ends_with("&page=2&per_page=100"));
        flow = next;
    }
    match assist.ppt_reply(flow, slides(250, 0).as_bytes()) {
        PptStep::Done(Err(error)) => assert_eq!(
            error.message(),
            "Get ppt urls failed for course_id: 3, sub_id: 4, please retry later."
        ),
        _ => panic!("a failure"),
    }
}

#[test]
fn slides_must_be_described() {
    let assist = ZjuAssist::new();
    let (_, _, flow) = awaited(assist.get_ppt_urls(3, 4));
    match assist.ppt_json(flow, &parse_text(r#"{"total": 0, "list": []}"#).unwrap()) {
        PptStep::Done(Ok(urls)) => assert!(urls.is_empty()),
        _ => panic!("no slides"),
    }
    for body in [r#"{"total": 1, "list": [{"content": "?"}]}"#, r#"{"list": []}"#, "[]"] {
        let (_, _, flow) = awaited(assist.get_ppt_urls(3, 4));
        let step = assist.ppt_reply(flow, body.as_bytes());
        assert!(matches!(step, PptStep::Done(Err(ErrorOf::Malformed))));
    }
}

const PNG: [u8; 8] = [0x89, b'P', b'N', b'G', 0x0d, 0x0a, 0x1a, 0x0a];

#[test]
fn an_image_is_stored_if_it_is_one() {
    let assist = ZjuAssist::new();
    let (request, flow) = assist.download_ppt_image("https://h/a/p.png");
    assert_eq!(request.url, "https://h/a/p.png");
    assert_eq!(ZjuAssist::image_name("https://h/a/p.png"), "p.png");
    assert!(matches!(assist.image_content("u", flow, &PNG), ImageStep::Store));
    assert!(matches!(assist.image_stored("u", flow, 8), ImageStep::Done));
    for content in [&b""[..], &b"<html>"[..]] {
        match assist.image_content("https://h/a/p.png", flow, content) {
            ImageStep::Send { after_ms, request, flow: next } => {
                assert_eq!(after_ms, 0);
                assert_eq!(request.url, "https://h/a/p.png");
                assert_eq!(next.failures, 1);
                assert_eq!(next.delay_ms, 100);
            },
            _ => panic!("one more attempt"),
        }
    }
}

#[test]
fn an_image_is_given_up_after_five_attempts() {
    let assist = ZjuAssist::new();
    let (_, mut flow) = assist.download_ppt_image("u");
    let mut waits = vec![];
    loop {
        assert!(matches!(assist.image_content("u", flow, &PNG), ImageStep::Store));
        match assist.image_stored("u", flow, 0) {
            ImageStep::Send { after_ms, flow: next, .. } => {
                waits.push(after_ms);
                flow = next;
            },
            ImageStep::GiveUp { after_ms, error } => {
                waits.push(after_ms);
                assert_eq!(error.message(), "Failed to download file after several attempts");
                break;
            },
            _ => panic!("nothing was stored"),
        }
    }
    assert_eq!(waits, vec![100, 200, 400, 800, 1600]);
}
