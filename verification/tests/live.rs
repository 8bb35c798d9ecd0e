use zju_assist::capture::{
    CaptureActionOf, CaptureEvent, LiveTranscriptStore, ScheduleStep, SubtitleReply,
    HEARTBEAT_SECS,
};
use zju_assist::error::ErrorOf;
use zju_assist::json::parse_text;
use zju_assist::model::{LiveTranscriptLine, SubtitleContent};
use zju_assist::transcript::line_keys;
use zju_assist::zju_assist::ZjuAssist;

fn logged_in() -> ZjuAssist {
    let mut assist = ZjuAssist::new();
    assist.have_login = true;
    assist
}

#[test]
fn the_address_of_a_socket_is_made_secure() {
    for (url, expected) in [
        (" https://h.cn/a ", "wss://h.cn/a/glue/ws"),
        ("http://h.cn", "wss://h.cn/glue/ws"),
        ("ws://h.cn///", "wss://h.cn/glue/ws"),
        ("wss://h.cn/glue/ws", "wss://h.cn/glue/ws"),
        ("h.cn", "h.cn/glue/ws"),
        ("http:/", "http:/glue/ws"),
        ("https://https://x", "wss://https://x/glue/ws"),
        ("", "/glue/ws"),
        ("https:///", "wss:/glue/ws"),
    ] {
        let found = ZjuAssist::normalize_live_ws_url(url);
        assert_eq!(found, expected);
        assert_eq!(ZjuAssist::normalize_live_ws_url(&found), expected);
        assert!(found.ends_with("/glue/ws"));
    }
}

#[test]
fn the_socket_of_a_lecture_is_found_in_the_catalogue() {
    let body = r#"{"data": {"course": {"catalogue": [{}, {"sub": [
        {"sub_id": "1", "content": {"trans_socket_url": "a"}},
        {"id": 2, "content": "{\"trans_socket_url\": \"b\"}"}]}]}},
        "result": {"data": [{"id": "3", "content": {}}, {"id": 3, "content": {"trans_socket_url": "c"}},
        {"sub_id": null, "id": 4, "content": {"trans_socket_url": "d"}}, {"id": 5, "content": "{"}]}}"#;
    let json = parse_text(body).unwrap();
    for (sub_id, url) in [(1, "a"), (2, "b"), (3, "c")] {
        assert_eq!(ZjuAssist::trans_socket_url_in(&json, sub_id).ok(), Some(url.to_string()));
    }
    match ZjuAssist::trans_socket_url_in(&json, 4) {
        Err(error) => assert_eq!(error.message(), "trans_socket_url not found for sub_id 4"),
        Ok(_) => panic!("no socket"),
    }
    match ZjuAssist::trans_socket_url_in(&json, 5) {
        Err(error) => assert_eq!(
            error.message(),
            "parse sub content failed: EOF while parsing an object at line 1 column 1"
        ),
        Ok(_) => panic!("no content"),
    }
    assert!(matches!(ZjuAssist::trans_socket_url(b"", 1), Err(ErrorOf::NotJson(_))));
    assert!(matches!(ZjuAssist::trans_socket_url(b"{}", 1), Err(ErrorOf::SocketUrlNotFound(1))));
}

#[test]
fn the_catalogue_is_asked_for_with_a_token() {
    let assist = logged_in();
    let request = assist.ask_catalogue(9, Ok("tok".to_string())).ok().unwrap();
    assert_eq!(request.url, "https://yjapi.cmc.zju.edu.cn/courseapi/v2/course/catalogue?course_id=9");
    assert_eq!(request.headers[1].1, "Bearer tok");
    assert!(matches!(assist.get_trans_socket_url(9), Err(ErrorOf::TokenNotFound)));
    assert!(matches!(ZjuAssist::new().get_trans_socket_url(9), Err(ErrorOf::NotLogin)));
}

#[test]
fn a_socket_must_have_an_address() {
    let body = br#"{"result": {"data": [{"id": 1, "content": {"trans_socket_url": "https://h.cn/x"}}, {"id": 2, "content": {"trans_socket_url": "wss://a b"}}]}}"#;
    assert_eq!(ZjuAssist::capture_socket(body, 1).ok(), Some("wss://h.cn/x/glue/ws".to_string()));
    match ZjuAssist::capture_socket(body, 2) {
        Err(ErrorOf::InvalidSocketUrl { url, reason }) => {
            assert_eq!(url, "wss://a b/glue/ws");
            assert!(!reason.is_empty());
        },
        _ => panic!("a refusal"),
    }
    assert!(matches!(ZjuAssist::capture_socket(body, 3), Err(ErrorOf::SocketUrlNotFound(3))));
    assert_eq!(ZjuAssist::accept_socket("w".to_string(), None).ok(), Some("w".to_string()));
    let headers = ZjuAssist::capture_headers();
    assert_eq!(headers[0].0, "Origin");
    assert_eq!(headers[0].1, "https://classroom.zju.edu.cn");
    assert_eq!(headers[1].0, "user-agent");
}

#[test]
fn a_line_needs_some_text() {
    let json = parse_text(r#"{"sourcetext": " 你好 ", "trans_text": "hello", "text_begin_time": 5, "end_time": 9}"#).unwrap();
    let line = ZjuAssist::parse_live_line(&json, 77).unwrap();
    assert_eq!(line.source_text, "你好");
    assert_eq!(line.trans_text, "hello");
    assert_eq!(line.text_begin_time, Some(5));
    assert_eq!(line.text_end_time, None);
    assert_eq!(line.end_time, Some(9));
    assert_eq!(line.received_at_ms, 77);
    let json = parse_text(r#"{"sourcetext": 3, "source_text": "x", "transtext": "  "}"#).unwrap();
    assert!(ZjuAssist::parse_live_line(&json, 0).is_none());
    let json = parse_text(r#"{"source_text": "x"}"#).unwrap();
    assert_eq!(ZjuAssist::parse_live_line(&json, 0).unwrap().source_text, "x");
}

fn line(source: &str, begin: Option<i64>) -> LiveTranscriptLine {
    LiveTranscriptLine {
        source_text: source.to_string(),
        trans_text: "t".to_string(),
        text_begin_time: begin,
        text_end_time: None,
        end_time: Some(8),
        received_at_ms: 1,
    }
}

#[test]
fn lines_are_told_apart_by_times_and_texts() {
    let keys = line_keys(&vec![line("a", Some(-3)), line("b", None)]);
    assert_eq!(keys, vec!["Some(-3)|None|a|t", "None|None|b|t"]);
}

#[test]
fn a_message_adds_its_new_lines() {
    let mut lines = vec![line("old", None)];
    let mut keys = line_keys(&lines);
    let message = r#"cd1&m{"sourcetext": "head", "list": [{"sourcetext": "a"}, {"sourcetext": "a"}, {}, {"sourcetext": "old", "transtext": "t"}, {"transtext": "b"}]}"#;
    ZjuAssist::parse_live_ws_message(&mut lines, &mut keys, message, 50);
    let texts: Vec<String> =
        lines.iter().map(|l| format!("{}/{}", l.source_text, l.trans_text)).collect();
    assert_eq!(texts, vec!["old/t", "head/", "a/", "/b"]);
    assert_eq!(lines[3].received_at_ms, 50);
    assert_eq!(keys, line_keys(&lines));
    ZjuAssist::parse_live_ws_message(&mut lines, &mut keys, message, 60);
    assert_eq!(lines.len(), 4);
    for other in ["hello", "cd1&m?", "cd1&m[{\"sourcetext\": \"z\"}]", "cd1&m3"] {
        ZjuAssist::parse_live_ws_message(&mut lines, &mut keys, other, 70);
    }
    assert_eq!(lines.len(), 4);
}

fn store_with(sub_id: i64, lines: Vec<LiveTranscriptLine>) -> LiveTranscriptStore {
    let mut store = LiveTranscriptStore::new();
    let status = ZjuAssist::capture_connected(
        &mut store, 1, sub_id, "wss://h/glue/ws".to_string(), lines, Ok(()), 1000,
    ).ok().unwrap();
    assert_eq!(status.line_count, 0);
    assert!(status.is_running);
    store
}

#[test]
fn a_capture_listens_until_the_socket_is_closed() {
    let mut store = store_with(7, vec![]);
    match ZjuAssist::capture_event(&mut store, 7, CaptureEvent::Opened, 0) {
        CaptureActionOf::Send(text) => assert_eq!(text, "in{\"version\":\"1.9.1\"}"),
        _ => panic!("an opening"),
    }
    match ZjuAssist::capture_event(&mut store, 7, CaptureEvent::Tick, 0) {
        CaptureActionOf::Send(text) => assert_eq!(text, "po"),
        _ => panic!("a heartbeat"),
    }
    assert_eq!(HEARTBEAT_SECS, 30);
    let text = CaptureEvent::Text("cd1&m{\"transtext\": \"x\"}".to_string());
    assert!(matches!(ZjuAssist::capture_event(&mut store, 7, text, 5), CaptureActionOf::Wait));
    assert!(matches!(ZjuAssist::capture_event(&mut store, 7, CaptureEvent::Other, 5), CaptureActionOf::Wait));
    assert_eq!(ZjuAssist::get_live_transcript_lines(&store, 7).ok().unwrap().len(), 1);
    assert!(ZjuAssist::get_live_transcript_sessions(&store)[0].is_running);
    assert!(matches!(ZjuAssist::capture_event(&mut store, 7, CaptureEvent::Over, 5), CaptureActionOf::Stop));
    let status = &ZjuAssist::get_live_transcript_sessions(&store)[0];
    assert!(!status.is_running);
    assert_eq!(status.line_count, 1);
    assert_eq!(status.course_id, 1);
    assert_eq!(status.sub_id, 7);
    assert_eq!(status.started_at_ms, 1000);
    assert_eq!(status.ws_url, "wss://h/glue/ws");
    let text = CaptureEvent::Text("cd1&m{\"transtext\": \"x\"}".to_string());
    assert!(matches!(ZjuAssist::capture_event(&mut store, 8, text, 5), CaptureActionOf::Wait));
}

#[test]
fn a_new_capture_takes_over_the_lines() {
    let assist = logged_in();
    let mut store = store_with(7, vec![line("a", None)]);
    store.scheduled.insert(7);
    assert!(matches!(
        ZjuAssist::new().start_live_transcript_capture(&mut store, 1, 7),
        Err(ErrorOf::NotLogin)
    ));
    let start = assist.start_live_transcript_capture(&mut store, 1, 7).ok().unwrap();
    assert!(start.stops_capture);
    assert!(start.stops_schedule);
    assert_eq!(start.lines.len(), 1);
    assert!(matches!(start.request, Err(ErrorOf::TokenNotFound)));
    assert!(ZjuAssist::get_live_transcript_sessions(&store).is_empty());
    let refused = ZjuAssist::capture_connected(
        &mut store, 1, 7, "wss://h".to_string(), vec![], Err("down".to_string()), 5,
    );
    match refused {
        Err(error) => assert_eq!(error.message(), "live transcript ws connect failed: wss://h (down)"),
        Ok(_) => panic!("not connected"),
    }
    let status = ZjuAssist::capture_connected(
        &mut store, 1, 7, "wss://h".to_string(), start.lines, Ok(()), 5,
    ).ok().unwrap();
    assert_eq!(status.line_count, 0);
    assert_eq!(ZjuAssist::get_live_transcript_sessions(&store)[0].line_count, 1);
    let again = CaptureEvent::Text("cd1&m{\"sourcetext\": \"a\", \"transtext\": \"t\"}".to_string());
    ZjuAssist::capture_event(&mut store, 7, again, 6);
    assert_eq!(ZjuAssist::get_live_transcript_lines(&store, 7).ok().unwrap().len(), 1);
    let start = assist.start_live_transcript_capture(&mut store, 1, 99).ok().unwrap();
    assert!(!start.stops_capture && !start.stops_schedule && start.lines.is_empty());
}

#[test]
fn a_capture_is_scheduled_once() {
    let assist = logged_in();
    let mut store = LiveTranscriptStore::new();
    let step = assist.schedule_live_transcript_capture_at(&mut store, 7, 1002, 1000);
    assert!(matches!(step, Ok(ScheduleStep::Start)));
    let step = assist.schedule_live_transcript_capture_at(&mut store, 7, 1003, 1000);
    assert!(matches!(step, Ok(ScheduleStep::Wait { delay_secs: 3 })));
    let step = assist.schedule_live_transcript_capture_at(&mut store, 7, 2000, 1000);
    assert!(matches!(step, Ok(ScheduleStep::Nothing)));
    let step = ZjuAssist::new().schedule_live_transcript_capture_at(&mut store, 7, 2000, 1000);
    assert!(matches!(step, Err(ErrorOf::NotLogin)));
    assert!(ZjuAssist::cancel_scheduled_live_transcript_capture(&mut store, 7).is_ok());
    match ZjuAssist::cancel_scheduled_live_transcript_capture(&mut store, 7) {
        Err(error) => assert_eq!(error.message(), "Scheduled task not found for sub_id 7"),
        Ok(_) => panic!("nothing is scheduled"),
    }
    assist.schedule_live_transcript_capture_at(&mut store, 7, 2000, 1000).ok().unwrap();
    ZjuAssist::scheduled_capture_done(&mut store, 7);
    assert!(store.scheduled.is_empty());
    let mut store = store_with(7, vec![]);
    let step = assist.schedule_live_transcript_capture_at(&mut store, 7, 2000, 1000);
    assert!(matches!(step, Ok(ScheduleStep::Nothing)));
}

#[test]
fn a_session_is_stopped_or_cleared() {
    let mut store = store_with(7, vec![line("a", None)]);
    store.scheduled.insert(7);
    store.scheduled.insert(8);
    assert!(ZjuAssist::stop_live_transcript_capture(&mut store, 7).is_ok());
    assert!(!ZjuAssist::get_live_transcript_sessions(&store)[0].is_running);
    assert_eq!(ZjuAssist::get_live_transcript_lines(&store, 7).ok().unwrap().len(), 1);
    assert!(ZjuAssist::clear_live_transcript_session(&mut store, 7).is_ok());
    assert!(!store.scheduled.contains(&7));
    assert!(matches!(ZjuAssist::stop_live_transcript_capture(&mut store, 7), Err(ErrorOf::SessionNotFound(7))));
    assert!(matches!(ZjuAssist::clear_live_transcript_session(&mut store, 8), Err(ErrorOf::SessionNotFound(8))));
    assert!(store.scheduled.is_empty());
    match ZjuAssist::get_live_transcript_lines(&store, 7) {
        Err(error) => assert_eq!(error.message(), "Live transcript session not found for sub_id 7"),
        Ok(_) => panic!("no session"),
    }
}

#[test]
fn all_sessions_are_told() {
    let mut store = store_with(7, vec![]);
    for sub_id in [3, 9] {
        ZjuAssist::capture_connected(&mut store, 2, sub_id, "w".to_string(), vec![], Ok(()), 1).ok().unwrap();
    }
    let mut ids: Vec<i64> =
        ZjuAssist::get_live_transcript_sessions(&store).iter().map(|s| s.sub_id).collect();
    ids.sort();
    assert_eq!(ids, vec![3, 7, 9]);
}

#[test]
fn a_transcript_is_written_line_by_line() {
    let mut first = line("源", Some(5));
    first.trans_text = "one".to_string();
    let mut second = line("", None);
    second.trans_text = "".to_string();
    second.text_end_time = Some(6);
    let mut third = line("三", None);
    third.trans_text = "".to_string();
    let store = store_with(7, vec![first, second, third]);
    let text = |original, times| {
        ZjuAssist::export_live_transcript_text(&store, 7, original, times).ok().unwrap()
    };
    assert_eq!(text(false, false), "one");
    assert_eq!(text(true, false), "源\none\n三\n");
    assert_eq!(text(false, true), "[5-8] one\n[?-6] \n[?-8] ");
    assert_eq!(text(true, true), "[5-8] 源\none\n[?-6] \n[?-8] 三\n");
    assert!(matches!(
        ZjuAssist::export_live_transcript_text(&store, 8, true, true),
        Err(ErrorOf::SessionNotFound(8))
    ));
}

fn item(begin_sec: u64, text: &str) -> SubtitleContent {
    SubtitleContent { begin_sec, end_sec: begin_sec, text: text.to_string(), trans_text: " ".to_string() }
}

#[test]
fn a_recorded_transcript_fills_the_gaps() {
    let mut store = store_with(7, vec![]);
    let items = vec![item(1, " a "), item(1, "a"), item(2, "  "), item(u64::MAX, "b")];
    assert_eq!(ZjuAssist::backfill_lines(&mut store, 7, &items, 44).ok(), Some(2));
    assert_eq!(ZjuAssist::backfill_lines(&mut store, 7, &items, 55).ok(), Some(0));
    let lines = ZjuAssist::get_live_transcript_lines(&store, 7).ok().unwrap();
    assert_eq!(lines.len(), 2);
    assert_eq!(lines[0].source_text, "a");
    assert_eq!(lines[0].text_begin_time, Some(1));
    assert_eq!(lines[0].end_time, Some(1));
    assert_eq!(lines[0].received_at_ms, 44);
    assert_eq!(lines[1].text_begin_time, Some(-1));
    let missing = ZjuAssist::backfill_lines(&mut store, 8, &items, 44);
    assert!(matches!(missing, Err(ErrorOf::SessionNotFound(8))));
}

#[test]
fn the_first_recorded_transcript_counts() {
    let assist = ZjuAssist::new();
    let url = "https://yjapi.cmc.zju.edu.cn/courseapi/v3/web-socket/search-trans-result?sub_id=7&format=json";
    assert_eq!(assist.get_subtitle(7).url, url);
    assert_eq!(assist.backfill_live_transcript_from_history(7).url, url);
    let reply = SubtitleReply { code: 0, list: vec![vec![item(1, "a")], vec![item(2, "b"), item(3, "c")]] };
    let items = ZjuAssist::subtitle_reply(reply).ok().unwrap();
    assert_eq!(items, vec![item(1, "a")]);
    assert!(ZjuAssist::subtitle_reply(SubtitleReply { code: 0, list: vec![] }).ok().unwrap().is_empty());
    match ZjuAssist::subtitle_reply(SubtitleReply { code: 5, list: vec![] }) {
        Err(error) => assert_eq!(error.message(), "获取字幕失败，错误代码: 5"),
        Ok(_) => panic!("a refusal"),
    }
}
