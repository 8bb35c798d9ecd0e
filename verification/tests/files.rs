use zju_assist::classroom_courses::{
    classroom_query, found_by, get_classroom_courses, names_to_search, ClassroomQuery,
};
use zju_assist::error::ErrorOf;
use zju_assist::files::{find_by_key, find_course, get_course_uploads, select_upload};
use zju_assist::json::{parse_text, Json};
use zju_assist::model::Upload;
use zju_assist::uploads::{
    course_uploads_reply, download_upload_core, get_uploads_list_core, name_in_url,
    uploads_described, uploads_of_courses, uploads_to_sync, DownloadProgress,
};
use zju_assist::zju_assist::ZjuAssist;

fn list(text: &str) -> Vec<Json> {
    match parse_text(text).unwrap() {
        Json::Array(items) => items,
        _ => panic!("a list"),
    }
}

fn upload(id: i64, reference_id: i64, file_name: &str) -> Upload {
    Upload {
        id,
        reference_id,
        file_name: file_name.to_string(),
        course_name: "C".to_string(),
        path: "p".to_string(),
        size: 5,
    }
}

#[test]
fn a_course_is_found_by_its_number() {
    let courses = list(r#"[{"id": 1, "name": "A"}, {"id": 2, "name": "B/C"}, {"id": 2, "name": "D"}, {"id": 3}]"#);
    assert_eq!(find_course(&courses, 2).ok(), Some("B-C".to_string()));
    assert_eq!(find_course(&courses, 3).ok(), Some("Unknown".to_string()));
    match find_course(&courses, 9) {
        Err(error) => assert_eq!(error.message(), "Course 9 not found in your current course list."),
        Ok(_) => panic!("no course"),
    }
}

#[test]
fn files_of_a_course_are_listed_once_and_by_name() {
    let raw = list(r#"[{"id": 2, "reference_id": 1, "name": "b", "size": 7}, {"id": 1, "reference_id": 1, "name": "b"},
        {"id": 2, "reference_id": 1, "name": "a"}, {"id": 3, "name": "x"}, {"reference_id": 4}, {"id": 4, "reference_id": 9},
        {"id": 1, "reference_id": 0, "name": "b"}, {"id": 8, "reference_id": 8, "name": "a"}]"#);
    let files = get_course_uploads(&raw, "C", "p/C");
    let shown: Vec<(&str, i64, i64, u64)> =
        files.iter().map(|f| (f.file_name.as_str(), f.id, f.reference_id, f.size)).collect();
    assert_eq!(shown, vec![("Unnamed", 4, 9, 0), ("a", 8, 8, 0), ("b", 1, 0, 0), ("b", 1, 1, 0), ("b", 2, 1, 7)]);
    assert!(files.iter().all(|f| f.course_name == "C" && f.path == "p/C"));
}

#[test]
fn a_file_is_chosen_by_number_or_name() {
    let uploads = vec![upload(1, 10, "Slides.pdf"), upload(2, 20, "notes.txt"), upload(3, 30, "NOTES.TXT.bak")];
    assert_eq!(select_upload(&uploads, Some(2), None).ok(), Some(upload(2, 20, "notes.txt")));
    let by_name = |name: &str| select_upload(&uploads, None, Some(name.to_string()));
    assert_eq!(by_name("notes.txt").ok(), Some(upload(2, 20, "notes.txt")));
    assert_eq!(by_name("slides").ok(), Some(upload(1, 10, "Slides.pdf")));
    assert_eq!(by_name("BAK").ok(), Some(upload(3, 30, "NOTES.TXT.bak")));
    match by_name("NOTES") {
        Err(error) => assert_eq!(
            error.message(),
            "Multiple files matched name 'NOTES'. Please use --file-id. Candidates:\nid=2 ref=20 name=notes.txt\nid=3 ref=30 name=NOTES.TXT.bak"
        ),
        Ok(_) => panic!("two files"),
    }
    assert!(matches!(by_name("zip"), Err(ErrorOf::FileNameNotFound(_))));
    assert!(matches!(select_upload(&uploads, Some(9), None), Err(ErrorOf::FileIdNotFound(9))));
    assert!(matches!(select_upload(&uploads, Some(1), Some("a".to_string())), Err(ErrorOf::FileChoiceTwice)));
    assert!(matches!(select_upload(&uploads, None, None), Err(ErrorOf::FileChoiceMissing)));
}

#[test]
fn a_number_that_two_files_have_is_no_choice() {
    let uploads = vec![upload(1, 10, "a"), upload(1, 11, "b")];
    match select_upload(&uploads, Some(1), None) {
        Err(error) => assert_eq!(
            error.message(),
            "File id 1 is not unique in this course. Candidates:\nid=1 ref=10 name=a\nid=1 ref=11 name=b"
        ),
        Ok(_) => panic!("two files"),
    }
    let lowered = vec!["a".to_string(), "b".to_string()];
    assert_eq!(find_by_key(&uploads, &lowered, "b"), vec![upload(1, 11, "b")]);
}

#[test]
fn classroom_courses_are_looked_for_by_words_or_names() {
    assert_eq!(classroom_query(" ", "\t"), ClassroomQuery::Infer);
    assert_eq!(classroom_query("a", ""), ClassroomQuery::Search);
    assert_eq!(classroom_query("", "b"), ClassroomQuery::Search);
    let courses = list(r#"[{"name": "A"}, {"name": "  "}, {}, {"name": " B "}]"#);
    assert_eq!(names_to_search(&courses), vec!["A", " B "]);
}

#[test]
fn classroom_courses_are_listed_once_and_by_title() {
    let searches = vec![
        Ok(list(r#"[{"course_id": 5, "title": "B", "realname": "T", "term_name": "S"}, {"title": "none"}]"#)),
        Err(ErrorOf::Malformed),
        Ok(list(r#"[{"course_id": 5, "title": "A"}, {"course_id": 4, "title": "B"}, {"course_id": 6}]"#)),
    ];
    let found = found_by(&searches);
    assert_eq!(found.len(), 5);
    let courses = get_classroom_courses(&found);
    let shown: Vec<(i64, &str, &str, &str)> = courses
        .iter()
        .map(|c| (c.course_id, c.title.as_str(), c.teacher.as_str(), c.term.as_str()))
        .collect();
    assert_eq!(shown, vec![(4, "B", "", ""), (5, "B", "T", "S"), (6, "Unknown", "", "")]);
}

#[test]
fn courses_are_listed_with_their_requests() {
    let mut assist = ZjuAssist::new();
    let courses = parse_text(r#"[{"id": 1, "name": "A/B"}, {"id": 2, "name": "C"}]"#).unwrap();
    assert!(matches!(get_uploads_list_core(&assist, &courses), Err(ErrorOf::NotLogin)));
    assert!(get_uploads_list_core(&assist, &parse_text("{}").unwrap()).ok().unwrap().is_empty());
    assist.have_login = true;
    let listed = get_uploads_list_core(&assist, &courses).ok().unwrap();
    assert_eq!(listed.len(), 2);
    assert_eq!(listed[0].name, "A-B");
    assert_eq!(listed[1].id, 2);
    assert_eq!(listed[1].request.url, "https://courses.zju.edu.cn/api/courses/2/activities");
    let broken = parse_text(r#"[{"id": 1}]"#).unwrap();
    assert!(matches!(get_uploads_list_core(&assist, &broken), Err(ErrorOf::Malformed)));
}

#[test]
fn files_of_courses_are_put_together() {
    let body = br#"{"activities": [{"uploads": [{"id": 1, "reference_id": 2, "name": "n", "size": 9}, {"id": 3, "reference_id": 4, "name": "m"}]}]}"#;
    let first = course_uploads_reply(body, "C", "p").ok().unwrap();
    assert_eq!(first[0].size, 9);
    assert_eq!(first[1], Upload { size: 1000, ..upload(3, 4, "m") });
    assert!(matches!(course_uploads_reply(br#"{"activities": [{"uploads": [{"id": 1}]}]}"#, "C", "p"), Err(ErrorOf::Malformed)));
    assert!(uploads_described(&list(r#"[{"id": 1, "reference_id": 2}]"#), "C", "p").is_none());
    let all = uploads_of_courses(vec![Ok(first), Ok(vec![]), Ok(vec![upload(5, 6, "z")])]).ok().unwrap();
    assert_eq!(all.len(), 3);
    assert_eq!(all[2].id, 5);
    let failed = uploads_of_courses(vec![Ok(vec![]), Err(ErrorOf::Malformed), Err(ErrorOf::NotLogin)]);
    assert!(matches!(failed, Err(ErrorOf::Malformed)));
}

#[test]
fn files_that_are_here_with_their_length_are_not_missing() {
    let uploads = vec![upload(1, 1, "a"), upload(2, 2, "b"), upload(3, 3, "c")];
    let missing = uploads_to_sync(&uploads, &vec![Some(5), None, Some(4)]);
    assert_eq!(missing, vec![upload(2, 2, "b"), upload(3, 3, "c")]);
    assert!(uploads_to_sync(&uploads, &vec![Some(5), Some(5), Some(5)]).is_empty());
}

#[test]
fn a_download_takes_its_name_from_the_address() {
    assert_eq!(name_in_url("https://h/f?x=1&name=a%20b&name=c"), Some("a%20b".to_string()));
    assert_eq!(name_in_url("https://h/f?name="), Some("".to_string()));
    assert_eq!(name_in_url("https://h/f"), None);
    let file = upload(1, 1, "own");
    let plan = download_upload_core(&file, true, "https://h/f?name=%E8%AF%BE%E4%BB%B6.pdf&x", Some(12)).ok().unwrap();
    assert_eq!(plan.file_name, "课件.pdf");
    assert_eq!(plan.content_length, 12);
    let plan = download_upload_core(&file, true, "https://h/f", None).ok().unwrap();
    assert_eq!(plan.file_name, "own");
    assert_eq!(plan.content_length, 5);
    match download_upload_core(&file, false, "https://h/f", None) {
        Err(error) => assert_eq!(error.message(), "下载失败"),
        Ok(_) => panic!("a refusal"),
    }
    assert_eq!(plan.start(true, Some(5)), (true, DownloadProgress { current: 5, total: 5 }));
    assert_eq!(plan.start(false, Some(5)), (false, DownloadProgress { current: 0, total: 5 }));
    assert_eq!(plan.start(true, None), (false, DownloadProgress { current: 0, total: 5 }));
    let (_, mut progress) = plan.start(true, Some(4));
    progress.advance(2);
    progress.advance(3);
    assert_eq!(progress, DownloadProgress { current: 5, total: 5 });
}
