use zju_assist::cli::{
    asr_text, build_assist_from_config, cli_config_dir, config_after_login, config_with_proxy,
    course_row, credentials_file_path, default_config, default_credential_backend, file_password,
    keyring_password, load_cli_config, load_password, login_password, login_username,
    persist_password, pick_courses, pick_subs, ppt_image_file, ppt_pdf_file,
    read_password_file, read_password_interactive, read_password_stdin, save_path, saved_username,
    todo_row, CliConfig, ConfigEnv, CredentialBackend, PasswordInput, PasswordSource,
    PersistAction, StoredCredential,
};
use zju_assist::error::ErrorOf;
use zju_assist::json::{parse_text, Json};
use zju_assist::model::{Subject, SubtitleContent};

fn env() -> ConfigEnv {
    ConfigEnv {
        windows: false,
        appdata: None,
        xdg_config_home: None,
        home: None,
        current_dir: Ok("/work".to_string()),
    }
}

fn config(save_password: bool, credential_backend: CredentialBackend) -> CliConfig {
    CliConfig { username: Some("u".to_string()), proxy: None, save_password, credential_backend }
}

#[test]
fn settings_have_a_place_on_every_system() {
    let here = env();
    assert_eq!(cli_config_dir(&here).ok().unwrap(), vec!["/work", ".zju-learning-assistant"]);
    let xdg = ConfigEnv { xdg_config_home: Some("/x".to_string()), home: Some("/h".to_string()), ..env() };
    assert_eq!(
        credentials_file_path(&xdg).ok().unwrap(),
        vec!["/x", "zju-learning-assistant", "cli-credentials.json"]
    );
    let windows = ConfigEnv { windows: true, appdata: Some("R".to_string()), home: Some("/h".to_string()), ..env() };
    assert_eq!(cli_config_dir(&windows).ok().unwrap(), vec!["R", "zju-learning-assistant"]);
    let lost = ConfigEnv { current_dir: Err("gone".to_string()), ..env() };
    assert!(matches!(cli_config_dir(&lost), Err(ErrorOf::Failed(_))));
}

#[test]
fn the_place_of_a_password_is_chosen() {
    assert_eq!(default_credential_backend(true), CredentialBackend::File);
    assert_eq!(default_credential_backend(false), CredentialBackend::Keyring);
    assert_eq!(load_cli_config(None, true).credential_backend, CredentialBackend::Auto);
    assert_eq!(default_config().username, None);
    let stored = config(true, CredentialBackend::Auto);
    let read = load_cli_config(Some(stored), false);
    assert_eq!(read.credential_backend, CredentialBackend::Keyring);
    assert_eq!(read.username, Some("u".to_string()));
    assert!(read.save_password);
    let stored = config(true, CredentialBackend::Keyring);
    assert_eq!(load_cli_config(Some(stored), true).credential_backend, CredentialBackend::Keyring);
}

#[test]
fn the_proxy_of_the_settings_must_be_one() {
    let mut settings = config(false, CredentialBackend::Auto);
    assert_eq!(build_assist_from_config(&settings).ok().unwrap().get_custom_proxy(), None);
    settings = config_with_proxy(settings, Some("http://127.0.0.1:7890".to_string())).ok().unwrap();
    let assist = build_assist_from_config(&settings).ok().unwrap();
    assert_eq!(assist.get_custom_proxy(), Some("http://127.0.0.1:7890".to_string()));
    assert!(!assist.is_login());
    settings = config_with_proxy(settings, None).ok().unwrap();
    assert_eq!(settings.proxy, None);
    settings.proxy = Some("http://[".to_string());
    assert!(matches!(build_assist_from_config(&settings), Err(ErrorOf::InvalidProxy { .. })));
    assert!(matches!(config_with_proxy(settings, Some("http://[".to_string())), Err(ErrorOf::InvalidProxy { .. })));
}

#[test]
fn a_password_comes_from_the_environment_first() {
    let settings = config(true, CredentialBackend::File);
    match load_password(Some("pw".to_string()), &settings) {
        Ok(PasswordSource::Ready(password)) => assert_eq!(password, "pw"),
        _ => panic!("the password"),
    }
    assert!(matches!(load_password(Some(" ".to_string()), &settings), Ok(PasswordSource::File)));
    let settings = config(true, CredentialBackend::Keyring);
    assert!(matches!(load_password(None, &settings), Ok(PasswordSource::Keyring { fixed: true })));
    let settings = config(true, CredentialBackend::Auto);
    assert!(matches!(load_password(None, &settings), Ok(PasswordSource::Keyring { fixed: false })));
    let settings = config(false, CredentialBackend::File);
    match load_password(None, &settings) {
        Err(error) => assert_eq!(
            error.message(),
            "No password available. Use 'login --save-password', or provide ZLA_PASSWORD env."
        ),
        Ok(_) => panic!("no password"),
    }
}

#[test]
fn a_stored_password_must_not_be_blank() {
    assert_eq!(keyring_password(true, Ok("pw".to_string())).ok(), Some("pw".to_string()));
    assert!(matches!(keyring_password(true, Ok(" ".to_string())), Err(ErrorOf::KeyringEmpty)));
    assert!(matches!(keyring_password(false, Ok("".to_string())), Err(ErrorOf::KeyringBlank)));
    match keyring_password(true, Err("locked".to_string())) {
        Err(error) => assert_eq!(error.message(), "Cannot read password from keyring: locked"),
        Ok(_) => panic!("no password"),
    }
    let stored = |username: &str, password: &str| {
        Some(StoredCredential { username: username.to_string(), password: password.to_string() })
    };
    assert_eq!(read_password_file(stored("u", "pw"), "u"), Some("pw".to_string()));
    assert_eq!(read_password_file(stored("v", "pw"), "u"), None);
    assert_eq!(read_password_file(stored("u", "\t"), "u"), None);
    assert_eq!(read_password_file(None, "u"), None);
    assert_eq!(file_password(Some("pw".to_string())).ok(), Some("pw".to_string()));
    assert!(matches!(file_password(None), Err(ErrorOf::NoStoredPassword)));
}

#[test]
fn a_login_needs_a_name_and_one_password() {
    let settings = config(false, CredentialBackend::Auto);
    assert_eq!(login_username(Some("v".to_string()), &settings).ok(), Some("v".to_string()));
    assert_eq!(login_username(None, &settings).ok(), Some("u".to_string()));
    assert_eq!(saved_username(&settings).ok(), Some("u".to_string()));
    assert!(matches!(login_username(None, &default_config()), Err(ErrorOf::UsernameRequired)));
    assert!(matches!(saved_username(&default_config()), Err(ErrorOf::UsernameMissing)));
    assert!(matches!(login_password(Some("p".to_string()), true), Err(ErrorOf::PasswordTwice)));
    assert!(matches!(login_password(None, true), Ok(PasswordInput::Stdin)));
    assert!(matches!(login_password(None, false), Ok(PasswordInput::Prompt)));
    match login_password(Some("".to_string()), false) {
        Ok(PasswordInput::Given(password)) => assert_eq!(password, ""),
        _ => panic!("the password"),
    }
    assert_eq!(read_password_interactive(" p ".to_string()).ok(), Some(" p ".to_string()));
    assert!(matches!(read_password_interactive(" ".to_string()), Err(ErrorOf::PasswordEmpty)));
    assert_eq!(read_password_stdin(" p \r\n\n").ok(), Some(" p ".to_string()));
    assert!(matches!(read_password_stdin("\n"), Err(ErrorOf::PasswordStdinEmpty)));
}

#[test]
fn a_saved_password_is_looked_for_where_it_was_put() {
    for linux in [true, false] {
        for backend in [CredentialBackend::Auto, CredentialBackend::Keyring, CredentialBackend::File] {
            let settings = config_after_login(config(false, backend), "w", true, linux);
            assert_eq!(settings.username, Some("w".to_string()));
            let (action, kept) = persist_password(true, settings.credential_backend, linux);
            let read = load_cli_config(Some(CliConfig { credential_backend: kept, ..settings }), linux);
            match load_password(None, &read) {
                Ok(PasswordSource::File) => assert_eq!(action, PersistAction::File),
                Ok(PasswordSource::Keyring { fixed: true }) => assert_eq!(action, PersistAction::Keyring),
                _ => panic!("a place"),
            }
            assert!(!linux || action == PersistAction::File);
            let settings = config_after_login(config(true, backend), "w", false, linux);
            assert!(!settings.save_password);
            assert!(matches!(load_password(None, &settings), Err(ErrorOf::NoPassword)));
            assert_eq!(persist_password(false, backend, linux), (PersistAction::Forget, backend));
        }
    }
    assert_eq!(
        persist_password(true, CredentialBackend::Auto, false),
        (PersistAction::Keyring, CredentialBackend::Keyring)
    );
}

fn subject(sub_id: i64) -> Subject {
    Subject {
        course_id: 1,
        course_name: "C".to_string(),
        sub_id,
        sub_name: "S".to_string(),
        lecturer_name: "L".to_string(),
        path: "".to_string(),
        ppt_image_urls: vec![],
        start_at: None,
        room: None,
        tenant_code: None,
        sub_public: None,
    }
}

#[test]
fn courses_and_lectures_are_picked_by_number() {
    let courses = match parse_text(r#"[{"id": 1}, {"id": 2}, {"id": 1, "name": "x"}, {}]"#).unwrap() {
        Json::Array(items) => items,
        _ => panic!("a list"),
    };
    assert_eq!(pick_courses(&courses, None).len(), 4);
    let picked = pick_courses(&courses, Some(1));
    assert_eq!(picked.len(), 2);
    assert_eq!(picked[1].text_at("name"), Some("x"));
    let subs = || vec![subject(4), subject(5), subject(4)];
    assert_eq!(pick_subs(subs(), None, 9).ok().unwrap().len(), 3);
    assert_eq!(pick_subs(subs(), Some(4), 9).ok().unwrap(), vec![subject(4), subject(4)]);
    match pick_subs(subs(), Some(6), 9) {
        Err(error) => assert_eq!(error.message(), "No classroom sessions found for classroom course 9."),
        Ok(_) => panic!("no lecture"),
    }
    assert!(matches!(pick_subs(vec![], None, 9), Err(ErrorOf::SubsNotFound(9))));
}

#[test]
fn files_of_slides_are_numbered() {
    assert_eq!(save_path(None), "Downloads");
    assert_eq!(save_path(Some("d".to_string())), "d");
    assert_eq!(ppt_image_file(0, "https://h/a.png"), "1.png");
    assert_eq!(ppt_image_file(9, "https://h/a."), "10.jpg");
    assert_eq!(ppt_image_file(1, "page"), "2.page");
    assert_eq!(ppt_pdf_file("C", "1_2"), "C-1_2.pdf");
}

#[test]
fn a_recorded_transcript_is_written_without_blank_lines() {
    let items: Vec<SubtitleContent> = [" a ", "", " \t", "b"]
        .iter()
        .map(|text| SubtitleContent { begin_sec: 0, end_sec: 1, text: text.to_string(), trans_text: "".to_string() })
        .collect();
    assert_eq!(asr_text(&items), "a\nb");
    assert_eq!(asr_text(&vec![]), "");
}

#[test]
fn rows_have_something_for_what_is_missing() {
    let todo = todo_row(&parse_text(r#"{"id": 3, "title": "T", "end_time": "E"}"#).unwrap());
    assert_eq!((todo.id, todo.title.as_str(), todo.end_time.as_str()), (3, "T", "E"));
    let todo = todo_row(&parse_text("{}").unwrap());
    assert_eq!((todo.id, todo.title.as_str(), todo.end_time.as_str()), (0, "Unknown", "No deadline"));
    assert_eq!(course_row(&parse_text(r#"{"id": 4, "name": "N"}"#).unwrap()), (4, "N".to_string()));
    assert_eq!(course_row(&parse_text("[]").unwrap()), (0, "Unknown".to_string()));
}
