use zju_assist::error::{Error, ErrorOf};

fn text(words: &str) -> String {
    words.to_string()
}

#[test]
fn every_failure_has_its_words() {
    let failures: Vec<(Error, &str)> = vec![
        (ErrorOf::NotLogin, "Not login"),
        (ErrorOf::Failed(text("w")), "w"),
        (ErrorOf::NotJson(text("w")), "error decoding response body"),
        (ErrorOf::Service(text("w")), "w"),
        (ErrorOf::ConnectionFailed, "Connection failed"),
        (ErrorOf::InvalidProxy { url: text("u"), reason: text("r") }, "Invalid proxy url 'u': r"),
        (ErrorOf::LoginPageMissing, "Login failed"),
        (ErrorOf::ExecutionNotFound, "Execution value not found"),
        (ErrorOf::ModulusNotFound, "Modulus not found"),
        (ErrorOf::ExponentNotFound, "Exponent not found"),
        (ErrorOf::WrongPassword, "Login failed: Wrong username or password"),
        (ErrorOf::UploadFailed, "Failed to get upload response"),
        (ErrorOf::TokenNotFound, "Token not found, try log in again"),
        (ErrorOf::EvaluationFailed, "Check evaluation failed"),
        (ErrorOf::ScoreSession, "Get score failed: ensure session failed"),
        (ErrorOf::ScoreFailed, "Get score failed"),
        (ErrorOf::ProbeRedirected, "Probe score failed: redirected to login page"),
        (ErrorOf::ProbeFailed, "Probe score failed"),
        (ErrorOf::InvalidSocketUrl { url: text("u"), reason: text("r") }, "invalid ws url u: r"),
        (ErrorOf::ScheduleNotFound(-1), "Scheduled task not found for sub_id -1"),
        (ErrorOf::CookieEmpty, "请粘贴 PTASession Cookie 的值"),
        (ErrorOf::KeyringEmpty, "Empty password in keyring. Please run login again and refresh credentials."),
        (ErrorOf::KeyringBlank, "Empty password in keyring."),
        (ErrorOf::KeyringWrite(text("r")), "Cannot save password to keyring: r"),
        (ErrorOf::NoStoredPassword, "No stored password in credential file for this user."),
        (ErrorOf::PasswordEmpty, "Password cannot be empty."),
        (ErrorOf::PasswordStdinEmpty, "Password from stdin cannot be empty."),
        (ErrorOf::PasswordTwice, "Use either --password or --password-stdin, not both."),
        (ErrorOf::UsernameMissing, "No saved username. Please run 'login' first."),
        (ErrorOf::UsernameRequired, "Username is required for first login."),
        (ErrorOf::LoginRefused(text("r")), "Login failed: r"),
        (ErrorOf::PdfFailed(text("r")), "Failed to generate PDF: r"),
        (ErrorOf::FileChoiceTwice, "Please provide either --file-id or --name, not both."),
        (ErrorOf::FileChoiceMissing, "Please provide --file-id or --name."),
        (ErrorOf::FileIdNotFound(4), "File id 4 not found in this course."),
        (ErrorOf::FileNameNotFound(text("n")), "No file matched name 'n'."),
    ];
    for (failure, words) in failures {
        assert_eq!(failure.message(), words);
    }
}
