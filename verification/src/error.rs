//! What can go wrong, and the words for it.
use vstd::prelude::*;
use crate::numeral::i64_text;

verus! {

/// A failure; `T` is the type of the texts that some failures carry.
pub enum ErrorOf<T> {
    /// No account is logged in.
    NotLogin,
    /// The network or the machine failed, in its own words.
    Failed(T),
    /// A reply is not JSON; the words are the parser's, and the cause behind the message.
    NotJson(T),
    /// A reply is JSON but lacks a part that it must have.
    Malformed,
    /// A text that should name a day does not.
    NotADate,
    ConnectionFailed,
    InvalidProxy { url: T, reason: T },
    LoginPageMissing,
    ExecutionNotFound,
    ModulusNotFound,
    ExponentNotFound,
    WrongPassword,
    UploadFailed,
    TokenNotFound,
    /// A refusal in the words of the service.
    Service(T),
    PptFailed { course_id: i64, sub_id: i64 },
    ImageFailed,
    SsoReply(T),
    SsoUrlMissing,
    SsoStatus(T),
    EvaluationFailed,
    ScoreSession,
    ScoreFailed,
    ProbeRedirected,
    ProbeFailed,
    SubContent(T),
    SocketUrlNotFound(i64),
    InvalidSocketUrl { url: T, reason: T },
    SocketConnect { url: T, reason: T },
    ScheduleNotFound(i64),
    SessionNotFound(i64),
    SubtitleFailed(i64),
    DownloadFailed,
    /// The problem set service asks for a captcha.
    Captcha,
    PintiaLogin(T),
    PintiaNoCookie,
    CookieEmpty,
    CookieInvalid,
    ProblemSets(T),
    /// The session of the problem set service is no longer known there.
    SessionExpired,
    SessionOver,
    NoPassword,
    KeyringRead(T),
    KeyringWrite(T),
    KeyringEmpty,
    KeyringBlank,
    NoStoredPassword,
    PasswordEmpty,
    PasswordStdinEmpty,
    PasswordTwice,
    UsernameMissing,
    UsernameRequired,
    /// A login that failed, with the reason.
    LoginRefused(T),
    PdfFailed(T),
    CourseNotFound(i64),
    SubsNotFound(i64),
    FileChoiceTwice,
    FileChoiceMissing,
    FileIdNotFound(i64),
    FileIdNotUnique { id: i64, details: T },
    FileNameNotFound(T),
    FileNameNotUnique { name: T, details: T },
}

/// A failure.
pub type Error = ErrorOf<String>;

/// What a failure says.
pub type ErrorView = ErrorOf<Seq<char>>;

impl DeepView for Error {
    type V = ErrorView;

    open spec fn deep_view(&self) -> ErrorView {
        match self {
            ErrorOf::NotLogin => ErrorOf::NotLogin,
            ErrorOf::Failed(words) => ErrorOf::Failed(words@),
            ErrorOf::NotJson(words) => ErrorOf::NotJson(words@),
            ErrorOf::Malformed => ErrorOf::Malformed,
            ErrorOf::NotADate => ErrorOf::NotADate,
            ErrorOf::ConnectionFailed => ErrorOf::ConnectionFailed,
            ErrorOf::InvalidProxy { url, reason } => ErrorOf::InvalidProxy {
                url: url@,
                reason: reason@,
            },
            ErrorOf::LoginPageMissing => ErrorOf::LoginPageMissing,
            ErrorOf::ExecutionNotFound => ErrorOf::ExecutionNotFound,
            ErrorOf::ModulusNotFound => ErrorOf::ModulusNotFound,
            ErrorOf::ExponentNotFound => ErrorOf::ExponentNotFound,
            ErrorOf::WrongPassword => ErrorOf::WrongPassword,
            ErrorOf::UploadFailed => ErrorOf::UploadFailed,
            ErrorOf::TokenNotFound => ErrorOf::TokenNotFound,
            ErrorOf::Service(words) => ErrorOf::Service(words@),
            ErrorOf::PptFailed { course_id, sub_id } => ErrorOf::PptFailed {
                course_id: *course_id,
                sub_id: *sub_id,
            },
            ErrorOf::ImageFailed => ErrorOf::ImageFailed,
            ErrorOf::SsoReply(words) => ErrorOf::SsoReply(words@),
            ErrorOf::SsoUrlMissing => ErrorOf::SsoUrlMissing,
            ErrorOf::SsoStatus(status) => ErrorOf::SsoStatus(status@),
            ErrorOf::EvaluationFailed => ErrorOf::EvaluationFailed,
            ErrorOf::ScoreSession => ErrorOf::ScoreSession,
            ErrorOf::ScoreFailed => ErrorOf::ScoreFailed,
            ErrorOf::ProbeRedirected => ErrorOf::ProbeRedirected,
            ErrorOf::ProbeFailed => ErrorOf::ProbeFailed,
            ErrorOf::SubContent(words) => ErrorOf::SubContent(words@),
            ErrorOf::SocketUrlNotFound(sub_id) => ErrorOf::SocketUrlNotFound(*sub_id),
            ErrorOf::InvalidSocketUrl { url, reason } => ErrorOf::InvalidSocketUrl {
                url: url@,
                reason: reason@,
            },
            ErrorOf::SocketConnect { url, reason } => ErrorOf::SocketConnect {
                url: url@,
                reason: reason@,
            },
            ErrorOf::ScheduleNotFound(sub_id) => ErrorOf::ScheduleNotFound(*sub_id),
            ErrorOf::SessionNotFound(sub_id) => ErrorOf::SessionNotFound(*sub_id),
            ErrorOf::SubtitleFailed(code) => ErrorOf::SubtitleFailed(*code),
            ErrorOf::DownloadFailed => ErrorOf::DownloadFailed,
            ErrorOf::Captcha => ErrorOf::Captcha,
            ErrorOf::PintiaLogin(words) => ErrorOf::PintiaLogin(words@),
            ErrorOf::PintiaNoCookie => ErrorOf::PintiaNoCookie,
            ErrorOf::CookieEmpty => ErrorOf::CookieEmpty,
            ErrorOf::CookieInvalid => ErrorOf::CookieInvalid,
            ErrorOf::ProblemSets(status) => ErrorOf::ProblemSets(status@),
            ErrorOf::SessionExpired => ErrorOf::SessionExpired,
            ErrorOf::SessionOver => ErrorOf::SessionOver,
            ErrorOf::NoPassword => ErrorOf::NoPassword,
            ErrorOf::KeyringRead(reason) => ErrorOf::KeyringRead(reason@),
            ErrorOf::KeyringWrite(reason) => ErrorOf::KeyringWrite(reason@),
            ErrorOf::KeyringEmpty => ErrorOf::KeyringEmpty,
            ErrorOf::KeyringBlank => ErrorOf::KeyringBlank,
            ErrorOf::NoStoredPassword => ErrorOf::NoStoredPassword,
            ErrorOf::PasswordEmpty => ErrorOf::PasswordEmpty,
            ErrorOf::PasswordStdinEmpty => ErrorOf::PasswordStdinEmpty,
            ErrorOf::PasswordTwice => ErrorOf::PasswordTwice,
            ErrorOf::UsernameMissing => ErrorOf::UsernameMissing,
            ErrorOf::UsernameRequired => ErrorOf::UsernameRequired,
            ErrorOf::LoginRefused(reason) => ErrorOf::LoginRefused(reason@),
            ErrorOf::PdfFailed(reason) => ErrorOf::PdfFailed(reason@),
            ErrorOf::CourseNotFound(course_id) => ErrorOf::CourseNotFound(*course_id),
            ErrorOf::SubsNotFound(course_id) => ErrorOf::SubsNotFound(*course_id),
            ErrorOf::FileChoiceTwice => ErrorOf::FileChoiceTwice,
            ErrorOf::FileChoiceMissing => ErrorOf::FileChoiceMissing,
            ErrorOf::FileIdNotFound(id) => ErrorOf::FileIdNotFound(*id),
            ErrorOf::FileIdNotUnique { id, details } => ErrorOf::FileIdNotUnique {
                id: *id,
                details: details@,
            },
            ErrorOf::FileNameNotFound(name) => ErrorOf::FileNameNotFound(name@),
            ErrorOf::FileNameNotUnique { name, details } => ErrorOf::FileNameNotUnique {
                name: name@,
                details: details@,
            },
        }
    }
}

/// What an outcome says.
pub open spec fn outcome<T: DeepView>(result: Result<T, Error>) -> Result<T::V, ErrorView> {
    match result {
        Ok(value) => Ok(value.deep_view()),
        Err(error) => Err(error.deep_view()),
    }
}

/// The words for a failure.
pub open spec fn error_text(error: ErrorView) -> Seq<char> {
    match error {
        ErrorOf::NotLogin => "Not login"@,
        ErrorOf::Failed(words) => words,
        ErrorOf::NotJson(_) => "error decoding response body"@,
        ErrorOf::Malformed => "the reply lacks a part that it must have"@,
        ErrorOf::NotADate => "not a date"@,
        ErrorOf::ConnectionFailed => "Connection failed"@,
        ErrorOf::InvalidProxy { url, reason } => "Invalid proxy url '"@ + url + "': "@ + reason,
        ErrorOf::LoginPageMissing => "Login failed"@,
        ErrorOf::ExecutionNotFound => "Execution value not found"@,
        ErrorOf::ModulusNotFound => "Modulus not found"@,
        ErrorOf::ExponentNotFound => "Exponent not found"@,
        ErrorOf::WrongPassword => "Login failed: Wrong username or password"@,
        ErrorOf::UploadFailed => "Failed to get upload response"@,
        ErrorOf::TokenNotFound => "Token not found, try log in again"@,
        ErrorOf::Service(words) => words,
        ErrorOf::PptFailed { course_id, sub_id } => "Get ppt urls failed for course_id: "@
            + crate::numeral::decimal(course_id as int)
            + ", sub_id: "@
            + crate::numeral::decimal(sub_id as int)
            + ", please retry later."@,
        ErrorOf::ImageFailed => "Failed to download file after several attempts"@,
        ErrorOf::SsoReply(words) => "Parse zdbk SSO login url failed: "@ + words,
        ErrorOf::SsoUrlMissing => "zdbk SSO login failed: ssologinurl missing in successful response"@,
        ErrorOf::SsoStatus(status) => "zdbk SSO login failed: status is '"@ + status + "'"@,
        ErrorOf::EvaluationFailed => "Check evaluation failed"@,
        ErrorOf::ScoreSession => "Get score failed: ensure session failed"@,
        ErrorOf::ScoreFailed => "Get score failed"@,
        ErrorOf::ProbeRedirected => "Probe score failed: redirected to login page"@,
        ErrorOf::ProbeFailed => "Probe score failed"@,
        ErrorOf::SubContent(words) => "parse sub content failed: "@ + words,
        ErrorOf::SocketUrlNotFound(sub_id) => "trans_socket_url not found for sub_id "@
            + crate::numeral::decimal(sub_id as int),
        ErrorOf::InvalidSocketUrl { url, reason } => "invalid ws url "@ + url + ": "@ + reason,
        ErrorOf::SocketConnect { url, reason } => "live transcript ws connect failed: "@
            + url
            + " ("@
            + reason
            + ")"@,
        ErrorOf::ScheduleNotFound(sub_id) => "Scheduled task not found for sub_id "@
            + crate::numeral::decimal(sub_id as int),
        ErrorOf::SessionNotFound(sub_id) => "Live transcript session not found for sub_id "@
            + crate::numeral::decimal(sub_id as int),
        ErrorOf::SubtitleFailed(code) => "获取字幕失败，错误代码: "@ + crate::numeral::decimal(code as int),
        ErrorOf::DownloadFailed => "下载失败"@,
        ErrorOf::Captcha => "拼题A登录触发了人机验证（验证码）。请改用下方 Cookie 登录：在浏览器中登录 pintia.cn 后，按提示复制 PTASession Cookie 粘贴到此处。"@,
        ErrorOf::PintiaLogin(words) => "拼题A登录失败: "@ + words,
        ErrorOf::PintiaNoCookie => "拼题A登录未返回会话 Cookie，请重试"@,
        ErrorOf::CookieEmpty => "请粘贴 PTASession Cookie 的值"@,
        ErrorOf::CookieInvalid => "Cookie 无效或已过期"@,
        ErrorOf::ProblemSets(status) => "获取拼题A题集失败: HTTP "@ + status,
        ErrorOf::SessionExpired => "pintia session expired"@,
        ErrorOf::SessionOver => "拼题A会话已过期，请重新登录"@,
        ErrorOf::NoPassword => "No password available. Use 'login --save-password', or provide ZLA_PASSWORD env."@,
        ErrorOf::KeyringRead(reason) => "Cannot read password from keyring: "@ + reason,
        ErrorOf::KeyringWrite(reason) => "Cannot save password to keyring: "@ + reason,
        ErrorOf::KeyringEmpty => "Empty password in keyring. Please run login again and refresh credentials."@,
        ErrorOf::KeyringBlank => "Empty password in keyring."@,
        ErrorOf::NoStoredPassword => "No stored password in credential file for this user."@,
        ErrorOf::PasswordEmpty => "Password cannot be empty."@,
        ErrorOf::PasswordStdinEmpty => "Password from stdin cannot be empty."@,
        ErrorOf::PasswordTwice => "Use either --password or --password-stdin, not both."@,
        ErrorOf::UsernameMissing => "No saved username. Please run 'login' first."@,
        ErrorOf::UsernameRequired => "Username is required for first login."@,
        ErrorOf::LoginRefused(reason) => "Login failed: "@ + reason,
        ErrorOf::PdfFailed(reason) => "Failed to generate PDF: "@ + reason,
        ErrorOf::CourseNotFound(course_id) => "Course "@
            + crate::numeral::decimal(course_id as int)
            + " not found in your current course list."@,
        ErrorOf::SubsNotFound(course_id) => "No classroom sessions found for classroom course "@
            + crate::numeral::decimal(course_id as int)
            + "."@,
        ErrorOf::FileChoiceTwice => "Please provide either --file-id or --name, not both."@,
        ErrorOf::FileChoiceMissing => "Please provide --file-id or --name."@,
        ErrorOf::FileIdNotFound(id) => "File id "@
            + crate::numeral::decimal(id as int)
            + " not found in this course."@,
        ErrorOf::FileIdNotUnique { id, details } => "File id "@
            + crate::numeral::decimal(id as int)
            + " is not unique in this course. Candidates:\n"@
            + details,
        ErrorOf::FileNameNotFound(name) => "No file matched name '"@ + name + "'."@,
        ErrorOf::FileNameNotUnique { name, details } => "Multiple files matched name '"@
            + name
            + "'. Please use --file-id. Candidates:\n"@
            + details,
    }
}

impl ErrorOf<String> {
    /// The words for a failure.
    pub fn message(&self) -> (text: String)
        ensures
            text@ == error_text(self.deep_view()),
    {
        match self {
            ErrorOf::NotLogin => "Not login".to_owned(),
            ErrorOf::Failed(words) => words.clone(),
            ErrorOf::NotJson(_) => "error decoding response body".to_owned(),
            ErrorOf::Malformed => "the reply lacks a part that it must have".to_owned(),
            ErrorOf::NotADate => "not a date".to_owned(),
            ErrorOf::ConnectionFailed => "Connection failed".to_owned(),
            ErrorOf::InvalidProxy { url, reason } => {
                let mut text = "Invalid proxy url '".to_owned();
                text.append(url.as_str());
                text.append("': ");
                text.append(reason.as_str());
                text
            },
            ErrorOf::LoginPageMissing => "Login failed".to_owned(),
            ErrorOf::ExecutionNotFound => "Execution value not found".to_owned(),
            ErrorOf::ModulusNotFound => "Modulus not found".to_owned(),
            ErrorOf::ExponentNotFound => "Exponent not found".to_owned(),
            ErrorOf::WrongPassword => "Login failed: Wrong username or password".to_owned(),
            ErrorOf::UploadFailed => "Failed to get upload response".to_owned(),
            ErrorOf::TokenNotFound => "Token not found, try log in again".to_owned(),
            ErrorOf::Service(words) => words.clone(),
            ErrorOf::PptFailed { course_id, sub_id } => {
                let mut text = "Get ppt urls failed for course_id: ".to_owned();
                text.append(i64_text(*course_id).as_str());
                text.append(", sub_id: ");
                text.append(i64_text(*sub_id).as_str());
                text.append(", please retry later.");
                text
            },
            ErrorOf::ImageFailed => "Failed to download file after several attempts".to_owned(),
            ErrorOf::SsoReply(words) => {
                let mut text = "Parse zdbk SSO login url failed: ".to_owned();
                text.append(words.as_str());
                text
            },
            ErrorOf::SsoUrlMissing =>
                "zdbk SSO login failed: ssologinurl missing in successful response".to_owned(),
            ErrorOf::SsoStatus(status) => {
                let mut text = "zdbk SSO login failed: status is '".to_owned();
                text.append(status.as_str());
                text.append("'");
                text
            },
            ErrorOf::EvaluationFailed => "Check evaluation failed".to_owned(),
            ErrorOf::ScoreSession => "Get score failed: ensure session failed".to_owned(),
            ErrorOf::ScoreFailed => "Get score failed".to_owned(),
            ErrorOf::ProbeRedirected => "Probe score failed: redirected to login page".to_owned(),
            ErrorOf::ProbeFailed => "Probe score failed".to_owned(),
            ErrorOf::SubContent(words) => {
                let mut text = "parse sub content failed: ".to_owned();
                text.append(words.as_str());
                text
            },
            ErrorOf::SocketUrlNotFound(sub_id) => {
                let mut text = "trans_socket_url not found for sub_id ".to_owned();
                text.append(i64_text(*sub_id).as_str());
                text
            },
            ErrorOf::InvalidSocketUrl { url, reason } => {
                let mut text = "invalid ws url ".to_owned();
                text.append(url.as_str());
                text.append(": ");
                text.append(reason.as_str());
                text
            },
            ErrorOf::SocketConnect { url, reason } => {
                let mut text = "live transcript ws connect failed: ".to_owned();
                text.append(url.as_str());
                text.append(" (");
                text.append(reason.as_str());
                text.append(")");
                text
            },
            ErrorOf::ScheduleNotFound(sub_id) => {
                let mut text = "Scheduled task not found for sub_id ".to_owned();
                text.append(i64_text(*sub_id).as_str());
                text
            },
            ErrorOf::SessionNotFound(sub_id) => {
                let mut text = "Live transcript session not found for sub_id ".to_owned();
                text.append(i64_text(*sub_id).as_str());
                text
            },
            ErrorOf::SubtitleFailed(code) => {
                let mut text = "获取字幕失败，错误代码: ".to_owned();
                text.append(i64_text(*code).as_str());
                text
            },
            ErrorOf::DownloadFailed => "下载失败".to_owned(),
            ErrorOf::Captcha =>
                "拼题A登录触发了人机验证（验证码）。请改用下方 Cookie 登录：在浏览器中登录 pintia.cn 后，按提示复制 PTASession Cookie 粘贴到此处。".to_owned(),
            ErrorOf::PintiaLogin(words) => {
                let mut text = "拼题A登录失败: ".to_owned();
                text.append(words.as_str());
                text
            },
            ErrorOf::PintiaNoCookie => "拼题A登录未返回会话 Cookie，请重试".to_owned(),
            ErrorOf::CookieEmpty => "请粘贴 PTASession Cookie 的值".to_owned(),
            ErrorOf::CookieInvalid => "Cookie 无效或已过期".to_owned(),
            ErrorOf::ProblemSets(status) => {
                let mut text = "获取拼题A题集失败: HTTP ".to_owned();
                text.append(status.as_str());
                text
            },
            ErrorOf::SessionExpired => "pintia session expired".to_owned(),
            ErrorOf::SessionOver => "拼题A会话已过期，请重新登录".to_owned(),
            ErrorOf::NoPassword =>
                "No password available. Use 'login --save-password', or provide ZLA_PASSWORD env.".to_owned(),
            ErrorOf::KeyringRead(reason) => {
                let mut text = "Cannot read password from keyring: ".to_owned();
                text.append(reason.as_str());
                text
            },
            ErrorOf::KeyringWrite(reason) => {
                let mut text = "Cannot save password to keyring: ".to_owned();
                text.append(reason.as_str());
                text
            },
            ErrorOf::KeyringEmpty =>
                "Empty password in keyring. Please run login again and refresh credentials.".to_owned(),
            ErrorOf::KeyringBlank => "Empty password in keyring.".to_owned(),
            ErrorOf::NoStoredPassword =>
                "No stored password in credential file for this user.".to_owned(),
            ErrorOf::PasswordEmpty => "Password cannot be empty.".to_owned(),
            ErrorOf::PasswordStdinEmpty => "Password from stdin cannot be empty.".to_owned(),
            ErrorOf::PasswordTwice =>
                "Use either --password or --password-stdin, not both.".to_owned(),
            ErrorOf::UsernameMissing => "No saved username. Please run 'login' first.".to_owned(),
            ErrorOf::UsernameRequired => "Username is required for first login.".to_owned(),
            ErrorOf::LoginRefused(reason) => {
                let mut text = "Login failed: ".to_owned();
                text.append(reason.as_str());
                text
            },
            ErrorOf::PdfFailed(reason) => {
                let mut text = "Failed to generate PDF: ".to_owned();
                text.append(reason.as_str());
                text
            },
            ErrorOf::CourseNotFound(course_id) => {
                let mut text = "Course ".to_owned();
                text.append(i64_text(*course_id).as_str());
                text.append(" not found in your current course list.");
                text
            },
            ErrorOf::SubsNotFound(course_id) => {
                let mut text = "No classroom sessions found for classroom course ".to_owned();
                text.append(i64_text(*course_id).as_str());
                text.append(".");
                text
            },
            ErrorOf::FileChoiceTwice =>
                "Please provide either --file-id or --name, not both.".to_owned(),
            ErrorOf::FileChoiceMissing => "Please provide --file-id or --name.".to_owned(),
            ErrorOf::FileIdNotFound(id) => {
                let mut text = "File id ".to_owned();
                text.append(i64_text(*id).as_str());
                text.append(" not found in this course.");
                text
            },
            ErrorOf::FileIdNotUnique { id, details } => {
                let mut text = "File id ".to_owned();
                text.append(i64_text(*id).as_str());
                text.append(" is not unique in this course. Candidates:\n");
                text.append(details.as_str());
                text
            },
            ErrorOf::FileNameNotFound(name) => {
                let mut text = "No file matched name '".to_owned();
                text.append(name.as_str());
                text.append("'.");
                text
            },
            ErrorOf::FileNameNotUnique { name, details } => {
                let mut text = "Multiple files matched name '".to_owned();
                text.append(name.as_str());
                text.append("'. Please use --file-id. Candidates:\n");
                text.append(details.as_str());
                text
            },
        }
    }
}

} // verus!
