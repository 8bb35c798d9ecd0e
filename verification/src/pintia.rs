//! The problem set service: its requests, and its session.
use std::sync::Arc;
use reqwest::cookie::Jar;
use vstd::prelude::*;
use crate::boundary::{
    cookies_for, cookies_shown, jar_seed, jar_with_cookie, new_jar, PINTIA_SITE,
};
use crate::error::{outcome, Error, ErrorOf, ErrorView};
use crate::json::{
    a_field_is_found_by_its_key, json_field, json_object, json_of_text, parse_text, Json, JsonView,
};
use crate::request::{add_pair, Method, Pairs, PairsView};
use crate::text::{
    a_part_is_found_where_it_stands, a_text_is_its_trimmed_text_in_space, all_space,
    before_a_character_is_the_first_part, before_char, contains, contains_text, is_white_space,
    occurs_at, same, strip_prefix, trim, trimmed, trimming_takes_the_space_around, up_to_char,
};

verus! {

// ---------------------------------------------------------------- requests

/// The address at which one logs in.
pub const PASSPORT_URL: &'static str = "https://passport.pintia.cn/api/users/sessions";

/// The address that shows whether a session is known.
pub const PROBE_URL: &'static str = "https://pintia.cn/api/problem-sets?limit=1";

/// The time after which a request is given up.
pub const REQUEST_TIMEOUT_SECS: u64 = 30;

/// The least time between two requests.
pub const MIN_REQUEST_INTERVAL_NANOS: u128 = 600_000_000;

/// A request to the problem set service.
pub struct PintiaRequest {
    pub jar: Arc<Jar>,
    pub method: Method,
    pub url: String,
    pub headers: Pairs,
    pub query: Pairs,
    pub payload: Option<Json>,
}

/// What a request to the problem set service says.
pub struct PintiaRequestView {
    pub jar: Arc<Jar>,
    pub method: Method,
    pub url: Seq<char>,
    pub headers: PairsView,
    pub query: PairsView,
    pub payload: Option<JsonView>,
}

impl DeepView for PintiaRequest {
    type V = PintiaRequestView;

    open spec fn deep_view(&self) -> PintiaRequestView {
        PintiaRequestView {
            jar: self.jar,
            method: self.method,
            url: self.url@,
            headers: self.headers.deep_view(),
            query: self.query.deep_view(),
            payload: self.payload.deep_view(),
        }
    }
}

/// A reply of the problem set service.
#[allow(inconsistent_fields)]
pub enum PintiaReply {
    /// It did what was asked.
    Success { body: Vec<u8> },
    /// It refused; the status is there as a number and in words.
    Refused { status: u16, status_text: String, body: String },
}

/// What a reply of the problem set service says.
#[allow(inconsistent_fields)]
pub enum PintiaReplyView {
    Success { body: Seq<u8> },
    Refused { status: u16, status_text: Seq<char>, body: Seq<char> },
}

impl DeepView for PintiaReply {
    type V = PintiaReplyView;

    open spec fn deep_view(&self) -> PintiaReplyView {
        match self {
            PintiaReply::Success { body } => PintiaReplyView::Success { body: body@ },
            PintiaReply::Refused { status, status_text, body } => PintiaReplyView::Refused {
                status: *status,
                status_text: status_text@,
                body: body@,
            },
        }
    }
}

/// A session with the problem set service.
#[derive(Clone)]
pub struct PintiaAssist {
    pub jar: Arc<Jar>,
    pub have_login: bool,
    /// Logged in by a cookie, so that there is no password to log in with again.
    pub cookie_login: bool,
    pub account: String,
    pub password: String,
}

/// What a session with the problem set service says.
pub struct PintiaView {
    pub jar: Arc<Jar>,
    pub have_login: bool,
    pub cookie_login: bool,
    pub account: Seq<char>,
    pub password: Seq<char>,
}

impl DeepView for PintiaAssist {
    type V = PintiaView;

    open spec fn deep_view(&self) -> PintiaView {
        PintiaView {
            jar: self.jar,
            have_login: self.have_login,
            cookie_login: self.cookie_login,
            account: self.account@,
            password: self.password@,
        }
    }
}

/// The headers of every request.
pub open spec fn pintia_headers() -> PairsView {
    seq![
        ("accept"@, "application/json;charset=UTF-8"@),
        ("origin"@, "https://pintia.cn"@),
        ("referer"@, "https://pintia.cn/"@),
    ]
}

impl PintiaView {
    /// A request of this session.
    pub open spec fn request(self, method: Method, url: Seq<char>) -> PintiaRequestView {
        PintiaRequestView {
            jar: self.jar,
            method,
            url,
            headers: pintia_headers(),
            query: Seq::empty(),
            payload: None,
        }
    }

    /// The session can be opened again without its user.
    pub open spec fn can_relogin(self) -> bool {
        !self.cookie_login && self.password.len() > 0
    }

    /// The session with nobody logged in, but nothing forgotten.
    pub open spec fn over(self) -> PintiaView {
        PintiaView { have_login: false, ..self }
    }
}

/// The wait before the next request, when some time has passed since the last one.
pub open spec fn throttle_wait(elapsed_nanos: u128) -> Option<u128> {
    if elapsed_nanos <= MIN_REQUEST_INTERVAL_NANOS {
        Some((MIN_REQUEST_INTERVAL_NANOS - elapsed_nanos) as u128)
    } else {
        None
    }
}

/// Two requests are never closer to each other than the least time, and none waits longer than
/// it must.
pub proof fn requests_keep_their_distance(elapsed_nanos: u128)
    ensures
        match throttle_wait(elapsed_nanos) {
            Some(wait) => elapsed_nanos + wait == MIN_REQUEST_INTERVAL_NANOS,
            None => elapsed_nanos > MIN_REQUEST_INTERVAL_NANOS,
        },
{
}

impl PintiaAssist {
    /// A session in which nobody is logged in.
    pub fn new() -> (assist: PintiaAssist)
        ensures
            !assist.have_login,
            !assist.cookie_login,
            assist.account@.len() == 0,
            assist.password@.len() == 0,
            jar_seed(*assist.jar) is None,
    {
        PintiaAssist {
            jar: Arc::new(new_jar()),
            have_login: false,
            cookie_login: false,
            account: String::new(),
            password: String::new(),
        }
    }

    /// Whether an account is logged in.
    pub fn is_login(&self) -> (yes: bool)
        ensures
            yes == self.have_login,
    {
        self.have_login
    }

    /// The account that is logged in.
    pub fn get_account(&self) -> (account: String)
        ensures
            account@ == self.account@,
    {
        self.account.clone()
    }

    /// A request of this session.
    pub fn request(&self, method: Method, url: &str) -> (request: PintiaRequest)
        ensures
            request.deep_view() == self.deep_view().request(method, url@),
    {
        let mut headers: Pairs = Vec::new();
        assert(headers.deep_view() =~= Seq::<(Seq<char>, Seq<char>)>::empty());
        add_pair(&mut headers, "accept", "application/json;charset=UTF-8");
        add_pair(&mut headers, "origin", "https://pintia.cn");
        add_pair(&mut headers, "referer", "https://pintia.cn/");
        assert(headers.deep_view() =~= pintia_headers());
        let query: Pairs = Vec::new();
        assert(query.deep_view() =~= Seq::<(Seq<char>, Seq<char>)>::empty());
        PintiaRequest {
            jar: self.jar.clone(),
            method,
            url: url.to_owned(),
            headers,
            query,
            payload: None,
        }
    }

    /// The wait before the next request, when some time has passed since the last one.
    pub fn throttle(elapsed_nanos: u128) -> (wait: Option<u128>)
        ensures
            wait == throttle_wait(elapsed_nanos),
    {
        if elapsed_nanos <= MIN_REQUEST_INTERVAL_NANOS {
            Some(MIN_REQUEST_INTERVAL_NANOS - elapsed_nanos)
        } else {
            None
        }
    }

    /// Forgets the account and its cookies.
    pub fn logout(&mut self)
        ensures
            final(self).deep_view() == (PintiaView {
                jar: final(self).jar,
                have_login: false,
                cookie_login: false,
                account: Seq::empty(),
                password: Seq::empty(),
            }),
            jar_seed(*final(self).jar) is None,
    {
        self.jar = Arc::new(new_jar());
        self.have_login = false;
        self.cookie_login = false;
        self.account = String::new();
        self.password = String::new();
    }
}

// ---------------------------------------------------------------- the session cookie

/// A session cookie is among the cookies.
pub open spec fn session_among(cookies: Option<Seq<char>>) -> bool {
    cookies matches Some(cookies) && contains_text(cookies, "PTASession="@)
}

/// Whether a session cookie is among the cookies.
pub fn has_session(cookies: &Option<String>) -> (yes: bool)
    ensures
        yes == session_among(cookies.deep_view()),
{
    match cookies {
        Some(cookies) => contains(cookies.as_str(), "PTASession="),
        None => false,
    }
}

impl PintiaAssist {
    /// Whether the service has set a session cookie.
    pub fn has_session_cookie(&self) -> (yes: bool)
        ensures
            exists|cookies: Option<Seq<char>>|
                cookies_shown(*self.jar, PINTIA_SITE@, cookies) && yes
                    == #[trigger] session_among(cookies),
    {
        let cookies = cookies_for(&self.jar, PINTIA_SITE);
        let yes = has_session(&cookies);
        assert(yes == session_among(cookies.deep_view()));
        yes
    }
}

// ---------------------------------------------------------------- logging in by password

/// What is sent to log in: a name with an at sign is a mail address, any other a phone number.
pub open spec fn login_payload(username: Seq<char>, password: Seq<char>) -> JsonView {
    if contains_text(username, "@"@) {
        JsonView::Object(
            seq![
                ("email"@, JsonView::Text(username)),
                ("inMiniProgram"@, JsonView::Bool(false)),
                ("password"@, JsonView::Text(password)),
                ("rememberMe"@, JsonView::Bool(true)),
            ],
        )
    } else {
        JsonView::Object(
            seq![
                ("inMiniProgram"@, JsonView::Bool(false)),
                ("password"@, JsonView::Text(password)),
                ("phone"@, JsonView::Text(username)),
                ("rememberMe"@, JsonView::Bool(true)),
            ],
        )
    }
}

/// The request to log in.
pub open spec fn login_asked(
    assist: PintiaView,
    username: Seq<char>,
    password: Seq<char>,
) -> PintiaRequestView {
    PintiaRequestView {
        payload: Some(login_payload(username, password)),
        ..assist.request(Method::Post, PASSPORT_URL@)
    }
}

/// A text within the error that a refusal carries; empty if there is none.
pub open spec fn error_field(body: Result<JsonView, Seq<char>>, key: Seq<char>) -> Seq<char> {
    match body {
        Ok(json) => match json.at("error"@).at(key).text() {
            Some(text) => text,
            None => Seq::empty(),
        },
        Err(_) => Seq::empty(),
    }
}

/// Why a login was refused.
pub open spec fn login_refusal(
    status_text: Seq<char>,
    body: Result<JsonView, Seq<char>>,
) -> ErrorView {
    if error_field(body, "code"@) == "GATEWAY_WRONG_CAPTCHA"@ {
        ErrorOf::Captcha
    } else if error_field(body, "message"@).len() == 0 {
        ErrorOf::PintiaLogin("HTTP "@ + status_text)
    } else {
        ErrorOf::PintiaLogin(error_field(body, "message"@))
    }
}

/// The session and the outcome of a login, when the reply is there and it is known whether the
/// service has set a session cookie.
pub open spec fn login_outcome(
    assist: PintiaView,
    username: Seq<char>,
    password: Seq<char>,
    reply: PintiaReplyView,
    has_cookie: bool,
) -> (PintiaView, Result<Seq<char>, ErrorView>) {
    match reply {
        PintiaReplyView::Refused { status_text, body, .. } => (
            assist,
            Err(login_refusal(status_text, json_of_text(body))),
        ),
        PintiaReplyView::Success { .. } => if has_cookie {
            (
                PintiaView {
                    have_login: true,
                    cookie_login: false,
                    account: username,
                    password,
                    ..assist
                },
                Ok(username),
            )
        } else {
            (assist, Err(ErrorOf::PintiaNoCookie))
        },
    }
}

fn payload_of(username: &str, password: &str) -> (payload: Json)
    ensures
        payload@ == login_payload(username@, password@),
{
    let mut fields: Vec<(String, Json)> = Vec::new();
    assert(fields.deep_view() =~= Seq::<(Seq<char>, JsonView)>::empty());
    let is_mail = contains(username, "@");
    if is_mail {
        json_field(&mut fields, "email", Json::Text(username.to_owned()));
    }
    json_field(&mut fields, "inMiniProgram", Json::Bool(false));
    json_field(&mut fields, "password", Json::Text(password.to_owned()));
    if !is_mail {
        json_field(&mut fields, "phone", Json::Text(username.to_owned()));
    }
    json_field(&mut fields, "rememberMe", Json::Bool(true));
    assert(fields.deep_view() =~= login_payload(username@, password@)->Object_0);
    json_object(fields)
}

fn error_text_of(body: &Option<Json>, key: &str) -> (text: String)
    ensures
        text@ == error_field(
            match *body {
                Some(json) => Ok::<JsonView, Seq<char>>(json@),
                None => Err(Seq::empty()),
            },
            key@,
        ),
{
    if let Some(json) = body {
        if let Some(error) = json.get("error") {
            if let Some(text) = error.text_at(key) {
                return text.to_owned();
            }
        }
    }
    String::new()
}

impl PintiaAssist {
    /// Starts to log in with a mail address or a phone number.
    pub fn login(&self, username: &str, password: &str) -> (request: PintiaRequest)
        ensures
            request.deep_view() == login_asked(self.deep_view(), username@, password@),
    {
        let mut request = self.request(Method::Post, PASSPORT_URL);
        request.payload = Some(payload_of(username, password));
        request
    }

    /// Why a login was refused, from the body of the refusal if that is JSON.
    pub fn login_refused(status_text: &str, body: &Option<Json>) -> (error: Error)
        ensures
            error.deep_view() == login_refusal(
                status_text@,
                match *body {
                    Some(json) => Ok::<JsonView, Seq<char>>(json@),
                    None => Err(Seq::empty()),
                },
            ),
    {
        if same(error_text_of(body, "code").as_str(), "GATEWAY_WRONG_CAPTCHA") {
            return ErrorOf::Captcha;
        }
        let message = error_text_of(body, "message");
        if message.as_str().is_empty() {
            let mut words = "HTTP ".to_owned();
            words.append(status_text);
            ErrorOf::PintiaLogin(words)
        } else {
            ErrorOf::PintiaLogin(message)
        }
    }

    /// Takes up the reply to a login, when it is known whether there is a session cookie.
    pub fn login_reply_with(
        &mut self,
        username: &str,
        password: &str,
        reply: &PintiaReply,
        has_cookie: bool,
    ) -> (account: Result<String, Error>)
        ensures
            (final(self).deep_view(), outcome(account)) == login_outcome(
                old(self).deep_view(),
                username@,
                password@,
                reply.deep_view(),
                has_cookie,
            ),
    {
        match reply {
            PintiaReply::Refused { status_text, body, .. } => {
                let body = match parse_text(body.as_str()) {
                    Ok(json) => Some(json),
                    Err(_) => None,
                };
                Err(PintiaAssist::login_refused(status_text.as_str(), &body))
            },
            PintiaReply::Success { .. } => {
                if !has_cookie {
                    return Err(ErrorOf::PintiaNoCookie);
                }
                self.have_login = true;
                self.cookie_login = false;
                self.account = username.to_owned();
                self.password = password.to_owned();
                Ok(username.to_owned())
            },
        }
    }

    /// Takes up the reply to a login.
    pub fn login_reply(&mut self, username: &str, password: &str, reply: &PintiaReply) -> (account:
        Result<String, Error>)
        ensures
            exists|cookies: Option<Seq<char>>|
                cookies_shown(*old(self).jar, PINTIA_SITE@, cookies) && (
                final(self).deep_view(), outcome(account)) == login_outcome(
                    old(self).deep_view(),
                    username@,
                    password@,
                    reply.deep_view(),
                    #[trigger] session_among(cookies),
                ),
    {
        let has_cookie = self.has_session_cookie();
        let ghost cookies = choose|cookies: Option<Seq<char>>|
            cookies_shown(*self.jar, PINTIA_SITE@, cookies) && has_cookie
                == #[trigger] session_among(cookies);
        let account = self.login_reply_with(username, password, reply, has_cookie);
        assert((self.deep_view(), outcome(account)) == login_outcome(
            old(self).deep_view(),
            username@,
            password@,
            reply.deep_view(),
            session_among(cookies),
        ));
        account
    }
}

// ---------------------------------------------------------------- logging in by cookie

/// The value of the session cookie in a text that a user pastes, with or without its name and
/// with or without more cookies behind it.
pub open spec fn pasted_session(text: Seq<char>) -> Seq<char> {
    let bare = trimmed(text);
    let value = if occurs_at(bare, "PTASession="@, 0) {
        bare.skip("PTASession="@.len() as int)
    } else {
        bare
    };
    trimmed(before_char(value, ';'))
}

/// The cookie with a value, as a service would set it.
pub open spec fn session_cookie(value: Seq<char>) -> Seq<char> {
    "PTASession="@ + value + "; Domain=.pintia.cn; Path=/"@
}

/// The name of an account that is logged in by a cookie.
pub const COOKIE_ACCOUNT: &'static str = "Cookie 登录";

/// The reply shows that the session is known. Too many requests are no sign that it is not.
pub open spec fn probe_passes(reply: PintiaReplyView) -> bool {
    match reply {
        PintiaReplyView::Success { .. } => true,
        PintiaReplyView::Refused { status, .. } => status == 429,
    }
}

fn pasted_value(text: &str) -> (value: String)
    ensures
        value@ == pasted_session(text@),
{
    let bare = trim(text);
    let value = match strip_prefix(bare.as_str(), "PTASession=") {
        Some(rest) => rest,
        None => bare,
    };
    trim(up_to_char(value.as_str(), ';').as_str())
}

impl PintiaAssist {
    /// Asks for something that only a known session may see.
    pub fn probe_session(&self) -> (request: PintiaRequest)
        ensures
            request.deep_view() == self.deep_view().request(Method::Get, PROBE_URL@),
    {
        self.request(Method::Get, PROBE_URL)
    }

    /// Whether the reply shows that the session is known.
    pub fn probe_reply(reply: &PintiaReply) -> (known: bool)
        ensures
            known == probe_passes(reply.deep_view()),
    {
        match reply {
            PintiaReply::Success { .. } => true,
            PintiaReply::Refused { status, .. } => *status == 429,
        }
    }

    /// Starts to log in by a cookie that a user pastes: the session gets a jar with this cookie
    /// alone, and is probed.
    pub fn login_with_cookie(&mut self, session: &str) -> (request: Result<PintiaRequest, Error>)
        ensures
            pasted_session(session@).len() == 0 ==> {
                &&& *final(self) == *old(self)
                &&& outcome(request) == Err::<PintiaRequestView, ErrorView>(ErrorOf::CookieEmpty)
            },
            pasted_session(session@).len() > 0 ==> {
                &&& jar_seed(*final(self).jar) == Some(
                    (session_cookie(pasted_session(session@)), PINTIA_SITE@),
                )
                &&& final(self).deep_view() == (PintiaView {
                    jar: final(self).jar,
                    ..old(self).deep_view()
                })
                &&& outcome(request) == Ok::<PintiaRequestView, ErrorView>(
                    final(self).deep_view().request(Method::Get, PROBE_URL@),
                )
            },
    {
        let value = pasted_value(session);
        if value.as_str().is_empty() {
            return Err(ErrorOf::CookieEmpty);
        }
        let mut cookie = "PTASession=".to_owned();
        cookie.append(value.as_str());
        cookie.append("; Domain=.pintia.cn; Path=/");
        self.jar = Arc::new(jar_with_cookie(cookie.as_str(), PINTIA_SITE));
        Ok(self.probe_session())
    }

    /// Takes up the reply to the probe of a pasted cookie.
    pub fn cookie_login_reply(&mut self, reply: &PintiaReply) -> (account: Result<String, Error>)
        ensures
            probe_passes(reply.deep_view()) ==> {
                &&& final(self).deep_view() == (PintiaView {
                    jar: old(self).jar,
                    have_login: true,
                    cookie_login: true,
                    account: COOKIE_ACCOUNT@,
                    password: Seq::empty(),
                })
                &&& outcome(account) == Ok::<Seq<char>, ErrorView>(COOKIE_ACCOUNT@)
            },
            !probe_passes(reply.deep_view()) ==> {
                &&& *final(self) == *old(self)
                &&& outcome(account) == Err::<Seq<char>, ErrorView>(ErrorOf::CookieInvalid)
            },
    {
        if !PintiaAssist::probe_reply(reply) {
            return Err(ErrorOf::CookieInvalid);
        }
        self.have_login = true;
        self.cookie_login = true;
        self.password = String::new();
        self.account = COOKIE_ACCOUNT.to_owned();
        Ok(COOKIE_ACCOUNT.to_owned())
    }
}

// ---------------------------------------------------------------- checking the session

/// What the check of a session does next.
pub enum CheckStep {
    /// The account that is logged in, if one is.
    Done(Result<Option<String>, Error>),
    /// The session is probed.
    Probe(PintiaRequest),
    /// The account logs in again.
    Login(PintiaRequest),
}

/// What the next step of the check says.
pub enum CheckStepView {
    Done(Result<Option<Seq<char>>, ErrorView>),
    Probe(PintiaRequestView),
    Login(PintiaRequestView),
}

impl DeepView for CheckStep {
    type V = CheckStepView;

    open spec fn deep_view(&self) -> CheckStepView {
        match self {
            CheckStep::Done(result) => CheckStepView::Done(outcome(*result)),
            CheckStep::Probe(request) => CheckStepView::Probe(request.deep_view()),
            CheckStep::Login(request) => CheckStepView::Login(request.deep_view()),
        }
    }
}

/// The first step of the check.
pub open spec fn check_start(assist: PintiaView) -> CheckStepView {
    if assist.have_login {
        CheckStepView::Probe(assist.request(Method::Get, PROBE_URL@))
    } else {
        CheckStepView::Done(Ok(None))
    }
}

/// The session and the step after the probe.
pub open spec fn check_probed(assist: PintiaView, known: bool) -> (PintiaView, CheckStepView) {
    if known {
        (assist, CheckStepView::Done(Ok(Some(assist.account))))
    } else if assist.can_relogin() {
        (assist, CheckStepView::Login(login_asked(assist, assist.account, assist.password)))
    } else {
        (assist.over(), CheckStepView::Done(Ok(None)))
    }
}

/// The session and the outcome after the account logged in again, or did not.
pub open spec fn check_relogged(
    assist: PintiaView,
    login: Result<Seq<char>, ErrorView>,
) -> (PintiaView, Result<Option<Seq<char>>, ErrorView>) {
    match login {
        Ok(account) => (assist, Ok(Some(account))),
        Err(error) => (assist.over(), Err(error)),
    }
}

impl PintiaAssist {
    pub(crate) fn relogin_possible(&self) -> (yes: bool)
        ensures
            yes == self.deep_view().can_relogin(),
    {
        !self.cookie_login && !self.password.as_str().is_empty()
    }

    /// Starts to check whether the session is still known.
    pub fn check_login(&self) -> (step: CheckStep)
        ensures
            step.deep_view() == check_start(self.deep_view()),
    {
        if self.have_login {
            CheckStep::Probe(self.probe_session())
        } else {
            CheckStep::Done(Ok(None))
        }
    }

    /// Takes up the reply to the probe.
    pub fn check_probe(&mut self, reply: &PintiaReply) -> (step: CheckStep)
        ensures
            (final(self).deep_view(), step.deep_view()) == check_probed(
                old(self).deep_view(),
                probe_passes(reply.deep_view()),
            ),
    {
        if PintiaAssist::probe_reply(reply) {
            return CheckStep::Done(Ok(Some(self.account.clone())));
        }
        if !self.relogin_possible() {
            self.have_login = false;
            return CheckStep::Done(Ok(None));
        }
        CheckStep::Login(self.login(self.account.as_str(), self.password.as_str()))
    }

    /// Takes up whether the account logged in again.
    pub fn check_relogin(&mut self, login: Result<String, Error>) -> (account: Result<
        Option<String>,
        Error,
    >)
        ensures
            (final(self).deep_view(), outcome(account)) == check_relogged(
                old(self).deep_view(),
                outcome(login),
            ),
    {
        match login {
            Ok(account) => Ok(Some(account)),
            Err(error) => {
                self.have_login = false;
                Err(error)
            },
        }
    }
}

/// A check tells an account exactly when the session is logged in afterwards, whatever the
/// service answers; `known` is what the probe shows, and `reply` and `has_cookie` what comes of
/// logging in again.
pub proof fn a_check_tells_who_is_logged_in(
    assist: PintiaView,
    known: bool,
    reply: PintiaReplyView,
    has_cookie: bool,
)
    ensures
        ({
            let (after, told) = if !assist.have_login {
                (assist, check_start(assist)->Done_0)
            } else {
                match check_probed(assist, known) {
                    (after, CheckStepView::Done(told)) => (after, told),
                    (after, _) => {
                        let (logged, account) = login_outcome(
                            after,
                            after.account,
                            after.password,
                            reply,
                            has_cookie,
                        );
                        check_relogged(logged, account)
                    },
                }
            };
            &&& after.have_login <==> (told matches Ok(Some(_)))
            &&& (told matches Ok(Some(account)) ==> account == assist.account)
            &&& after.account == assist.account
            &&& after.password == assist.password
        }),
{
}

// ---------------------------------------------------------------- what the service is told

/// Every request goes with the cookies of the session, to the address that is given, and says
/// where it comes from and what it takes.
pub proof fn a_request_says_where_it_comes_from(
    assist: PintiaView,
    method: Method,
    url: Seq<char>,
)
    ensures
        ({
            let request = assist.request(method, url);
            &&& request.jar == assist.jar
            &&& request.method == method
            &&& request.url == url
            &&& request.headers.len() == 3
            &&& request.headers[0] == ("accept"@, "application/json;charset=UTF-8"@)
            &&& request.headers[1] == ("origin"@, "https://pintia.cn"@)
            &&& request.headers[2] == ("referer"@, "https://pintia.cn/"@)
            &&& request.query.len() == 0
            &&& request.payload is None
        }),
{
}

/// Between two requests there are six tenths of a second: who comes sooner waits for the rest.
pub proof fn requests_are_apart_by_six_tenths(elapsed_nanos: u128)
    ensures
        elapsed_nanos <= 600_000_000 ==> (throttle_wait(elapsed_nanos) matches Some(wait)
            && elapsed_nanos + wait == 600_000_000),
        elapsed_nanos > 600_000_000 ==> throttle_wait(elapsed_nanos) is None,
{
}

/// Who logs in is named as a mailbox where an at sign stands in the name, and as a telephone
/// otherwise, beside the password.
pub proof fn an_account_is_a_mailbox_or_a_telephone(
    assist: PintiaView,
    username: Seq<char>,
    password: Seq<char>,
)
    ensures
        login_asked(assist, username, password).method is Post,
        login_asked(assist, username, password).url == PASSPORT_URL@,
        login_asked(assist, username, password).jar == assist.jar,
        login_asked(assist, username, password).payload matches Some(payload) && {
            &&& payload.at("password"@) == JsonView::Text(password)
            &&& payload.at("rememberMe"@) == JsonView::Bool(true)
            &&& payload.at("inMiniProgram"@) == JsonView::Bool(false)
            &&& if exists|i: int| 0 <= i < username.len() && #[trigger] username[i] == '@' {
                payload.at("email"@) == JsonView::Text(username) && payload.get("phone"@) is None
            } else {
                payload.at("phone"@) == JsonView::Text(username) && payload.get("email"@) is None
            }
        },
{
    reveal_strlit("@");
    reveal_strlit("email");
    reveal_strlit("phone");
    reveal_strlit("password");
    reveal_strlit("rememberMe");
    reveal_strlit("inMiniProgram");
    let payload = login_payload(username, password);
    let fields = payload.fields()->0;
    assert("email"@[0] == 'e' && "phone"@[1] == 'h' && "phone"@[0] == 'p' && "password"@[1] == 'a'
        && "password"@[0] == 'p' && "rememberMe"@[0] == 'r' && "inMiniProgram"@[0] == 'i');
    if exists|i: int| 0 <= i < username.len() && #[trigger] username[i] == '@' {
        let i = choose|i: int| 0 <= i < username.len() && #[trigger] username[i] == '@';
        assert(username.subrange(i, i + 1) =~= "@"@);
        assert(occurs_at(username, "@"@, i));
        a_field_is_found_by_its_key(fields, "email"@, 0);
        a_field_is_found_by_its_key(fields, "inMiniProgram"@, 1);
        a_field_is_found_by_its_key(fields, "password"@, 2);
        a_field_is_found_by_its_key(fields, "rememberMe"@, 3);
        a_field_is_found_by_its_key(fields, "phone"@, 0);
    } else {
        if contains_text(username, "@"@) {
            let i = choose|i: int| occurs_at(username, "@"@, i);
            assert(username.subrange(i, i + 1)[0] == "@"@[0]);
            assert(username[i] == '@');
        }
        a_field_is_found_by_its_key(fields, "inMiniProgram"@, 0);
        a_field_is_found_by_its_key(fields, "password"@, 1);
        a_field_is_found_by_its_key(fields, "phone"@, 2);
        a_field_is_found_by_its_key(fields, "rememberMe"@, 3);
        a_field_is_found_by_its_key(fields, "email"@, 0);
    }
}

/// A login that the service refuses is told in the words of the service, or by the status where it
/// has none. Only the code for a wrong captcha is told as one.
pub proof fn a_refused_login_is_told_in_words(
    status_text: Seq<char>,
    json: JsonView,
    words: Seq<char>,
)
    ensures
        ({
            let code = json.at("error"@).at("code"@).text();
            let message = json.at("error"@).at("message"@).text();
            let told = login_refusal(status_text, Ok(json));
            &&& told == ErrorView::Captcha <==> code == Some("GATEWAY_WRONG_CAPTCHA"@)
            &&& code != Some("GATEWAY_WRONG_CAPTCHA"@) && message is Some && message->0.len() > 0
                ==> told == ErrorView::PintiaLogin(message->0)
            &&& code != Some("GATEWAY_WRONG_CAPTCHA"@) && (message is None || message->0.len()
                == 0) ==> told == ErrorView::PintiaLogin("HTTP "@ + status_text)
        }),
        login_refusal(status_text, Err(words)) == ErrorView::PintiaLogin("HTTP "@ + status_text),
{
    reveal_strlit("GATEWAY_WRONG_CAPTCHA");
    assert(Seq::<char>::empty().len() == 0);
    assert("GATEWAY_WRONG_CAPTCHA"@.len() > 0);
}

/// Only a reply that did what was asked, with a session among the cookies, logs in: under the name
/// and the password that were sent. Anything else changes nothing.
pub proof fn only_a_session_logs_in(
    assist: PintiaView,
    username: Seq<char>,
    password: Seq<char>,
    reply: PintiaReplyView,
    has_cookie: bool,
)
    ensures
        ({
            let (after, told) = login_outcome(assist, username, password, reply, has_cookie);
            &&& told is Ok <==> reply is Success && has_cookie
            &&& told is Ok ==> {
                &&& told == Ok::<Seq<char>, ErrorView>(username)
                &&& after.have_login && !after.cookie_login
                &&& after.account == username && after.password == password
                &&& after.jar == assist.jar
            }
            &&& told is Err ==> after == assist
            &&& reply is Success && !has_cookie ==> told == Err::<Seq<char>, ErrorView>(
                ErrorView::PintiaNoCookie,
            )
            &&& (reply matches PintiaReplyView::Refused { status_text, body, .. } ==> told == Err::<
                Seq<char>,
                ErrorView,
            >(login_refusal(status_text, json_of_text(body))))
        }),
{
}

/// The value of a session cookie is what was pasted, without the space around it, the name of the
/// cookie in front, and whatever comes behind a semicolon.
pub proof fn the_value_of_a_cookie_is_pasted(
    before: Seq<char>,
    value: Seq<char>,
    rest: Seq<char>,
)
    requires
        all_space(before),
        value.len() > 0,
        !is_white_space(value[0]),
        !is_white_space(value.last()),
        forall|i: int| 0 <= i < value.len() ==> #[trigger] value[i] != ';',
        rest.len() > 0 ==> rest[0] == ';' || all_space(rest),
    ensures
        pasted_session(before + "PTASession="@ + value + rest) == value,
        (forall|tail: Seq<char>| value + rest != #[trigger] ("PTASession="@ + tail))
            ==> pasted_session(before + value + rest) == value,
{
    reveal_strlit("PTASession=");
    let mark = "PTASession="@;
    let (front, back) = a_text_is_its_trimmed_text_in_space(rest);
    let kept = trimmed(rest);
    if rest.len() > 0 && rest[0] == ';' {
        if front.len() > 0 {
            assert(rest[0] == front[0]);
        }
    } else {
        if kept.len() > 0 {
            assert(rest[front.len() as int] == kept[0]);
            assert(is_white_space(rest[front.len() as int]));
        }
    }
    if kept.len() > 0 {
        assert(front.len() == 0);
        assert(rest =~= kept + back);
        assert(kept[0] == ';');
    } else {
        assert(all_space(rest)) by {
            assert(rest =~= front + back);
        }
    }
    let behind = if kept.len() > 0 {
        back
    } else {
        rest
    };
    let tail = if kept.len() > 0 {
        kept
    } else {
        Seq::empty()
    };
    assert(rest =~= tail + behind);
    let with_mark = mark + value + tail;
    let without = value + tail;
    assert(before + mark + value + rest =~= before + with_mark + behind);
    assert(before + value + rest =~= before + without + behind);
    assert(with_mark[0] == 'P');
    assert(with_mark.last() == without.last());
    assert(without[0] == value[0]);
    assert(without.last() == if tail.len() > 0 {
        tail.last()
    } else {
        value.last()
    });
    trimming_takes_the_space_around(before, with_mark, behind);
    trimming_takes_the_space_around(before, without, behind);
    assert(with_mark.subrange(0, mark.len() as int) =~= mark);
    assert(occurs_at(with_mark, mark, 0));
    assert(with_mark.skip(mark.len() as int) =~= without);
    before_a_character_is_the_first_part(without, ';');
    let part = before_char(without, ';');
    if part.len() < value.len() {
        assert(without[part.len() as int] == value[part.len() as int]);
    } else if part.len() > value.len() {
        assert(part[value.len() as int] == without[value.len() as int]);
        assert(without[value.len() as int] == tail[0]);
    }
    assert(part =~= value);
    trimming_takes_the_space_around(Seq::empty(), value, Seq::empty());
    if occurs_at(without, mark, 0) {
        assert(without.subrange(0, mark.len() as int) == mark);
        let others = (value + rest).skip(mark.len() as int);
        assert(without.len() >= mark.len());
        assert((value + rest).take(mark.len() as int) =~= without.subrange(0, mark.len() as int));
        assert(value + rest =~= mark + others);
    }
}

/// A cookie for the session has the value that it was given, between its name and its site.
pub proof fn a_session_cookie_has_its_value(value: Seq<char>, other: Seq<char>)
    ensures
        session_cookie(value).len() == 11 + value.len() + 27,
        session_cookie(value).subrange(11, (11 + value.len()) as int) == value,
        session_cookie(value) == session_cookie(other) ==> value == other,
        session_among(Some(session_cookie(value))),
{
    reveal_strlit("PTASession=");
    reveal_strlit("; Domain=.pintia.cn; Path=/");
    let cookie = session_cookie(value);
    assert(cookie.subrange(11, (11 + value.len()) as int) =~= value);
    assert(session_cookie(other).subrange(11, (11 + other.len()) as int) =~= other);
    assert(cookie.subrange(0, 11) =~= "PTASession="@);
    assert(occurs_at(cookie, "PTASession="@, 0));
}

/// A session is among the cookies where its name is, and not where there are none.
pub proof fn a_session_is_among_cookies_by_its_name(before: Seq<char>, after: Seq<char>)
    ensures
        session_among(Some(before + "PTASession="@ + after)),
        !session_among(None),
        session_among(Some(before)) ==> exists|i: int| #[trigger]
            occurs_at(before, "PTASession="@, i),
{
    a_part_is_found_where_it_stands(before, "PTASession="@, after);
}

/// A session is still known where the service did what was asked, and where it only was asked too
/// soon; any other refusal means that it is not.
pub proof fn a_session_asked_about_too_soon_is_known(
    body: Seq<u8>,
    status: u16,
    status_text: Seq<char>,
    text: Seq<char>,
)
    ensures
        probe_passes(PintiaReplyView::Success { body }),
        probe_passes(PintiaReplyView::Refused { status, status_text, body: text }) <==> status
            == 429,
{
}

/// A session that is not known any more is opened again with the name and the password that are
/// there. Who logged in by a cookie, or has no password, is logged out.
pub proof fn a_lost_session_is_opened_again(assist: PintiaView)
    ensures
        check_probed(assist, true) == (assist, CheckStepView::Done(Ok(Some(assist.account)))),
        assist.cookie_login || assist.password.len() == 0 ==> {
            let (after, step) = check_probed(assist, false);
            &&& step == CheckStepView::Done(Ok(None))
            &&& !after.have_login
            &&& after == PintiaView { have_login: false, ..assist }
        },
        !assist.cookie_login && assist.password.len() > 0 ==> check_probed(assist, false) == (
            assist,
            CheckStepView::Login(login_asked(assist, assist.account, assist.password)),
        ),
        assist.have_login ==> check_start(assist) == CheckStepView::Probe(
            assist.request(Method::Get, PROBE_URL@),
        ),
        !assist.have_login ==> check_start(assist) == CheckStepView::Done(Ok(None)),
{
}

} // verus!
