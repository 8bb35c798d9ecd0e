//! Logging in and out of the university's services, step by step.
use std::sync::Arc;
use reqwest::cookie::Jar;
use vstd::prelude::*;
use crate::boundary::{
    capture, check_proxy, cookies_for, cookies_shown, first_capture, jar_seed, percent_decoded,
    percent_decoding, proxy_refusal, CLASSROOM_SITE, EXECUTION_PATTERN, TOKEN_PATTERN,
};
use crate::encryption::{encrypted, rsa_no_padding};
use crate::error::{outcome, Error, ErrorOf, ErrorView};
use crate::json::{json_of_bytes, parse_bytes, Json, JsonView};
use crate::request::{add_pair, Pairs, PairsView, RequestView, ZjuRequestBuilder};
use crate::text::{
    a_part_is_found_where_it_stands, a_part_that_is_found_stands_there, contains, contains_text,
};
use crate::zju_assist::{AssistView, ZjuAssist};

verus! {

/// The page on which one logs in.
pub const LOGIN_URL: &'static str = "https://zjuam.zju.edu.cn/cas/login";

/// Where the key for the password comes from.
pub const KEY_URL: &'static str = "https://zjuam.zju.edu.cn/cas/v2/getPubKey";

/// The words that the login page shows.
pub const LOGIN_MARK: &'static str = "统一身份认证平台";

/// The pages that are visited after a login, so that each service has a session.
pub const COURSES_VISIT: &'static str = "https://courses.zju.edu.cn/user/courses";

pub const CLASSROOM_VISIT: &'static str =
    "https://tgmedia.cmc.zju.edu.cn/index.php?r=auth/login&auType=cmc&tenant_code=112&forward=https%3A%2F%2Fclassroom.zju.edu.cn%2F";

pub const ZDBK_VISIT: &'static str =
    "https://zjuam.zju.edu.cn/cas/login?service=https://zdbk.zju.edu.cn/jwglxt/xtgl/login_ssologin.html";

/// How far a login has come; `T` is the type of its texts.
pub enum StageOf<T> {
    /// The login page is asked for.
    Page,
    /// It is asked for once more, with new cookies.
    PageAgain,
    /// The key for the password is asked for.
    Key { execution: T },
    /// The account and the password are sent.
    Submit,
    /// One of the services is visited.
    Visit { turn: u8 },
}

/// A login that is under way.
pub struct LoginFlow {
    pub username: String,
    pub password: String,
    pub stage: StageOf<String>,
}

/// What a login that is under way says.
pub struct LoginView {
    pub username: Seq<char>,
    pub password: Seq<char>,
    pub stage: StageOf<Seq<char>>,
}

impl DeepView for LoginFlow {
    type V = LoginView;

    open spec fn deep_view(&self) -> LoginView {
        LoginView {
            username: self.username@,
            password: self.password@,
            stage: match self.stage {
                StageOf::Page => StageOf::Page,
                StageOf::PageAgain => StageOf::PageAgain,
                StageOf::Key { execution } => StageOf::Key { execution: execution@ },
                StageOf::Submit => StageOf::Submit,
                StageOf::Visit { turn } => StageOf::Visit { turn },
            },
        }
    }
}

/// What a login waits for.
pub enum LoginEvent {
    /// The request failed.
    Failed(String),
    /// A page came.
    Page(String),
    /// The key came.
    Key(Vec<u8>),
    /// The visit is made.
    Visited,
}

/// What an event of a login says.
pub enum LoginEventView {
    Failed(Seq<char>),
    Page(Seq<char>),
    Key(Seq<u8>),
    Visited,
}

impl DeepView for LoginEvent {
    type V = LoginEventView;

    open spec fn deep_view(&self) -> LoginEventView {
        match self {
            LoginEvent::Failed(words) => LoginEventView::Failed(words@),
            LoginEvent::Page(text) => LoginEventView::Page(text@),
            LoginEvent::Key(body) => LoginEventView::Key(body@),
            LoginEvent::Visited => LoginEventView::Visited,
        }
    }
}

/// What a login does next.
pub enum LoginStep {
    /// It is over.
    Done(Result<(), Error>),
    /// A request is sent; its reply is the next event.
    Send { request: ZjuRequestBuilder, flow: LoginFlow },
}

/// What the next step of a login says.
pub enum LoginStepView {
    Done(Result<(), ErrorView>),
    Send { request: RequestView, flow: LoginView },
}

impl DeepView for LoginStep {
    type V = LoginStepView;

    open spec fn deep_view(&self) -> LoginStepView {
        match self {
            LoginStep::Done(result) => LoginStepView::Done(outcome(*result)),
            LoginStep::Send { request, flow } => LoginStepView::Send {
                request: request.deep_view(),
                flow: flow.deep_view(),
            },
        }
    }
}

/// The event is one that the stage waits for.
pub open spec fn awaited<T>(stage: StageOf<T>, event: LoginEventView) -> bool {
    match event {
        LoginEventView::Failed(_) => true,
        LoginEventView::Page(_) => stage is Page || stage is PageAgain || stage is Submit,
        LoginEventView::Key(_) => stage is Key,
        LoginEventView::Visited => stage is Visit,
    }
}

/// A page is the login page.
pub open spec fn is_login_page(text: Seq<char>) -> bool {
    contains_text(text, LOGIN_MARK@)
}

/// A login starts afresh, with new cookies: the page that it asked for first is not the login
/// page.
pub open spec fn starts_afresh<T>(stage: StageOf<T>, event: LoginEventView) -> bool {
    stage is Page && (event matches LoginEventView::Page(page) && !is_login_page(page))
}

/// The fields that are sent to log in.
pub open spec fn login_form(
    username: Seq<char>,
    encrypted: Seq<char>,
    execution: Seq<char>,
) -> PairsView {
    seq![
        ("username"@, username),
        ("password"@, encrypted),
        ("execution"@, execution),
        ("_eventId"@, "submit"@),
        ("authcode"@, ""@),
    ]
}

impl LoginView {
    /// The same login at another stage.
    pub open spec fn at(self, stage: StageOf<Seq<char>>) -> LoginView {
        LoginView { stage, ..self }
    }
}

/// How a login goes on once the login page is there.
pub open spec fn after_page(
    assist: AssistView,
    flow: LoginView,
    page: Seq<char>,
) -> LoginStepView {
    match capture(EXECUTION_PATTERN@, page) {
        None => LoginStepView::Done(Err(ErrorOf::ExecutionNotFound)),
        Some(execution) => LoginStepView::Send {
            request: assist.get(KEY_URL@),
            flow: flow.at(StageOf::Key { execution }),
        },
    }
}

/// How a login goes on once the key is there: the account and the encrypted password are sent.
pub open spec fn after_key(
    assist: AssistView,
    flow: LoginView,
    execution: Seq<char>,
    reply: Result<JsonView, Seq<char>>,
) -> LoginStepView {
    match reply {
        Err(words) => LoginStepView::Done(Err(ErrorOf::NotJson(words))),
        Ok(json) => match (json.at("modulus"@).text(), json.at("exponent"@).text()) {
            (None, _) => LoginStepView::Done(Err(ErrorOf::ModulusNotFound)),
            (Some(_), None) => LoginStepView::Done(Err(ErrorOf::ExponentNotFound)),
            (Some(modulus), Some(exponent)) => match encrypted(flow.password, modulus, exponent) {
                None => LoginStepView::Done(Err(ErrorOf::Malformed)),
                Some(text) => LoginStepView::Send {
                    request: RequestView {
                        form: Some(login_form(flow.username, text, execution)),
                        ..assist.post(LOGIN_URL@)
                    },
                    flow: flow.at(StageOf::Submit),
                },
            },
        },
    }
}

/// The session once an account is logged in.
pub open spec fn logged_in(assist: AssistView, flow: LoginView) -> AssistView {
    AssistView { have_login: true, username: flow.username, password: flow.password, ..assist }
}

/// The session and the step that follow an event; `fresh` is the jar that a new session gets.
pub open spec fn login_next(
    assist: AssistView,
    fresh: Arc<Jar>,
    flow: LoginView,
    event: LoginEventView,
) -> (AssistView, LoginStepView) {
    match event {
        LoginEventView::Failed(words) => (
            assist,
            LoginStepView::Done(Err(ErrorOf::Failed(words))),
        ),
        LoginEventView::Page(page) => if flow.stage is Submit {
            if is_login_page(page) {
                (assist, LoginStepView::Done(Err(ErrorOf::WrongPassword)))
            } else {
                (
                    assist,
                    LoginStepView::Send {
                        request: assist.get(COURSES_VISIT@),
                        flow: flow.at(StageOf::Visit { turn: 0 }),
                    },
                )
            }
        } else if is_login_page(page) {
            (assist, after_page(assist, flow, page))
        } else if flow.stage is Page {
            let clean = assist.logged_out(fresh);
            (
                clean,
                LoginStepView::Send {
                    request: clean.get(LOGIN_URL@),
                    flow: flow.at(StageOf::PageAgain),
                },
            )
        } else {
            (assist, LoginStepView::Done(Err(ErrorOf::LoginPageMissing)))
        },
        LoginEventView::Key(body) => (
            assist,
            after_key(assist, flow, flow.stage->execution, json_of_bytes(body)),
        ),
        LoginEventView::Visited => if flow.stage->turn == 0 {
            (
                assist,
                LoginStepView::Send {
                    request: assist.get(CLASSROOM_VISIT@),
                    flow: flow.at(StageOf::Visit { turn: 1 }),
                },
            )
        } else if flow.stage->turn == 1 {
            (
                assist,
                LoginStepView::Send {
                    request: assist.post(ZDBK_VISIT@),
                    flow: flow.at(StageOf::Visit { turn: 2 }),
                },
            )
        } else {
            (logged_in(assist, flow), LoginStepView::Done(Ok(())))
        },
    }
}

/// The first step of a login.
pub open spec fn login_start(
    assist: AssistView,
    username: Seq<char>,
    password: Seq<char>,
) -> LoginStepView {
    if assist.have_login {
        LoginStepView::Done(Ok(()))
    } else {
        LoginStepView::Send {
            request: assist.get(LOGIN_URL@),
            flow: LoginView { username, password, stage: StageOf::Page },
        }
    }
}

impl ZjuAssist {
    /// Starts to log in; who is logged in already stays so.
    pub fn login(&self, username: &str, password: &str) -> (step: LoginStep)
        ensures
            step.deep_view() == login_start(self.deep_view(), username@, password@),
    {
        if self.have_login {
            return LoginStep::Done(Ok(()));
        }
        LoginStep::Send {
            request: self.get(LOGIN_URL),
            flow: LoginFlow {
                username: username.to_owned(),
                password: password.to_owned(),
                stage: StageOf::Page,
            },
        }
    }

    fn page_found(&self, flow: LoginFlow, page: &str) -> (step: LoginStep)
        ensures
            step.deep_view() == after_page(self.deep_view(), flow.deep_view(), page@),
    {
        match first_capture(EXECUTION_PATTERN, page) {
            None => LoginStep::Done(Err(ErrorOf::ExecutionNotFound)),
            Some(execution) => LoginStep::Send {
                request: self.get(KEY_URL),
                flow: LoginFlow {
                    username: flow.username,
                    password: flow.password,
                    stage: StageOf::Key { execution },
                },
            },
        }
    }

    /// Goes on with a login once the key is there.
    pub fn key_found(&self, flow: LoginFlow, execution: String, json: &Json) -> (step: LoginStep)
        ensures
            step.deep_view() == after_key(
                self.deep_view(),
                flow.deep_view(),
                execution@,
                Ok(json@),
            ),
    {
        let modulus = match json.text_at("modulus") {
            Some(text) => text,
            None => {
                return LoginStep::Done(Err(ErrorOf::ModulusNotFound));
            },
        };
        let exponent = match json.text_at("exponent") {
            Some(text) => text,
            None => {
                return LoginStep::Done(Err(ErrorOf::ExponentNotFound));
            },
        };
        let text = match rsa_no_padding(flow.password.as_str(), modulus, exponent) {
            Some(text) => text,
            None => {
                return LoginStep::Done(Err(ErrorOf::Malformed));
            },
        };
        let LoginFlow { username, password, .. } = flow;
        let mut form: Pairs = Vec::new();
        assert(form.deep_view() =~= Seq::<(Seq<char>, Seq<char>)>::empty());
        add_pair(&mut form, "username", username.as_str());
        add_pair(&mut form, "password", text.as_str());
        add_pair(&mut form, "execution", execution.as_str());
        add_pair(&mut form, "_eventId", "submit");
        add_pair(&mut form, "authcode", "");
        assert(form.deep_view() =~= login_form(username@, text@, execution@));
        let mut request = self.post(LOGIN_URL);
        request.form(form);
        LoginStep::Send {
            request,
            flow: LoginFlow { username, password, stage: StageOf::Submit },
        }
    }

    /// Takes a login one step further.
    pub fn login_step(&mut self, flow: LoginFlow, event: LoginEvent) -> (step: LoginStep)
        requires
            awaited(flow.stage, event.deep_view()),
        ensures
            (final(self).deep_view(), step.deep_view()) == login_next(
                old(self).deep_view(),
                final(self).jar,
                flow.deep_view(),
                event.deep_view(),
            ),
            if starts_afresh(flow.stage, event.deep_view()) {
                jar_seed(*final(self).jar) is None
            } else {
                final(self).jar == old(self).jar
            },
    {
        let LoginFlow { username, password, stage } = flow;
        match (stage, event) {
            (_, LoginEvent::Failed(words)) => LoginStep::Done(Err(ErrorOf::Failed(words))),
            (StageOf::Submit, LoginEvent::Page(page)) => {
                if contains(page.as_str(), LOGIN_MARK) {
                    LoginStep::Done(Err(ErrorOf::WrongPassword))
                } else {
                    LoginStep::Send {
                        request: self.get(COURSES_VISIT),
                        flow: LoginFlow { username, password, stage: StageOf::Visit { turn: 0 } },
                    }
                }
            },
            (StageOf::Page, LoginEvent::Page(page)) => {
                if contains(page.as_str(), LOGIN_MARK) {
                    let flow = LoginFlow { username, password, stage: StageOf::Page };
                    self.page_found(flow, page.as_str())
                } else {
                    self.logout();
                    LoginStep::Send {
                        request: self.get(LOGIN_URL),
                        flow: LoginFlow { username, password, stage: StageOf::PageAgain },
                    }
                }
            },
            (_, LoginEvent::Page(page)) => {
                if contains(page.as_str(), LOGIN_MARK) {
                    let flow = LoginFlow { username, password, stage: StageOf::PageAgain };
                    self.page_found(flow, page.as_str())
                } else {
                    LoginStep::Done(Err(ErrorOf::LoginPageMissing))
                }
            },
            (StageOf::Key { execution }, LoginEvent::Key(body)) => {
                let flow = LoginFlow { username, password, stage: StageOf::Submit };
                match parse_bytes(body.as_slice()) {
                    Ok(json) => self.key_found(flow, execution, &json),
                    Err(words) => LoginStep::Done(Err(ErrorOf::NotJson(words))),
                }
            },
            (StageOf::Visit { turn }, LoginEvent::Visited) => {
                if turn == 0 {
                    LoginStep::Send {
                        request: self.get(CLASSROOM_VISIT),
                        flow: LoginFlow { username, password, stage: StageOf::Visit { turn: 1 } },
                    }
                } else if turn == 1 {
                    LoginStep::Send {
                        request: self.post(ZDBK_VISIT),
                        flow: LoginFlow { username, password, stage: StageOf::Visit { turn: 2 } },
                    }
                } else {
                    self.have_login = true;
                    self.username = username;
                    self.password = password;
                    LoginStep::Done(Ok(()))
                }
            },
            _ => {
                assert(false);
                LoginStep::Done(Ok(()))
            },
        }
    }
}

// ---------------------------------------------------------------- logging in again

/// The account and the cookies that a session had before it logs in again.
pub struct SavedLogin {
    pub username: String,
    pub password: String,
    pub jar: Arc<Jar>,
}

/// The session with what was saved put back.
pub open spec fn restored(assist: AssistView, saved: SavedLogin) -> AssistView {
    AssistView {
        jar: saved.jar,
        have_login: true,
        username: saved.username@,
        password: saved.password@,
        ..assist
    }
}

/// A login that is over and failed.
pub open spec fn has_failed(step: LoginStepView) -> bool {
    step matches LoginStepView::Done(Err(_))
}

impl ZjuAssist {
    /// Starts to log the same account in once more, with new cookies.
    pub fn relogin(&mut self) -> (start: Result<(SavedLogin, LoginStep), Error>)
        ensures
            match start {
                Ok((saved, step)) => {
                    &&& old(self).have_login
                    &&& restored(old(self).deep_view(), saved) == old(self).deep_view()
                    &&& final(self).deep_view() == old(self).deep_view().logged_out(
                        final(self).jar,
                    )
                    &&& jar_seed(*final(self).jar) is None
                    &&& step.deep_view() == login_start(
                        final(self).deep_view(),
                        old(self).username@,
                        old(self).password@,
                    )
                },
                Err(error) => {
                    &&& !old(self).have_login
                    &&& error.deep_view() == ErrorOf::<Seq<char>>::NotLogin
                    &&& *final(self) == *old(self)
                },
            },
    {
        if !self.have_login {
            return Err(ErrorOf::NotLogin);
        }
        let saved = SavedLogin {
            username: self.username.clone(),
            password: self.password.clone(),
            jar: self.jar.clone(),
        };
        self.logout();
        let step = self.login(saved.username.as_str(), saved.password.as_str());
        Ok((saved, step))
    }

    /// Takes a repeated login one step further; if it fails, the session is as it was before.
    pub fn relogin_step(
        &mut self,
        saved: &SavedLogin,
        flow: LoginFlow,
        event: LoginEvent,
    ) -> (step: LoginStep)
        requires
            awaited(flow.stage, event.deep_view()),
        ensures
            exists|fresh: Arc<Jar>|
                {
                    let next = #[trigger] login_next(
                        old(self).deep_view(),
                        fresh,
                        flow.deep_view(),
                        event.deep_view(),
                    );
                    &&& starts_afresh(flow.stage, event.deep_view()) ==> jar_seed(*fresh) is None
                    &&& step.deep_view() == next.1
                    &&& final(self).deep_view() == if has_failed(next.1) {
                        restored(next.0, *saved)
                    } else {
                        next.0
                    }
                },
    {
        let step = self.login_step(flow, event);
        let ghost fresh = self.jar;
        assert(login_next(old(self).deep_view(), fresh, flow.deep_view(), event.deep_view())
            == (self.deep_view(), step.deep_view()));
        if let LoginStep::Done(Err(_)) = &step {
            self.username = saved.username.clone();
            self.password = saved.password.clone();
            self.jar = saved.jar.clone();
            self.have_login = true;
        }
        step
    }
}

/// The session and the step after a run of events, with the jars that new sessions get.
pub open spec fn login_run(
    assist: AssistView,
    step: LoginStepView,
    inputs: Seq<(Arc<Jar>, LoginEventView)>,
) -> (AssistView, LoginStepView)
    decreases inputs.len(),
{
    if inputs.len() == 0 {
        (assist, step)
    } else {
        let (before, reached) = login_run(assist, step, inputs.drop_last());
        let (fresh, event) = inputs.last();
        match reached {
            LoginStepView::Done(_) => (before, reached),
            LoginStepView::Send { flow, .. } => login_next(before, fresh, flow, event),
        }
    }
}

/// The account that a login under way is for.
pub open spec fn is_for(step: LoginStepView, username: Seq<char>, password: Seq<char>) -> bool {
    match step {
        LoginStepView::Done(_) => true,
        LoginStepView::Send { flow, .. } => flow.username == username && flow.password
            == password,
    }
}

/// Whatever the services answer, a login leaves the account logged in exactly when it ends
/// well, then with the name and the password it was started with; until then it names no account
/// that the session did not name before. It leaves the way to the network as it is.
pub proof fn login_ends_logged_in_iff_ok(
    assist: AssistView,
    username: Seq<char>,
    password: Seq<char>,
    inputs: Seq<(Arc<Jar>, LoginEventView)>,
)
    requires
        !assist.have_login,
    ensures
        ({
            let (after, step) = login_run(assist, login_start(assist, username, password), inputs);
            &&& after.have_login <==> step == LoginStepView::Done(Ok(()))
            &&& after.have_login ==> after.username == username && after.password == password
            &&& !after.have_login ==> (after.username == assist.username && after.password
                == assist.password) || (after.username.len() == 0 && after.password.len() == 0)
            &&& after.proxy_first == assist.proxy_first
            &&& after.custom_proxy == assist.custom_proxy
            &&& is_for(step, username, password)
        }),
    decreases inputs.len(),
{
    if inputs.len() > 0 {
        login_ends_logged_in_iff_ok(assist, username, password, inputs.drop_last());
    }
}

/// A session names an account only while it is logged in.
pub open spec fn settled(assist: AssistView) -> bool {
    !assist.have_login ==> assist.username.len() == 0 && assist.password.len() == 0
}

/// A login that fails leaves nobody logged in, and no name and no password behind; while one is
/// under way the session names nobody either.
pub proof fn a_failed_login_leaves_no_account(
    assist: AssistView,
    username: Seq<char>,
    password: Seq<char>,
    inputs: Seq<(Arc<Jar>, LoginEventView)>,
)
    requires
        !assist.have_login,
        settled(assist),
    ensures
        ({
            let (after, step) = login_run(assist, login_start(assist, username, password), inputs);
            &&& settled(after)
            &&& step != LoginStepView::Done(Ok(())) ==> !after.have_login && after.username.len()
                == 0 && after.password.len() == 0
        }),
{
    login_ends_logged_in_iff_ok(assist, username, password, inputs);
}

/// A session that is logged in already stays as it is, whoever wants to log in: the login ends
/// well at once, and nothing is sent.
pub proof fn a_second_login_changes_nothing(
    assist: AssistView,
    username: Seq<char>,
    password: Seq<char>,
    inputs: Seq<(Arc<Jar>, LoginEventView)>,
)
    requires
        assist.have_login,
    ensures
        login_run(assist, login_start(assist, username, password), inputs) == (
            assist,
            LoginStepView::Done(Ok(())),
        ),
    decreases inputs.len(),
{
    if inputs.len() > 0 {
        a_second_login_changes_nothing(assist, username, password, inputs.drop_last());
    }
}

/// A login page in answer to the account and the password means that they are wrong, and leaves
/// the session as it is.
pub proof fn a_login_page_refuses_the_password(
    assist: AssistView,
    fresh: Arc<Jar>,
    flow: LoginView,
    page: Seq<char>,
)
    requires
        flow.stage is Submit,
        is_login_page(page),
    ensures
        login_next(assist, fresh, flow, LoginEventView::Page(page)) == (
            assist,
            LoginStepView::Done(Err(ErrorOf::WrongPassword)),
        ),
{
}

/// Logging in again and failing leaves the session as it was: account, password and cookies.
pub proof fn failed_relogin_changes_nothing(
    before: AssistView,
    saved: SavedLogin,
    fresh: Arc<Jar>,
    inputs: Seq<(Arc<Jar>, LoginEventView)>,
)
    requires
        restored(before, saved) == before,
    ensures
        ({
            let start = before.logged_out(fresh);
            let (after, step) = login_run(
                start,
                login_start(start, before.username, before.password),
                inputs,
            );
            has_failed(step) ==> restored(after, saved) == before
        }),
{
    let start = before.logged_out(fresh);
    login_ends_logged_in_iff_ok(start, before.username, before.password, inputs);
}

// ---------------------------------------------------------------- the token

/// The token among the cookies of the classroom service.
pub open spec fn token_in(cookies: Option<Seq<char>>) -> Result<Seq<char>, ErrorView> {
    match cookies {
        None => Err(ErrorOf::TokenNotFound),
        Some(text) => match capture(TOKEN_PATTERN@, percent_decoding(text)) {
            None => Err(ErrorOf::TokenNotFound),
            Some(token) => Ok(token),
        },
    }
}

/// The token among the cookies of the classroom service.
pub fn token_of_cookies(cookies: Option<String>) -> (token: Result<String, Error>)
    ensures
        outcome(token) == token_in(cookies.deep_view()),
{
    match cookies {
        None => Err(ErrorOf::TokenNotFound),
        Some(text) => {
            let decoded = percent_decoded(text.as_str());
            match first_capture(TOKEN_PATTERN, decoded.as_str()) {
                None => Err(ErrorOf::TokenNotFound),
                Some(token) => Ok(token),
            }
        },
    }
}

impl ZjuAssist {
    /// The token that the classroom service asks for, from the cookies it has set.
    pub fn get_token(&self) -> (token: Result<String, Error>)
        ensures
            !self.have_login ==> outcome(token) == Err::<Seq<char>, ErrorView>(ErrorOf::NotLogin),
            self.have_login ==> exists|cookies: Option<Seq<char>>|
                cookies_shown(*self.jar, CLASSROOM_SITE@, cookies) && outcome(token)
                    == #[trigger] token_in(cookies),
    {
        if !self.have_login {
            return Err(ErrorOf::NotLogin);
        }
        let cookies = cookies_for(&self.jar, CLASSROOM_SITE);
        let ghost seen = cookies.deep_view();
        let token = token_of_cookies(cookies);
        assert(outcome(token) == token_in(seen));
        token
    }

    /// Starts to log in again unless there is a token.
    pub fn renew_without_token(&mut self, token: &Result<String, Error>) -> (start: Result<
        Option<(SavedLogin, LoginStep)>,
        Error,
    >)
        ensures
            renewal(*old(self), *final(self), token is Ok, start),
    {
        if !self.have_login {
            return Err(ErrorOf::NotLogin);
        }
        match token {
            Ok(_) => Ok(None),
            Err(_) => match self.relogin() {
                Ok(start) => Ok(Some(start)),
                Err(error) => Err(error),
            },
        }
    }

    /// Starts to log in again if there is no token for the classroom service.
    pub fn keep_classroom_alive(&mut self) -> (start: Result<
        Option<(SavedLogin, LoginStep)>,
        Error,
    >)
        ensures
            !old(self).have_login ==> renewal(*old(self), *final(self), false, start),
            old(self).have_login ==> exists|cookies: Option<Seq<char>>|
                cookies_shown(*old(self).jar, CLASSROOM_SITE@, cookies) && renewal(
                    *old(self),
                    *final(self),
                    (#[trigger] token_in(cookies)) is Ok,
                    start,
                ),
    {
        let token = self.get_token();
        let ghost found = outcome(token);
        if !self.have_login {
            return Err(ErrorOf::NotLogin);
        }
        let ghost cookies = choose|cookies: Option<Seq<char>>|
            cookies_shown(*self.jar, CLASSROOM_SITE@, cookies) && found
                == #[trigger] token_in(cookies);
        let start = self.renew_without_token(&token);
        assert(renewal(*old(self), *self, token_in(cookies) is Ok, start));
        start
    }
}

/// What starting to log in again comes to: nobody is logged in, or there is a token and
/// nothing is done, or the account is logged out and a login for it is started.
pub open spec fn renewal(
    before: ZjuAssist,
    after: ZjuAssist,
    token: bool,
    start: Result<Option<(SavedLogin, LoginStep)>, Error>,
) -> bool {
    match start {
        Err(error) => {
            &&& !before.have_login
            &&& error.deep_view() == ErrorOf::<Seq<char>>::NotLogin
            &&& after == before
        },
        Ok(None) => before.have_login && token && after == before,
        Ok(Some((saved, step))) => {
            &&& before.have_login && !token
            &&& restored(before.deep_view(), saved) == before.deep_view()
            &&& after.deep_view() == before.deep_view().logged_out(after.jar)
            &&& jar_seed(*after.jar) is None
            &&& step.deep_view() == login_start(
                after.deep_view(),
                before.username@,
                before.password@,
            )
        },
    }
}

// ---------------------------------------------------------------- the way to the network

/// The way that a connection is tried.
#[derive(Clone, Copy, PartialEq, Eq, Structural, Debug)]
pub enum Way {
    /// As the system or the dedicated proxy has it.
    Default,
    /// Without any proxy.
    NoProxy,
}

/// Whether the default way is taken first, from how long either took, where it worked.
pub open spec fn default_first(default: Option<u64>, no_proxy: Option<u64>) -> Option<bool> {
    match (default, no_proxy) {
        (None, None) => None,
        (None, Some(_)) => Some(false),
        (Some(_), None) => Some(true),
        (Some(d), Some(n)) => Some(d < n),
    }
}

impl ZjuAssist {
    /// Whether a connection can be tried: not through a proxy whose address is none.
    pub fn can_connect(&self) -> (result: Result<(), Error>)
        ensures
            outcome(result) == match self.deep_view().custom_proxy {
                Some(url) => match proxy_refusal(url) {
                    Some(reason) => Err::<(), ErrorView>(ErrorOf::InvalidProxy { url, reason }),
                    None => Ok(()),
                },
                None => Ok(()),
            },
    {
        if let Some(url) = &self.custom_proxy {
            if let Some(reason) = check_proxy(url.as_str()) {
                return Err(ErrorOf::InvalidProxy { url: url.clone(), reason });
            }
        }
        Ok(())
    }

    /// Takes up the first of the two attempts to connect that is over. If it worked, its way
    /// is taken first from now on; if not, the other attempt is waited for.
    pub fn first_connection(&mut self, way: Way, worked: bool) -> (wait_for: Option<Way>)
        ensures
            worked ==> wait_for is None && *final(self) == (ZjuAssist {
                proxy_first: way is Default,
                ..*old(self)
            }),
            !worked ==> *final(self) == *old(self) && wait_for == Some(
                if way is Default {
                    Way::NoProxy
                } else {
                    Way::Default
                },
            ),
    {
        let default = match way {
            Way::Default => true,
            Way::NoProxy => false,
        };
        if worked {
            self.proxy_first = default;
            return None;
        }
        if default {
            Some(Way::NoProxy)
        } else {
            Some(Way::Default)
        }
    }

    /// Decides which way is taken first once both attempts to connect are over, from how
    /// long either took, where it worked.
    pub fn test_connection(&mut self, default: Option<u64>, no_proxy: Option<u64>) -> (result:
        Result<(), Error>)
        ensures
            match default_first(default, no_proxy) {
                Some(first) => result is Ok && *final(self) == (ZjuAssist {
                    proxy_first: first,
                    ..*old(self)
                }),
                None => outcome(result) == Err::<(), ErrorView>(ErrorOf::ConnectionFailed)
                    && *final(self) == *old(self),
            },
    {
        match (default, no_proxy) {
            (None, None) => {
                return Err(ErrorOf::ConnectionFailed);
            },
            (None, Some(_)) => {
                self.proxy_first = false;
            },
            (Some(_), None) => {
                self.proxy_first = true;
            },
            (Some(d), Some(n)) => {
                self.proxy_first = d < n;
            },
        }
        Ok(())
    }
}

/// A login page leads to the request for the key, whether it came at once or with new cookies,
/// and what was found in it is kept for the form. Any other page leads to one more try, and then
/// to none.
pub proof fn a_login_page_leads_to_the_key(
    assist: AssistView,
    fresh: Arc<Jar>,
    flow: LoginView,
    page: Seq<char>,
)
    requires
        flow.stage is Page || flow.stage is PageAgain,
    ensures
        ({
            let (after, step) = login_next(assist, fresh, flow, LoginEventView::Page(page));
            if is_login_page(page) {
                &&& after == assist
                &&& match capture(EXECUTION_PATTERN@, page) {
                    Some(found) => {
                        &&& step matches LoginStepView::Send { request, flow: next }
                        &&& request.url == KEY_URL@ && request.method is Get
                        &&& request.jar == assist.jar
                        &&& next.username == flow.username && next.password == flow.password
                        &&& next.stage matches StageOf::Key { execution } && execution == found
                    },
                    None => step == LoginStepView::Done(Err(ErrorView::ExecutionNotFound)),
                }
            } else if flow.stage is Page {
                &&& after.jar == fresh && !after.have_login
                &&& step matches LoginStepView::Send { request, flow: next }
                &&& request.url == LOGIN_URL@ && request.method is Get
                &&& request.jar == fresh
                &&& next.username == flow.username && next.password == flow.password
                &&& next.stage is PageAgain
            } else {
                &&& after == assist
                &&& step == LoginStepView::Done(Err(ErrorView::LoginPageMissing))
            }
        }),
{
}

/// A page is the login page where its mark stands in it.
pub proof fn the_login_page_has_its_mark(before: Seq<char>, page: Seq<char>, after: Seq<char>)
    ensures
        is_login_page(before + LOGIN_MARK@ + after),
        is_login_page(page) ==> exists|i: int|
            0 <= i <= page.len() - LOGIN_MARK@.len() && #[trigger] page.subrange(
                i,
                i + LOGIN_MARK@.len(),
            ) == LOGIN_MARK@,
{
    a_part_is_found_where_it_stands(before, LOGIN_MARK@, after);
    a_part_that_is_found_stands_there(page, LOGIN_MARK@, 0);
}

/// With the key, the form is sent: the name of the account that logs in, its password under the
/// key and in no other form, and what was found in the login page.
pub proof fn only_the_encrypted_password_is_sent(
    assist: AssistView,
    fresh: Arc<Jar>,
    flow: LoginView,
    body: Seq<u8>,
    json: JsonView,
    modulus: Seq<char>,
    exponent: Seq<char>,
    secret: Seq<char>,
)
    requires
        flow.stage is Key,
        json_of_bytes(body) == Ok::<JsonView, Seq<char>>(json),
        json.at("modulus"@).text() == Some(modulus),
        json.at("exponent"@).text() == Some(exponent),
        encrypted(flow.password, modulus, exponent) == Some(secret),
    ensures
        ({
            let (after, step) = login_next(assist, fresh, flow, LoginEventView::Key(body));
            &&& after == assist
            &&& step matches LoginStepView::Send { request, flow: next }
            &&& request.url == LOGIN_URL@ && request.method is Post
            &&& request.jar == assist.jar
            &&& request.form matches Some(form)
            &&& form.len() == 5
            &&& form[0] == ("username"@, flow.username)
            &&& form[1] == ("password"@, secret)
            &&& form[2] == ("execution"@, flow.stage->execution)
            &&& form[3] == ("_eventId"@, "submit"@)
            &&& form[4] == ("authcode"@, ""@)
            &&& next.stage is Submit
            &&& next.username == flow.username && next.password == flow.password
        }),
{
}

/// Without one of the two numbers of the key, or with numbers that are none, nothing is sent.
pub proof fn without_a_key_nothing_is_sent(
    assist: AssistView,
    fresh: Arc<Jar>,
    flow: LoginView,
    body: Seq<u8>,
)
    requires
        flow.stage is Key,
    ensures
        ({
            let (after, step) = login_next(assist, fresh, flow, LoginEventView::Key(body));
            &&& after == assist
            &&& match json_of_bytes(body) {
                Err(words) => step == LoginStepView::Done(Err(ErrorView::NotJson(words))),
                Ok(json) => if json.at("modulus"@).text() is None {
                    step == LoginStepView::Done(Err(ErrorView::ModulusNotFound))
                } else if json.at("exponent"@).text() is None {
                    step == LoginStepView::Done(Err(ErrorView::ExponentNotFound))
                } else {
                    encrypted(
                        flow.password,
                        json.at("modulus"@).text()->0,
                        json.at("exponent"@).text()->0,
                    ) is None <==> step == LoginStepView::Done(Err(ErrorView::Malformed))
                },
            }
        }),
{
}

/// After the password was taken, the three services are visited in turn, and only then is the
/// account logged in, under the name and the password that were sent.
pub proof fn three_services_are_visited(
    assist: AssistView,
    fresh: Arc<Jar>,
    flow: LoginView,
    page: Seq<char>,
)
    requires
        flow.stage is Submit,
        !is_login_page(page),
    ensures
        ({
            let (one, first) = login_next(assist, fresh, flow, LoginEventView::Page(page));
            let (two, second) = login_next(one, fresh, first->flow, LoginEventView::Visited);
            let (three, third) = login_next(two, fresh, second->flow, LoginEventView::Visited);
            let (four, last) = login_next(three, fresh, third->flow, LoginEventView::Visited);
            &&& one == assist && two == assist && three == assist
            &&& first is Send && second is Send && third is Send
            &&& first->request.url == COURSES_VISIT@ && first->request.method is Get
            &&& second->request.url == CLASSROOM_VISIT@ && second->request.method is Get
            &&& third->request.url == ZDBK_VISIT@ && third->request.method is Post
            &&& last == LoginStepView::Done(Ok(()))
            &&& four.have_login
            &&& four.username == flow.username && four.password == flow.password
            &&& four.jar == assist.jar
        }),
{
}

/// A request that fails ends the login, with its words, and changes nothing.
pub proof fn a_failed_request_ends_the_login(
    assist: AssistView,
    fresh: Arc<Jar>,
    flow: LoginView,
    words: Seq<char>,
)
    ensures
        login_next(assist, fresh, flow, LoginEventView::Failed(words)) == (
            assist,
            LoginStepView::Done(Err(ErrorView::Failed(words))),
        ),
{
}

/// What is put back of an account is all that was saved of it; the proxies stay as they are.
pub proof fn what_was_saved_is_put_back(assist: AssistView, saved: SavedLogin)
    ensures
        restored(assist, saved).have_login,
        restored(assist, saved).jar == saved.jar,
        restored(assist, saved).username == saved.username@,
        restored(assist, saved).password == saved.password@,
        restored(assist, saved).proxy_first == assist.proxy_first,
        restored(assist, saved).custom_proxy == assist.custom_proxy,
{
}

/// Of two ways that answer, the one that answers sooner goes first, and the way without a proxy
/// where neither is sooner. A way that does not answer never goes before one that does.
pub proof fn the_sooner_way_goes_first(default: u64, no_proxy: u64)
    ensures
        default < no_proxy ==> default_first(Some(default), Some(no_proxy)) == Some(true),
        default >= no_proxy ==> default_first(Some(default), Some(no_proxy)) == Some(false),
        default_first(Some(default), None) == Some(true),
        default_first(None, Some(no_proxy)) == Some(false),
        default_first(None, None) is None,
{
}

/// A token is what the pattern finds in the cookies once they are decoded. Without cookies, or
/// where it finds nothing, there is none.
pub proof fn a_token_is_found_in_the_decoded_cookies(cookies: Seq<char>, token: Seq<char>)
    ensures
        token_in(None) == Err::<Seq<char>, ErrorView>(ErrorView::TokenNotFound),
        capture(TOKEN_PATTERN@, percent_decoding(cookies)) == Some(token) ==> token_in(
            Some(cookies),
        ) == Ok::<Seq<char>, ErrorView>(token),
        capture(TOKEN_PATTERN@, percent_decoding(cookies)) is None ==> token_in(Some(cookies))
            == Err::<Seq<char>, ErrorView>(ErrorView::TokenNotFound),
{
}

/// A login starts with the login page, for the name and the password that are given, and is over
/// at once where one is logged in.
pub proof fn a_login_starts_with_the_login_page(
    assist: AssistView,
    username: Seq<char>,
    password: Seq<char>,
)
    ensures
        assist.have_login ==> login_start(assist, username, password) == LoginStepView::Done(
            Ok(()),
        ),
        !assist.have_login ==> (login_start(assist, username, password)
            matches LoginStepView::Send { request, flow } && request.url == LOGIN_URL@
            && request.method is Get && request.jar == assist.jar && flow.username == username
            && flow.password == password && flow.stage is Page),
{
}

/// Each stage awaits the reply to what was sent, or its failure, and nothing else.
pub proof fn a_stage_awaits_the_reply_to_what_was_sent<T>(
    stage: StageOf<T>,
    page: Seq<char>,
    body: Seq<u8>,
    words: Seq<char>,
)
    ensures
        awaited(stage, LoginEventView::Failed(words)),
        match stage {
            StageOf::Page | StageOf::PageAgain | StageOf::Submit => {
                &&& awaited(stage, LoginEventView::Page(page))
                &&& !awaited(stage, LoginEventView::Key(body))
                &&& !awaited(stage, LoginEventView::Visited)
            },
            StageOf::Key { .. } => {
                &&& !awaited(stage, LoginEventView::Page(page))
                &&& awaited(stage, LoginEventView::Key(body))
                &&& !awaited(stage, LoginEventView::Visited)
            },
            StageOf::Visit { .. } => {
                &&& !awaited(stage, LoginEventView::Page(page))
                &&& !awaited(stage, LoginEventView::Key(body))
                &&& awaited(stage, LoginEventView::Visited)
            },
        },
{
}

/// The cookies are given up exactly where the login page is asked for once more.
pub proof fn cookies_are_given_up_for_one_more_try(
    assist: AssistView,
    fresh: Arc<Jar>,
    flow: LoginView,
    event: LoginEventView,
)
    ensures
        ({
            let (after, step) = login_next(assist, fresh, flow, event);
            &&& starts_afresh(flow.stage, event) <==> (step matches LoginStepView::Send {
                flow: next,
                ..
            } && next.stage is PageAgain)
            &&& starts_afresh(flow.stage, event) ==> after.jar == fresh
            &&& !starts_afresh(flow.stage, event) ==> after.jar == assist.jar
        }),
{
}

/// A login is renewed only where there is one and its token is gone: with the name and the
/// password that it had, in new cookies. Otherwise nothing changes.
pub proof fn a_login_is_renewed_without_its_token(
    before: ZjuAssist,
    after: ZjuAssist,
    token: bool,
    start: Result<Option<(SavedLogin, LoginStep)>, Error>,
)
    requires
        renewal(before, after, token, start),
    ensures
        start is Err <==> !before.have_login,
        before.have_login && token ==> start == Ok::<Option<(SavedLogin, LoginStep)>, Error>(None),
        before.have_login && !token ==> (start matches Ok(Some(_))),
        !before.have_login || token ==> after == before,
        start matches Ok(Some((saved, step))) ==> {
            &&& !after.have_login
            &&& saved.username@ == before.username@ && saved.password@ == before.password@
            &&& saved.jar == before.jar
            &&& step.deep_view() matches LoginStepView::Send { request, flow }
            &&& request.url == LOGIN_URL@ && request.jar == after.jar
            &&& flow.username == before.username@ && flow.password == before.password@
        },
{
}

} // verus!
