//! The register of marks: its session, the evaluation of courses, and the marks themselves.
use vstd::prelude::*;
use vstd::utf8::encode_utf8;
use crate::boundary::{form_bytes, form_encoded};
use crate::courses::list_in;
use crate::error::{outcome, Error, ErrorOf, ErrorView};
use crate::json::{duplicate_all, json_of_text, parse_text, Json, JsonView};
use crate::login::LOGIN_MARK;
use crate::numeral::{decimal, u64_text};
use crate::request::{add_pair, Pairs, PairsView, RequestView, ZjuRequestBuilder};
use crate::text::{a_part_is_found_where_it_stands, contains, contains_text, occurs_at, same};
use crate::zju_assist::{AssistView, ZjuAssist};

verus! {

// ---------------------------------------------------------------- the session

/// The page of the register that one comes to after logging in.
pub const ZDBK_SERVICE: &'static str =
    "https://zdbk.zju.edu.cn/jwglxt/xtgl/login_slogin.html";

/// Where the register says how to open a session.
pub const SSO_URL: &'static str =
    "https://zdbk.zju.edu.cn/jwglxt/xtgl/login_cxSsoLoginUrl.html";

/// What the register says about opening a session.
pub struct SsoMeta {
    pub status: String,
    pub login_url: Option<String>,
}

/// What the register's words about opening a session say.
pub struct SsoView {
    pub status: Seq<char>,
    pub login_url: Option<Seq<char>>,
}

impl DeepView for SsoMeta {
    type V = SsoView;

    open spec fn deep_view(&self) -> SsoView {
        SsoView { status: self.status@, login_url: self.login_url.deep_view() }
    }
}

/// How far the opening of a session has come.
#[derive(Clone, Copy, PartialEq, Eq, Structural, Debug)]
pub enum SessionStage {
    /// The login page of the university is visited on behalf of the register.
    Cas,
    /// The register is visited.
    Service,
    /// The register is asked how to open a session.
    Meta,
    /// The page that opens the session is visited.
    Open,
}

/// What the opening of a session waits for.
pub enum SessionEvent {
    /// The request failed.
    Failed(String),
    /// The visit is made.
    Visited,
    /// The register answered; what is not an answer comes with the reader's words.
    Meta(Result<SsoMeta, String>),
}

/// What an event of the opening of a session says.
pub enum SessionEventView {
    Failed(Seq<char>),
    Visited,
    Meta(Result<SsoView, Seq<char>>),
}

impl DeepView for SessionEvent {
    type V = SessionEventView;

    open spec fn deep_view(&self) -> SessionEventView {
        match self {
            SessionEvent::Failed(words) => SessionEventView::Failed(words@),
            SessionEvent::Visited => SessionEventView::Visited,
            SessionEvent::Meta(Ok(meta)) => SessionEventView::Meta(Ok(meta.deep_view())),
            SessionEvent::Meta(Err(words)) => SessionEventView::Meta(Err(words@)),
        }
    }
}

/// What the opening of a session does next.
pub enum SessionStep {
    Done(Result<(), Error>),
    Send { request: ZjuRequestBuilder, stage: SessionStage },
}

/// What the next step of the opening of a session says.
pub enum SessionStepView {
    Done(Result<(), ErrorView>),
    Send { request: RequestView, stage: SessionStage },
}

impl DeepView for SessionStep {
    type V = SessionStepView;

    open spec fn deep_view(&self) -> SessionStepView {
        match self {
            SessionStep::Done(result) => SessionStepView::Done(outcome(*result)),
            SessionStep::Send { request, stage } => SessionStepView::Send {
                request: request.deep_view(),
                stage: *stage,
            },
        }
    }
}

/// The event is one that the stage waits for.
pub open spec fn session_awaits(stage: SessionStage, event: SessionEventView) -> bool {
    match event {
        SessionEventView::Failed(_) => true,
        SessionEventView::Visited => !(stage is Meta),
        SessionEventView::Meta(_) => stage is Meta,
    }
}

/// The login page of the university, which leads on to the register.
pub open spec fn cas_service_url() -> Seq<char> {
    "https://zjuam.zju.edu.cn/cas/login?service="@ + form_bytes(encode_utf8(ZDBK_SERVICE@))
}

/// The first step of the opening of a session.
pub open spec fn session_start(assist: AssistView) -> SessionStepView {
    if assist.have_login {
        SessionStepView::Send { request: assist.get(cas_service_url()), stage: SessionStage::Cas }
    } else {
        SessionStepView::Done(Err(ErrorOf::NotLogin))
    }
}

/// What follows the answer of the register: only with success and an address it goes on.
pub open spec fn session_meta(
    assist: AssistView,
    meta: Result<SsoView, Seq<char>>,
) -> SessionStepView {
    match meta {
        Err(words) => SessionStepView::Done(Err(ErrorOf::SsoReply(words))),
        Ok(meta) => if meta.status != "success"@ {
            SessionStepView::Done(Err(ErrorOf::SsoStatus(meta.status)))
        } else {
            match meta.login_url {
                None => SessionStepView::Done(Err(ErrorOf::SsoUrlMissing)),
                Some(url) => SessionStepView::Send {
                    request: assist.get(url),
                    stage: SessionStage::Open,
                },
            }
        },
    }
}

/// What follows an event of the opening of a session.
pub open spec fn session_next(
    assist: AssistView,
    stage: SessionStage,
    event: SessionEventView,
) -> SessionStepView {
    match event {
        SessionEventView::Failed(words) => SessionStepView::Done(Err(ErrorOf::Failed(words))),
        SessionEventView::Meta(meta) => session_meta(assist, meta),
        SessionEventView::Visited => match stage {
            SessionStage::Cas => SessionStepView::Send {
                request: assist.get(ZDBK_SERVICE@),
                stage: SessionStage::Service,
            },
            SessionStage::Service => SessionStepView::Send {
                request: assist.post(SSO_URL@),
                stage: SessionStage::Meta,
            },
            _ => SessionStepView::Done(Ok(())),
        },
    }
}

impl ZjuAssist {
    /// Starts to open a session with the register.
    pub fn ensure_zdbk_session(&self) -> (step: SessionStep)
        ensures
            step.deep_view() == session_start(self.deep_view()),
    {
        if !self.have_login {
            return SessionStep::Done(Err(ErrorOf::NotLogin));
        }
        let mut url = "https://zjuam.zju.edu.cn/cas/login?service=".to_owned();
        url.append(form_encoded(ZDBK_SERVICE).as_str());
        SessionStep::Send { request: self.get(url.as_str()), stage: SessionStage::Cas }
    }

    /// Takes the opening of a session one step further.
    pub fn zdbk_session_step(&self, stage: SessionStage, event: SessionEvent) -> (step: SessionStep)
        requires
            session_awaits(stage, event.deep_view()),
        ensures
            step.deep_view() == session_next(self.deep_view(), stage, event.deep_view()),
    {
        match event {
            SessionEvent::Failed(words) => SessionStep::Done(Err(ErrorOf::Failed(words))),
            SessionEvent::Meta(Err(words)) => SessionStep::Done(Err(ErrorOf::SsoReply(words))),
            SessionEvent::Meta(Ok(meta)) => {
                if !same(meta.status.as_str(), "success") {
                    return SessionStep::Done(Err(ErrorOf::SsoStatus(meta.status)));
                }
                match meta.login_url {
                    None => SessionStep::Done(Err(ErrorOf::SsoUrlMissing)),
                    Some(url) => SessionStep::Send {
                        request: self.get(url.as_str()),
                        stage: SessionStage::Open,
                    },
                }
            },
            SessionEvent::Visited => match stage {
                SessionStage::Cas => SessionStep::Send {
                    request: self.get(ZDBK_SERVICE),
                    stage: SessionStage::Service,
                },
                SessionStage::Service => SessionStep::Send {
                    request: self.post(SSO_URL),
                    stage: SessionStage::Meta,
                },
                _ => SessionStep::Done(Ok(())),
            },
        }
    }
}

/// The place of a stage in the opening of a session.
pub open spec fn session_rank(stage: SessionStage) -> nat {
    match stage {
        SessionStage::Cas => 0,
        SessionStage::Service => 1,
        SessionStage::Meta => 2,
        SessionStage::Open => 3,
    }
}

/// The opening of a session goes through its stages one by one, and ends well only after the
/// last of them.
pub proof fn session_opens_stage_by_stage(
    assist: AssistView,
    stage: SessionStage,
    event: SessionEventView,
)
    requires
        session_awaits(stage, event),
    ensures
        match session_next(assist, stage, event) {
            SessionStepView::Send { stage: next, .. } => session_rank(next) == session_rank(stage)
                + 1,
            SessionStepView::Done(result) => result is Ok ==> stage is Open && event is Visited,
        },
{
}

// ---------------------------------------------------------------- the evaluation of courses

/// Where the register says whether the courses are evaluated.
pub open spec fn evaluation_url(username: Seq<char>) -> Seq<char> {
    "https://zdbk.zju.edu.cn/jwglxt/xtgl/index_cxMyCosJxpj.html?gnmkdm=N5083&su="@ + username
}

/// What the question whether the courses are evaluated does next.
pub enum EvaluationStep {
    Done(Result<bool, Error>),
    /// A request is sent, for the first time or once more.
    Send { request: ZjuRequestBuilder, again: bool },
    /// The account is logged in again.
    Relogin,
}

/// What the next step of that question says.
pub enum EvaluationStepView {
    Done(Result<bool, ErrorView>),
    Send { request: RequestView, again: bool },
    Relogin,
}

impl DeepView for EvaluationStep {
    type V = EvaluationStepView;

    open spec fn deep_view(&self) -> EvaluationStepView {
        match self {
            EvaluationStep::Done(Ok(done)) => EvaluationStepView::Done(Ok(*done)),
            EvaluationStep::Done(Err(error)) => EvaluationStepView::Done(Err(error.deep_view())),
            EvaluationStep::Send { request, again } => EvaluationStepView::Send {
                request: request.deep_view(),
                again: *again,
            },
            EvaluationStep::Relogin => EvaluationStepView::Relogin,
        }
    }
}

/// The first step of the question whether the courses are evaluated.
pub open spec fn evaluation_start(assist: AssistView) -> EvaluationStepView {
    if assist.have_login {
        EvaluationStepView::Send {
            request: assist.post(evaluation_url(assist.username)),
            again: false,
        }
    } else {
        EvaluationStepView::Done(Err(ErrorOf::NotLogin))
    }
}

/// What follows a reply: one that is not JSON means that the session is over, and the account
/// is logged in again, once.
pub open spec fn evaluation_next(
    again: bool,
    reply: Result<JsonView, Seq<char>>,
) -> EvaluationStepView {
    match reply {
        Ok(json) => EvaluationStepView::Done(
            match json.at("result"@).text() {
                Some(result) => Ok(result == "1"@),
                None => Err(ErrorOf::Malformed),
            },
        ),
        Err(_) => if again {
            EvaluationStepView::Done(Err(ErrorOf::EvaluationFailed))
        } else {
            EvaluationStepView::Relogin
        },
    }
}

/// What follows when the account was logged in again, or not.
pub open spec fn evaluation_resumed(
    assist: AssistView,
    relogin: Result<(), ErrorView>,
) -> EvaluationStepView {
    match relogin {
        Ok(_) => EvaluationStepView::Send {
            request: assist.post(evaluation_url(assist.username)),
            again: true,
        },
        Err(error) => EvaluationStepView::Done(Err(error)),
    }
}

impl ZjuAssist {
    fn ask_evaluation(&self) -> (request: ZjuRequestBuilder)
        ensures
            request.deep_view() == self.deep_view().post(evaluation_url(self.username@)),
    {
        let mut url =
            "https://zdbk.zju.edu.cn/jwglxt/xtgl/index_cxMyCosJxpj.html?gnmkdm=N5083&su=".to_owned();
        url.append(self.username.as_str());
        self.post(url.as_str())
    }

    /// Starts to ask whether the courses are evaluated.
    pub fn check_evaluation_done(&self) -> (step: EvaluationStep)
        ensures
            step.deep_view() == evaluation_start(self.deep_view()),
    {
        if self.have_login {
            EvaluationStep::Send { request: self.ask_evaluation(), again: false }
        } else {
            EvaluationStep::Done(Err(ErrorOf::NotLogin))
        }
    }

    /// Takes up the answer in a reply that is JSON, or that the reply is none.
    pub fn evaluation_json(again: bool, json: Option<Json>) -> (step: EvaluationStep)
        ensures
            step.deep_view() == evaluation_next(
                again,
                match json {
                    Some(json) => Ok::<JsonView, Seq<char>>(json@),
                    None => Err(Seq::empty()),
                },
            ),
    {
        match json {
            Some(json) => match json.text_at("result") {
                Some(result) => EvaluationStep::Done(Ok(same(result, "1"))),
                None => EvaluationStep::Done(Err(ErrorOf::Malformed)),
            },
            None => {
                if again {
                    EvaluationStep::Done(Err(ErrorOf::EvaluationFailed))
                } else {
                    EvaluationStep::Relogin
                }
            },
        }
    }

    /// Takes up a reply.
    pub fn evaluation_reply(again: bool, text: &str) -> (step: EvaluationStep)
        ensures
            step.deep_view() == evaluation_next(again, json_of_text(text@)),
    {
        match parse_text(text) {
            Ok(json) => ZjuAssist::evaluation_json(again, Some(json)),
            Err(_) => ZjuAssist::evaluation_json(again, None),
        }
    }

    /// Goes on after the account was logged in again, or not.
    pub fn evaluation_relogin(&self, relogin: Result<(), Error>) -> (step: EvaluationStep)
        ensures
            step.deep_view() == evaluation_resumed(self.deep_view(), outcome(relogin)),
    {
        match relogin {
            Ok(_) => EvaluationStep::Send { request: self.ask_evaluation(), again: true },
            Err(error) => EvaluationStep::Done(Err(error)),
        }
    }
}

/// The question whether the courses are evaluated is sent twice at most, and the account is
/// logged in again only between the two.
pub proof fn the_evaluation_is_asked_for_twice_at_most(
    again: bool,
    reply: Result<JsonView, Seq<char>>,
)
    ensures
        again ==> evaluation_next(again, reply) is Done,
        evaluation_next(again, reply) is Relogin <==> !again && reply is Err,
{
}

// ---------------------------------------------------------------- marks

/// Where the marks are asked for.
pub open spec fn score_url(username: Seq<char>) -> Seq<char> {
    "https://zdbk.zju.edu.cn/jwglxt/cxdy/xscjcx_cxXscjIndex.html?doType=query&gnmkdm=N508301&su="@
        + username
}

/// The fields that ask for `count` marks at the time `nd`.
pub open spec fn score_form(nd: Seq<char>, count: Seq<char>) -> PairsView {
    seq![
        ("xn"@, ""@),
        ("xq"@, ""@),
        ("zscjl"@, ""@),
        ("zscjr"@, ""@),
        ("_search"@, "false"@),
        ("nd"@, nd),
        ("queryModel.showCount"@, count),
        ("queryModel.currentPage"@, "1"@),
        ("queryModel.sortName"@, "xkkh"@),
        ("queryModel.sortOrder"@, "asc"@),
        ("time"@, "1"@),
    ]
}

/// The request for `count` marks at the time `nd`.
pub open spec fn score_asked(assist: AssistView, nd: Seq<char>, count: Seq<char>) -> RequestView {
    RequestView {
        form: Some(score_form(nd, count)),
        ..assist.post(score_url(assist.username))
    }
}

/// The request that tries whether marks can be had.
pub open spec fn probe_asked(assist: AssistView) -> RequestView {
    score_asked(assist, "0"@, "1"@)
}

/// The request for all marks, at a time in milliseconds.
pub open spec fn all_asked(assist: AssistView, now_ms: u64) -> RequestView {
    score_asked(assist, decimal(now_ms as int), "5000"@)
}

/// Whether a reply to the trial shows that marks can be had.
pub open spec fn probe_verdict(is_json: bool, text: Seq<char>) -> Result<(), ErrorView> {
    if is_json {
        Ok(())
    } else if contains_text(text, LOGIN_MARK@) || contains_text(text, "/cas/login"@)
        || contains_text(text, "login_slogin"@) {
        Err(ErrorOf::ProbeRedirected)
    } else {
        Err(ErrorOf::ProbeFailed)
    }
}

/// The marks in a reply.
pub open spec fn scores_in(reply: Result<JsonView, Seq<char>>) -> Result<
    Seq<JsonView>,
    ErrorView,
> {
    match reply {
        Ok(json) => list_in(Ok(json), "items"@),
        Err(_) => Err(ErrorOf::ScoreFailed),
    }
}

/// How far the question for the marks has come.
#[derive(Clone, Copy, PartialEq, Eq, Structural, Debug)]
pub enum ScoreStage {
    /// A session with the register is opened.
    Session,
    /// It is tried whether marks can be had.
    Probe,
    /// The account is logged in again.
    Relogin,
    /// A session with the register is opened once more.
    SessionAgain,
    /// The marks are asked for.
    Query,
}

/// What the question for the marks waits for.
pub enum ScoreEvent {
    /// A session is opened or the account logged in again, or not.
    Finished(Result<(), Error>),
    /// The request failed.
    Failed(String),
    /// A reply came.
    Text(String),
}

/// What an event of the question for the marks says.
pub enum ScoreEventView {
    Finished(Result<(), ErrorView>),
    Failed(Seq<char>),
    Text(Seq<char>),
}

impl DeepView for ScoreEvent {
    type V = ScoreEventView;

    open spec fn deep_view(&self) -> ScoreEventView {
        match self {
            ScoreEvent::Finished(result) => ScoreEventView::Finished(outcome(*result)),
            ScoreEvent::Failed(words) => ScoreEventView::Failed(words@),
            ScoreEvent::Text(text) => ScoreEventView::Text(text@),
        }
    }
}

/// What the question for the marks does next.
pub enum ScoreStep {
    Done(Result<Vec<Json>, Error>),
    /// A session with the register is opened.
    Ensure { stage: ScoreStage },
    /// The account is logged in again.
    Relogin { stage: ScoreStage },
    /// A request is sent.
    Send { request: ZjuRequestBuilder, stage: ScoreStage },
}

/// What the next step of the question for the marks says.
pub enum ScoreStepView {
    Done(Result<Seq<JsonView>, ErrorView>),
    Ensure { stage: ScoreStage },
    Relogin { stage: ScoreStage },
    Send { request: RequestView, stage: ScoreStage },
}

impl DeepView for ScoreStep {
    type V = ScoreStepView;

    open spec fn deep_view(&self) -> ScoreStepView {
        match self {
            ScoreStep::Done(result) => ScoreStepView::Done(outcome(*result)),
            ScoreStep::Ensure { stage } => ScoreStepView::Ensure { stage: *stage },
            ScoreStep::Relogin { stage } => ScoreStepView::Relogin { stage: *stage },
            ScoreStep::Send { request, stage } => ScoreStepView::Send {
                request: request.deep_view(),
                stage: *stage,
            },
        }
    }
}

/// The event is one that the stage waits for.
pub open spec fn score_awaits(stage: ScoreStage, event: ScoreEventView) -> bool {
    match stage {
        ScoreStage::Probe | ScoreStage::Query => !(event is Finished),
        _ => event is Finished,
    }
}

/// The trial shows that marks can be had.
pub open spec fn probe_passes(event: ScoreEventView) -> bool {
    event matches ScoreEventView::Text(text) && probe_verdict(json_of_text(text) is Ok, text)
        is Ok
}

/// What follows an event of the question for the marks, at a time in milliseconds.
pub open spec fn score_next(
    assist: AssistView,
    stage: ScoreStage,
    event: ScoreEventView,
    now_ms: u64,
) -> ScoreStepView {
    match stage {
        ScoreStage::Session => match event->Finished_0 {
            Ok(_) => ScoreStepView::Send { request: probe_asked(assist), stage: ScoreStage::Probe },
            Err(_) => ScoreStepView::Done(Err(ErrorOf::ScoreSession)),
        },
        ScoreStage::Probe => if probe_passes(event) {
            ScoreStepView::Send { request: all_asked(assist, now_ms), stage: ScoreStage::Query }
        } else {
            ScoreStepView::Relogin { stage: ScoreStage::Relogin }
        },
        ScoreStage::Relogin => match event->Finished_0 {
            Ok(_) => ScoreStepView::Ensure { stage: ScoreStage::SessionAgain },
            Err(error) => ScoreStepView::Done(Err(error)),
        },
        ScoreStage::SessionAgain => match event->Finished_0 {
            Ok(_) => ScoreStepView::Send {
                request: all_asked(assist, now_ms),
                stage: ScoreStage::Query,
            },
            Err(error) => ScoreStepView::Done(Err(error)),
        },
        ScoreStage::Query => match event {
            ScoreEventView::Text(text) => ScoreStepView::Done(scores_in(json_of_text(text))),
            ScoreEventView::Failed(words) => ScoreStepView::Done(Err(ErrorOf::Failed(words))),
            ScoreEventView::Finished(_) => ScoreStepView::Done(Err(ErrorOf::ScoreFailed)),
        },
    }
}

impl ZjuAssist {
    fn ask_score(&self, nd: &str, count: &str) -> (request: ZjuRequestBuilder)
        ensures
            request.deep_view() == score_asked(self.deep_view(), nd@, count@),
    {
        let mut url =
            "https://zdbk.zju.edu.cn/jwglxt/cxdy/xscjcx_cxXscjIndex.html?doType=query&gnmkdm=N508301&su=".to_owned();
        url.append(self.username.as_str());
        let mut form: Pairs = Vec::new();
        assert(form.deep_view() =~= Seq::<(Seq<char>, Seq<char>)>::empty());
        add_pair(&mut form, "xn", "");
        add_pair(&mut form, "xq", "");
        add_pair(&mut form, "zscjl", "");
        add_pair(&mut form, "zscjr", "");
        add_pair(&mut form, "_search", "false");
        add_pair(&mut form, "nd", nd);
        add_pair(&mut form, "queryModel.showCount", count);
        add_pair(&mut form, "queryModel.currentPage", "1");
        add_pair(&mut form, "queryModel.sortName", "xkkh");
        add_pair(&mut form, "queryModel.sortOrder", "asc");
        add_pair(&mut form, "time", "1");
        assert(form.deep_view() =~= score_form(nd@, count@));
        let mut request = self.post(url.as_str());
        request.form(form);
        request
    }

    /// Asks for one mark, to try whether marks can be had.
    pub fn probe_score(&self) -> (request: ZjuRequestBuilder)
        ensures
            request.deep_view() == probe_asked(self.deep_view()),
    {
        self.ask_score("0", "1")
    }

    /// Whether a reply to the trial shows that marks can be had; `is_json` says that it is JSON.
    pub fn probe_outcome(is_json: bool, text: &str) -> (verdict: Result<(), Error>)
        ensures
            outcome(verdict) == probe_verdict(is_json, text@),
    {
        if is_json {
            Ok(())
        } else if contains(text, LOGIN_MARK) || contains(text, "/cas/login") || contains(
            text,
            "login_slogin",
        ) {
            Err(ErrorOf::ProbeRedirected)
        } else {
            Err(ErrorOf::ProbeFailed)
        }
    }

    /// Whether a reply to the trial shows that marks can be had.
    pub fn probe_reply(text: &str) -> (verdict: Result<(), Error>)
        ensures
            outcome(verdict) == probe_verdict(json_of_text(text@) is Ok, text@),
    {
        let is_json = parse_text(text).is_ok();
        ZjuAssist::probe_outcome(is_json, text)
    }

    /// The marks in a reply that is JSON.
    pub fn scores_of(json: &Json) -> (scores: Result<Vec<Json>, Error>)
        ensures
            outcome(scores) == scores_in(Ok(json@)),
    {
        match json.array_at("items") {
            Some(items) => Ok(duplicate_all(items)),
            None => Err(ErrorOf::Malformed),
        }
    }

    /// Starts to ask for the marks: first a session with the register is opened.
    pub fn get_score(&self) -> (step: ScoreStep)
        ensures
            step.deep_view() == (ScoreStepView::Ensure { stage: ScoreStage::Session }),
    {
        ScoreStep::Ensure { stage: ScoreStage::Session }
    }

    /// Takes the question for the marks one step further, at a time in milliseconds.
    pub fn score_step(&self, stage: ScoreStage, event: ScoreEvent, now_ms: u64) -> (step: ScoreStep)
        requires
            score_awaits(stage, event.deep_view()),
        ensures
            step.deep_view() == score_next(self.deep_view(), stage, event.deep_view(), now_ms),
    {
        match (stage, event) {
            (ScoreStage::Session, ScoreEvent::Finished(Ok(_))) => ScoreStep::Send {
                request: self.probe_score(),
                stage: ScoreStage::Probe,
            },
            (ScoreStage::Session, _) => ScoreStep::Done(Err(ErrorOf::ScoreSession)),
            (ScoreStage::Probe, ScoreEvent::Text(text)) => {
                if ZjuAssist::probe_reply(text.as_str()).is_ok() {
                    ScoreStep::Send {
                        request: self.ask_score(u64_text(now_ms).as_str(), "5000"),
                        stage: ScoreStage::Query,
                    }
                } else {
                    ScoreStep::Relogin { stage: ScoreStage::Relogin }
                }
            },
            (ScoreStage::Probe, _) => ScoreStep::Relogin { stage: ScoreStage::Relogin },
            (ScoreStage::Relogin, ScoreEvent::Finished(Ok(_))) => ScoreStep::Ensure {
                stage: ScoreStage::SessionAgain,
            },
            (ScoreStage::SessionAgain, ScoreEvent::Finished(Ok(_))) => ScoreStep::Send {
                request: self.ask_score(u64_text(now_ms).as_str(), "5000"),
                stage: ScoreStage::Query,
            },
            (_, ScoreEvent::Finished(Err(error))) => ScoreStep::Done(Err(error)),
            (_, ScoreEvent::Text(text)) => match parse_text(text.as_str()) {
                Ok(json) => ScoreStep::Done(ZjuAssist::scores_of(&json)),
                Err(_) => ScoreStep::Done(Err(ErrorOf::ScoreFailed)),
            },
            (_, ScoreEvent::Failed(words)) => ScoreStep::Done(Err(ErrorOf::Failed(words))),
            (_, ScoreEvent::Finished(Ok(_))) => ScoreStep::Done(Err(ErrorOf::ScoreFailed)),
        }
    }
}

/// The place of a stage in the question for the marks.
pub open spec fn score_rank(stage: ScoreStage) -> nat {
    match stage {
        ScoreStage::Session => 0,
        ScoreStage::Probe => 1,
        ScoreStage::Relogin => 2,
        ScoreStage::SessionAgain => 3,
        ScoreStage::Query => 4,
    }
}

/// The question for the marks never comes back to an earlier stage, so the account is logged in
/// again at most once; and marks come only from the last stage.
pub proof fn marks_come_after_at_most_one_relogin(
    assist: AssistView,
    stage: ScoreStage,
    event: ScoreEventView,
    now_ms: u64,
)
    requires
        score_awaits(stage, event),
    ensures
        match score_next(assist, stage, event, now_ms) {
            ScoreStepView::Done(result) => result is Ok ==> stage is Query,
            ScoreStepView::Ensure { stage: next } => score_rank(next) > score_rank(stage),
            ScoreStepView::Relogin { stage: next } => score_rank(next) > score_rank(stage)
                && stage is Probe,
            ScoreStepView::Send { stage: next, .. } => score_rank(next) > score_rank(stage),
        },
{
}

// ---------------------------------------------------------------- what the register is asked

/// Whoever is not logged in opens no session. A session is opened through the university's login
/// page, the register itself, and its question how to go on, in this order.
pub proof fn a_session_is_opened_in_order(assist: AssistView)
    ensures
        match session_start(assist) {
            SessionStepView::Send { request, stage } => {
                &&& assist.have_login
                &&& request == assist.get(cas_service_url())
                &&& stage is Cas
            },
            SessionStepView::Done(result) => !assist.have_login && result == Err::<(), ErrorView>(
                ErrorView::NotLogin,
            ),
        },
        session_next(assist, SessionStage::Cas, SessionEventView::Visited)
            matches SessionStepView::Send { request, stage } && request.url == ZDBK_SERVICE@
            && request.method is Get && request.jar == assist.jar && stage is Service,
        session_next(assist, SessionStage::Service, SessionEventView::Visited)
            matches SessionStepView::Send { request, stage } && request.url == SSO_URL@
            && request.method is Post && request.jar == assist.jar && stage is Meta,
        session_next(assist, SessionStage::Open, SessionEventView::Visited)
            == SessionStepView::Done(Ok(())),
{
}

/// The page that the register names is visited where it says that all is well and names one, and
/// otherwise there is no session.
pub proof fn the_register_says_how_to_go_on(
    assist: AssistView,
    meta: SsoView,
    words: Seq<char>,
    stage: SessionStage,
)
    ensures
        session_next(assist, stage, SessionEventView::Meta(Ok(meta))) == match meta.login_url {
            _ if meta.status != "success"@ => SessionStepView::Done(
                Err(ErrorView::SsoStatus(meta.status)),
            ),
            Some(url) => SessionStepView::Send { request: assist.get(url), stage: SessionStage::Open },
            None => SessionStepView::Done(Err(ErrorView::SsoUrlMissing)),
        },
        session_next(assist, stage, SessionEventView::Meta(Err(words))) == SessionStepView::Done(
            Err(ErrorView::SsoReply(words)),
        ),
        session_next(assist, stage, SessionEventView::Failed(words)) == SessionStepView::Done(
            Err(ErrorView::Failed(words)),
        ),
{
}

/// The evaluation is over exactly where the result is the text of the number one.
pub proof fn the_evaluation_is_over_with_a_one(again: bool, json: JsonView, words: Seq<char>)
    ensures
        evaluation_next(again, Ok(json)) == EvaluationStepView::Done(Ok(true)) <==> json.at(
            "result"@,
        ).text() == Some("1"@),
        evaluation_next(again, Ok(json)) == EvaluationStepView::Done(Ok(false)) <==> (json.at(
            "result"@,
        ).text() matches Some(text) && text != "1"@),
        json.at("result"@).text() is None ==> evaluation_next(again, Ok(json))
            == EvaluationStepView::Done(Err(ErrorView::Malformed)),
        evaluation_next(true, Err(words)) == EvaluationStepView::Done(
            Err(ErrorView::EvaluationFailed),
        ),
{
}

/// The register is asked about the evaluation of the account that is logged in, and once more
/// after a new login.
pub proof fn the_evaluation_is_that_of_the_account(assist: AssistView, error: ErrorView)
    ensures
        !assist.have_login ==> evaluation_start(assist) == EvaluationStepView::Done(
            Err(ErrorView::NotLogin),
        ),
        assist.have_login ==> (evaluation_start(assist) matches EvaluationStepView::Send {
            request,
            again,
        } && !again && request.method is Post && request.form is None
            && assist.username.is_suffix_of(request.url)),
        evaluation_resumed(assist, Ok(())) matches EvaluationStepView::Send { request, again }
            && again && request == assist.post(evaluation_url(assist.username)),
        evaluation_resumed(assist, Err(error)) == EvaluationStepView::Done(Err(error)),
{
    let url = evaluation_url(assist.username);
    assert(url.subrange(url.len() - assist.username.len(), url.len() as int) =~= assist.username);
}

/// A form for marks has eleven pairs. Only the time and the number of marks differ from one to
/// another: a trial asks for one mark, and the query for five thousand.
pub proof fn marks_are_asked_for_with_a_form(assist: AssistView, now_ms: u64)
    ensures
        probe_asked(assist).url == score_url(assist.username),
        probe_asked(assist).method is Post,
        probe_asked(assist).form matches Some(form) && form.len() == 11 && form[5] == ("nd"@, "0"@)
            && form[6] == ("queryModel.showCount"@, "1"@),
        all_asked(assist, now_ms).url == score_url(assist.username),
        all_asked(assist, now_ms).method is Post,
        all_asked(assist, now_ms).form matches Some(form) && form.len() == 11 && form[5] == (
            "nd"@,
            decimal(now_ms as int),
        ) && form[6] == ("queryModel.showCount"@, "5000"@),
        forall|i: int|
            0 <= i < 11 && i != 5 && i != 6 ==> #[trigger] probe_asked(assist).form->0[i]
                == all_asked(assist, now_ms).form->0[i],
        ({
            let form = all_asked(assist, now_ms).form->0;
            &&& form[0] == ("xn"@, ""@)
            &&& form[1] == ("xq"@, ""@)
            &&& form[2] == ("zscjl"@, ""@)
            &&& form[3] == ("zscjr"@, ""@)
            &&& form[4] == ("_search"@, "false"@)
            &&& form[7] == ("queryModel.currentPage"@, "1"@)
            &&& form[8] == ("queryModel.sortName"@, "xkkh"@)
            &&& form[9] == ("queryModel.sortOrder"@, "asc"@)
            &&& form[10] == ("time"@, "1"@)
        }),
        assist.username.is_suffix_of(score_url(assist.username)),
{
    let url = score_url(assist.username);
    assert(url.subrange(url.len() - assist.username.len(), url.len() as int) =~= assist.username);
}

/// A trial passes exactly where its reply is a document. Of any other reply it is told whether it
/// is a login page: one of three marks stands in it.
pub proof fn a_trial_passes_with_a_document(before: Seq<char>, text: Seq<char>, after: Seq<char>)
    ensures
        probe_verdict(true, text) is Ok,
        probe_verdict(false, text) is Err,
        probe_verdict(false, before + LOGIN_MARK@ + after) == Err::<(), ErrorView>(
            ErrorView::ProbeRedirected,
        ),
        probe_verdict(false, before + "/cas/login"@ + after) == Err::<(), ErrorView>(
            ErrorView::ProbeRedirected,
        ),
        probe_verdict(false, before + "login_slogin"@ + after) == Err::<(), ErrorView>(
            ErrorView::ProbeRedirected,
        ),
        probe_verdict(false, text) == Err::<(), ErrorView>(ErrorView::ProbeRedirected)
            || probe_verdict(false, text) == Err::<(), ErrorView>(ErrorView::ProbeFailed),
        probe_verdict(false, text) == Err::<(), ErrorView>(ErrorView::ProbeRedirected) ==> {
            ||| exists|i: int| #[trigger] occurs_at(text, LOGIN_MARK@, i)
            ||| exists|i: int| #[trigger] occurs_at(text, "/cas/login"@, i)
            ||| exists|i: int| #[trigger] occurs_at(text, "login_slogin"@, i)
        },
{
    a_part_is_found_where_it_stands(before, LOGIN_MARK@, after);
    a_part_is_found_where_it_stands(before, "/cas/login"@, after);
    a_part_is_found_where_it_stands(before, "login_slogin"@, after);
}

/// Marks are had through a session, a trial and the query. Where the trial does not pass, the
/// account is logged in again and a new session opened before the query; where the session cannot
/// be opened, there are none.
pub proof fn marks_are_had_in_order(
    assist: AssistView,
    now_ms: u64,
    text: Seq<char>,
    words: Seq<char>,
    error: ErrorView,
)
    ensures
        score_next(assist, ScoreStage::Session, ScoreEventView::Finished(Ok(())), now_ms)
            == (ScoreStepView::Send { request: probe_asked(assist), stage: ScoreStage::Probe }),
        score_next(assist, ScoreStage::Session, ScoreEventView::Finished(Err(error)), now_ms)
            == ScoreStepView::Done(Err(ErrorView::ScoreSession)),
        json_of_text(text) is Ok ==> score_next(
            assist,
            ScoreStage::Probe,
            ScoreEventView::Text(text),
            now_ms,
        ) == (ScoreStepView::Send { request: all_asked(assist, now_ms), stage: ScoreStage::Query }),
        json_of_text(text) is Err ==> score_next(
            assist,
            ScoreStage::Probe,
            ScoreEventView::Text(text),
            now_ms,
        ) is Relogin,
        score_next(assist, ScoreStage::Probe, ScoreEventView::Failed(words), now_ms) is Relogin,
        score_next(assist, ScoreStage::Relogin, ScoreEventView::Finished(Ok(())), now_ms)
            == (ScoreStepView::Ensure { stage: ScoreStage::SessionAgain }),
        score_next(assist, ScoreStage::Relogin, ScoreEventView::Finished(Err(error)), now_ms)
            == ScoreStepView::Done(Err(error)),
        score_next(assist, ScoreStage::SessionAgain, ScoreEventView::Finished(Ok(())), now_ms)
            == (ScoreStepView::Send { request: all_asked(assist, now_ms), stage: ScoreStage::Query }),
        score_next(assist, ScoreStage::SessionAgain, ScoreEventView::Finished(Err(error)), now_ms)
            == ScoreStepView::Done(Err(error)),
        score_next(assist, ScoreStage::Query, ScoreEventView::Failed(words), now_ms)
            == ScoreStepView::Done(Err(ErrorView::Failed(words))),
        score_next(assist, ScoreStage::Query, ScoreEventView::Text(text), now_ms)
            == ScoreStepView::Done(
            match json_of_text(text) {
                Err(_) => Err(ErrorView::ScoreFailed),
                Ok(json) => match json.at("items"@).items() {
                    Some(marks) => Ok(marks),
                    None => Err(ErrorView::Malformed),
                },
            },
        ),
{
}

/// The account stands at the end of the addresses for its evaluation and its marks, and the
/// register at the end of that for its session: nothing else differs from one to another.
pub proof fn addresses_differ_in_the_account_alone(one: Seq<char>, other: Seq<char>)
    ensures
        evaluation_url(one)
            == "https://zdbk.zju.edu.cn/jwglxt/xtgl/index_cxMyCosJxpj.html?gnmkdm=N5083&su="@
            + one,
        score_url(one)
            == "https://zdbk.zju.edu.cn/jwglxt/cxdy/xscjcx_cxXscjIndex.html?doType=query&gnmkdm=N508301&su="@
            + one,
        cas_service_url() == "https://zjuam.zju.edu.cn/cas/login?service="@ + form_bytes(
            encode_utf8(ZDBK_SERVICE@),
        ),
        one != other ==> evaluation_url(one) != evaluation_url(other),
        one != other ==> score_url(one) != score_url(other),
{
    let a = evaluation_url(one);
    let b = evaluation_url(other);
    assert(a.skip(a.len() - one.len()) =~= one);
    assert(b.skip(b.len() - other.len()) =~= other);
    let c = score_url(one);
    let d = score_url(other);
    assert(c.skip(c.len() - one.len()) =~= one);
    assert(d.skip(d.len() - other.len()) =~= other);
}

} // verus!
