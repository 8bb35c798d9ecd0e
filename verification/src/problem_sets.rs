//! The problem sets of the account, and what is due of them.
use vstd::prelude::*;
use crate::boundary::{utc_of_millis, utc_text, FIRST_MILLIS, LAST_MILLIS};
use crate::error::{outcome, Error, ErrorOf, ErrorView};
use crate::json::{
    a_field_is_found_by_its_key, duplicate_all, json_field, json_object, json_of_bytes, parse_bytes, Json, JsonView, Number,
};
use crate::numeral::{decimal, decimal_reads_back, i64_of, i64_text, parse_i64};
use crate::pintia::{
    login_asked, PintiaAssist, PintiaReply, PintiaReplyView, PintiaRequest, PintiaRequestView,
    PintiaView,
};
use crate::request::{add_pair, Method, Pairs, PairsView};
use crate::text::{a_part_is_found_where_it_stands, contains, contains_text, occurs_at, same};

verus! {

/// The address of the problem sets.
pub const SETS_URL: &'static str = "https://pintia.cn/api/problem-sets";

/// The wait before a request that came too early is sent once more.
pub const RATE_LIMIT_WAIT_SECS: u64 = 3;

// ---------------------------------------------------------------- problem sets

/// Picks the problem sets that end after a time.
pub open spec fn active_filter(utc: Seq<char>) -> Seq<char> {
    "{\"endAtAfter\":\""@ + utc + "\"}"@
}

/// Leaves no problem set out.
pub const ALL_FILTER: &'static str = "{}";

/// What is asked of the problem sets: the hundred that end first of those that a filter picks.
pub open spec fn sets_query(filter: Seq<char>) -> PairsView {
    seq![
        ("filter"@, filter),
        ("limit"@, "100"@),
        ("order_by"@, "END_AT"@),
        ("asc"@, "true"@),
    ]
}

/// The request for problem sets.
pub open spec fn sets_asked(assist: PintiaView, filter: Seq<char>) -> PintiaRequestView {
    PintiaRequestView { query: sets_query(filter), ..assist.request(Method::Get, SETS_URL@) }
}

/// The problem sets in a reply; none if it has no list of them.
pub open spec fn sets_in(reply: PintiaReplyView) -> Result<Seq<JsonView>, ErrorView> {
    match reply {
        PintiaReplyView::Refused { status, status_text, body } => if status == 404
            && contains_text(body, "USER_NOT_FOUND"@) {
            Err(ErrorOf::SessionExpired)
        } else {
            Err(ErrorOf::ProblemSets(status_text))
        },
        PintiaReplyView::Success { body } => sets_of_json(json_of_bytes(body)),
    }
}

/// The problem sets in the body of a reply.
pub open spec fn sets_of_json(body: Result<JsonView, Seq<char>>) -> Result<
    Seq<JsonView>,
    ErrorView,
> {
    match body {
        Err(words) => Err(ErrorOf::NotJson(words)),
        Ok(json) => match json.at("problemSets"@).items() {
            Some(sets) => Ok(sets),
            None => Ok(Seq::empty()),
        },
    }
}

/// The reply says that the request came too early.
pub open spec fn too_early(reply: PintiaReplyView) -> bool {
    reply matches PintiaReplyView::Refused { status, .. } && status == 429
}

/// What follows a reply with problem sets.
pub enum RawStep {
    Done(Result<Vec<Json>, Error>),
    /// The request came too early: it is sent once more after a wait.
    Retry { after_secs: u64, request: PintiaRequest },
}

/// What the step that follows a reply with problem sets says.
pub enum RawStepView {
    Done(Result<Seq<JsonView>, ErrorView>),
    Retry { after_secs: u64, request: PintiaRequestView },
}

impl DeepView for RawStep {
    type V = RawStepView;

    open spec fn deep_view(&self) -> RawStepView {
        match self {
            RawStep::Done(result) => RawStepView::Done(outcome(*result)),
            RawStep::Retry { after_secs, request } => RawStepView::Retry {
                after_secs: *after_secs,
                request: request.deep_view(),
            },
        }
    }
}

/// What follows a reply with problem sets: a first request that came too early is sent again.
pub open spec fn raw_next(
    assist: PintiaView,
    filter: Seq<char>,
    retried: bool,
    reply: PintiaReplyView,
) -> RawStepView {
    if too_early(reply) && !retried {
        RawStepView::Retry {
            after_secs: RATE_LIMIT_WAIT_SECS,
            request: sets_asked(assist, filter),
        }
    } else {
        RawStepView::Done(sets_in(reply))
    }
}

/// How far the question for problem sets has come.
#[derive(Clone, Copy, PartialEq, Eq, Structural, Debug)]
pub enum SetsStage {
    /// The sets are asked for.
    First,
    /// They are asked for once more, because the request came too early.
    FirstRetry,
    /// The account logs in again.
    Login,
    /// The sets are asked for in the new session.
    Again,
    /// They are asked for once more there.
    AgainRetry,
}

/// What the question for problem sets waits for.
pub enum SetsEvent {
    /// The request failed.
    Failed(String),
    /// A reply came.
    Reply(PintiaReply),
    /// The account logged in again, or not.
    LoggedIn(Result<String, Error>),
}

/// What an event of the question for problem sets says.
pub enum SetsEventView {
    Failed(Seq<char>),
    Reply(PintiaReplyView),
    LoggedIn(Result<Seq<char>, ErrorView>),
}

impl DeepView for SetsEvent {
    type V = SetsEventView;

    open spec fn deep_view(&self) -> SetsEventView {
        match self {
            SetsEvent::Failed(words) => SetsEventView::Failed(words@),
            SetsEvent::Reply(reply) => SetsEventView::Reply(reply.deep_view()),
            SetsEvent::LoggedIn(result) => SetsEventView::LoggedIn(outcome(*result)),
        }
    }
}

/// What the question for problem sets does next.
pub enum SetsStep {
    Done(Result<Vec<Json>, Error>),
    /// A request is sent; one that follows a refusal waits first.
    Send { after_secs: u64, request: PintiaRequest, stage: SetsStage },
    /// The account logs in again.
    Login { request: PintiaRequest, stage: SetsStage },
}

/// What the next step of the question for problem sets says.
pub enum SetsStepView {
    Done(Result<Seq<JsonView>, ErrorView>),
    Send { after_secs: u64, request: PintiaRequestView, stage: SetsStage },
    Login { request: PintiaRequestView, stage: SetsStage },
}

impl DeepView for SetsStep {
    type V = SetsStepView;

    open spec fn deep_view(&self) -> SetsStepView {
        match self {
            SetsStep::Done(result) => SetsStepView::Done(outcome(*result)),
            SetsStep::Send { after_secs, request, stage } => SetsStepView::Send {
                after_secs: *after_secs,
                request: request.deep_view(),
                stage: *stage,
            },
            SetsStep::Login { request, stage } => SetsStepView::Login {
                request: request.deep_view(),
                stage: *stage,
            },
        }
    }
}

/// The event is one that the stage waits for.
pub open spec fn sets_awaits(stage: SetsStage, event: SetsEventView) -> bool {
    (stage is Login) == (event is LoggedIn)
}

/// The first step of the question for problem sets.
pub open spec fn sets_start(assist: PintiaView, filter: Seq<char>) -> SetsStepView {
    if assist.have_login {
        SetsStepView::Send {
            after_secs: 0,
            request: sets_asked(assist, filter),
            stage: SetsStage::First,
        }
    } else {
        SetsStepView::Done(Err(ErrorOf::NotLogin))
    }
}

/// The session and the step that follow an outcome of the first question: where the session is
/// no longer known, the account logs in again if it can.
pub open spec fn sets_first(
    assist: PintiaView,
    sets: Result<Seq<JsonView>, ErrorView>,
) -> (PintiaView, SetsStepView) {
    if !(sets matches Err(ErrorOf::SessionExpired)) {
        (assist, SetsStepView::Done(sets))
    } else if assist.can_relogin() {
        (
            assist,
            SetsStepView::Login {
                request: login_asked(assist, assist.account, assist.password),
                stage: SetsStage::Login,
            },
        )
    } else {
        (assist.over(), SetsStepView::Done(Err(ErrorOf::SessionOver)))
    }
}

/// The session and the step that follow an event of the question for problem sets.
pub open spec fn sets_next(
    assist: PintiaView,
    filter: Seq<char>,
    stage: SetsStage,
    event: SetsEventView,
) -> (PintiaView, SetsStepView) {
    match event {
        SetsEventView::Failed(words) => (assist, SetsStepView::Done(Err(ErrorOf::Failed(words)))),
        SetsEventView::LoggedIn(Err(error)) => (assist, SetsStepView::Done(Err(error))),
        SetsEventView::LoggedIn(Ok(_)) => (
            assist,
            SetsStepView::Send {
                after_secs: 0,
                request: sets_asked(assist, filter),
                stage: SetsStage::Again,
            },
        ),
        SetsEventView::Reply(reply) => match raw_next(assist, filter, is_retry(stage), reply) {
            RawStepView::Retry { after_secs, request } => (
                assist,
                SetsStepView::Send { after_secs, request, stage: retry_of(stage) },
            ),
            RawStepView::Done(sets) => if stage is First || stage is FirstRetry {
                sets_first(assist, sets)
            } else {
                (assist, SetsStepView::Done(sets))
            },
        },
    }
}

/// The stage is one in which the sets are asked for once more.
pub open spec fn is_retry(stage: SetsStage) -> bool {
    stage is FirstRetry || stage is AgainRetry
}

/// The stage in which the sets are asked for once more.
pub open spec fn retry_of(stage: SetsStage) -> SetsStage {
    match stage {
        SetsStage::First => SetsStage::FirstRetry,
        _ => SetsStage::AgainRetry,
    }
}

impl PintiaAssist {
    /// Picks the problem sets that end after a time that is written out.
    pub fn filter_after(utc: &str) -> (filter: String)
        ensures
            filter@ == active_filter(utc@),
    {
        let mut filter = "{\"endAtAfter\":\"".to_owned();
        filter.append(utc);
        filter.append("\"}");
        filter
    }

    /// Picks the problem sets that end after a time in milliseconds, if that can be written
    /// out.
    pub fn active_sets(now_ms: i64) -> (filter: Option<String>)
        ensures
            filter.deep_view() == match utc_of_millis(now_ms) {
                Some(utc) => Some(active_filter(utc)),
                None => None,
            },
            filter is Some <==> FIRST_MILLIS <= now_ms <= LAST_MILLIS,
    {
        match utc_text(now_ms) {
            Some(utc) => Some(PintiaAssist::filter_after(utc.as_str())),
            None => None,
        }
    }

    /// Asks for the problem sets that a filter picks.
    pub fn get_problem_sets_raw(&self, filter: &str) -> (request: PintiaRequest)
        ensures
            request.deep_view() == sets_asked(self.deep_view(), filter@),
    {
        let mut query: Pairs = Vec::new();
        assert(query.deep_view() =~= Seq::<(Seq<char>, Seq<char>)>::empty());
        add_pair(&mut query, "filter", filter);
        add_pair(&mut query, "limit", "100");
        add_pair(&mut query, "order_by", "END_AT");
        add_pair(&mut query, "asc", "true");
        assert(query.deep_view() =~= sets_query(filter@));
        let mut request = self.request(Method::Get, SETS_URL);
        request.query = query;
        request
    }

    /// Asks for the problem sets that end after a time in milliseconds, if that can be written
    /// out; the filter goes with a second request.
    pub fn get_problem_sets(&self, now_ms: i64) -> (start: Option<(String, PintiaRequest)>)
        ensures
            start.deep_view() == match utc_of_millis(now_ms) {
                Some(utc) => Some(
                    (active_filter(utc), sets_asked(self.deep_view(), active_filter(utc))),
                ),
                None => None,
            },
            start is Some <==> FIRST_MILLIS <= now_ms <= LAST_MILLIS,
    {
        match PintiaAssist::active_sets(now_ms) {
            Some(filter) => {
                let request = self.get_problem_sets_raw(filter.as_str());
                Some((filter, request))
            },
            None => None,
        }
    }

    /// The problem sets in the body of a reply that is JSON.
    pub fn sets_of(json: &Json) -> (sets: Vec<Json>)
        ensures
            Ok::<Seq<JsonView>, ErrorView>(sets.deep_view()) == sets_of_json(Ok(json@)),
    {
        match json.array_at("problemSets") {
            Some(sets) => duplicate_all(sets),
            None => {
                let sets: Vec<Json> = Vec::new();
                assert(sets.deep_view() =~= Seq::<JsonView>::empty());
                sets
            },
        }
    }

    /// The problem sets in a reply.
    pub fn sets_reply(reply: &PintiaReply) -> (sets: Result<Vec<Json>, Error>)
        ensures
            outcome(sets) == sets_in(reply.deep_view()),
    {
        match reply {
            PintiaReply::Refused { status, status_text, body } => {
                if *status == 404 && contains(body.as_str(), "USER_NOT_FOUND") {
                    Err(ErrorOf::SessionExpired)
                } else {
                    Err(ErrorOf::ProblemSets(status_text.clone()))
                }
            },
            PintiaReply::Success { body } => match parse_bytes(body.as_slice()) {
                Ok(json) => Ok(PintiaAssist::sets_of(&json)),
                Err(words) => Err(ErrorOf::NotJson(words)),
            },
        }
    }

    /// Takes up a reply with problem sets.
    pub fn problem_sets_reply(&self, filter: &str, retried: bool, reply: &PintiaReply) -> (step:
        RawStep)
        ensures
            step.deep_view() == raw_next(self.deep_view(), filter@, retried, reply.deep_view()),
    {
        let early = match reply {
            PintiaReply::Refused { status, .. } => *status == 429,
            PintiaReply::Success { .. } => false,
        };
        if early && !retried {
            RawStep::Retry {
                after_secs: RATE_LIMIT_WAIT_SECS,
                request: self.get_problem_sets_raw(filter),
            }
        } else {
            RawStep::Done(PintiaAssist::sets_reply(reply))
        }
    }

    /// Starts to ask for the problem sets that a filter picks.
    pub fn fetch_sets_with_relogin(&self, filter: &str) -> (step: SetsStep)
        ensures
            step.deep_view() == sets_start(self.deep_view(), filter@),
    {
        if !self.have_login {
            return SetsStep::Done(Err(ErrorOf::NotLogin));
        }
        SetsStep::Send {
            after_secs: 0,
            request: self.get_problem_sets_raw(filter),
            stage: SetsStage::First,
        }
    }

    fn first_sets(&mut self, sets: Result<Vec<Json>, Error>) -> (step: SetsStep)
        ensures
            (final(self).deep_view(), step.deep_view()) == sets_first(
                old(self).deep_view(),
                outcome(sets),
            ),
    {
        match sets {
            Err(ErrorOf::SessionExpired) => {
                if self.relogin_possible() {
                    SetsStep::Login {
                        request: self.login(self.account.as_str(), self.password.as_str()),
                        stage: SetsStage::Login,
                    }
                } else {
                    self.have_login = false;
                    SetsStep::Done(Err(ErrorOf::SessionOver))
                }
            },
            sets => SetsStep::Done(sets),
        }
    }

    /// Takes the question for problem sets one step further.
    pub fn fetch_sets_step(&mut self, filter: &str, stage: SetsStage, event: SetsEvent) -> (step:
        SetsStep)
        requires
            sets_awaits(stage, event.deep_view()),
        ensures
            (final(self).deep_view(), step.deep_view()) == sets_next(
                old(self).deep_view(),
                filter@,
                stage,
                event.deep_view(),
            ),
    {
        match event {
            SetsEvent::Failed(words) => SetsStep::Done(Err(ErrorOf::Failed(words))),
            SetsEvent::LoggedIn(Err(error)) => SetsStep::Done(Err(error)),
            SetsEvent::LoggedIn(Ok(_)) => SetsStep::Send {
                after_secs: 0,
                request: self.get_problem_sets_raw(filter),
                stage: SetsStage::Again,
            },
            SetsEvent::Reply(reply) => {
                let (first, retried, retry) = match stage {
                    SetsStage::First => (true, false, SetsStage::FirstRetry),
                    SetsStage::FirstRetry => (true, true, SetsStage::AgainRetry),
                    SetsStage::AgainRetry => (false, true, SetsStage::AgainRetry),
                    _ => (false, false, SetsStage::AgainRetry),
                };
                match self.problem_sets_reply(filter, retried, &reply) {
                    RawStep::Retry { after_secs, request } => SetsStep::Send {
                        after_secs,
                        request,
                        stage: retry,
                    },
                    RawStep::Done(sets) => {
                        if first {
                            self.first_sets(sets)
                        } else {
                            SetsStep::Done(sets)
                        }
                    },
                }
            },
        }
    }

    /// Starts to ask for problem sets, whether they are over or not: the hundred that end first.
    pub fn get_assignments(&self) -> (step: SetsStep)
        ensures
            step.deep_view() == sets_start(self.deep_view(), ALL_FILTER@),
    {
        self.fetch_sets_with_relogin(ALL_FILTER)
    }
}

/// The place of a stage in the question for problem sets.
pub open spec fn sets_rank(stage: SetsStage) -> nat {
    match stage {
        SetsStage::First => 0,
        SetsStage::FirstRetry => 1,
        SetsStage::Login => 2,
        SetsStage::Again => 3,
        SetsStage::AgainRetry => 4,
    }
}

/// The question for problem sets never comes back to an earlier stage: in each session it is
/// asked at most twice, and the account logs in again at most once, and only where the service
/// no longer knows the session.
pub proof fn sets_are_asked_for_a_few_times(
    assist: PintiaView,
    filter: Seq<char>,
    stage: SetsStage,
    event: SetsEventView,
)
    requires
        sets_awaits(stage, event),
    ensures
        match sets_next(assist, filter, stage, event).1 {
            SetsStepView::Done(_) => true,
            SetsStepView::Send { stage: next, after_secs, .. } => sets_rank(next) > sets_rank(stage)
                && (event is Reply ==> after_secs == RATE_LIMIT_WAIT_SECS),
            SetsStepView::Login { stage: next, .. } => {
                &&& sets_rank(next) > sets_rank(stage)
                &&& event matches SetsEventView::Reply(reply)
                &&& sets_in(reply) == Err::<Seq<JsonView>, ErrorView>(ErrorOf::SessionExpired)
                &&& assist.can_relogin()
            },
        },
{
}

/// A question for problem sets changes the session in one case only: it is over when the
/// service no longer knows it and it cannot be opened again.
pub proof fn asking_for_sets_ends_a_lost_session(
    assist: PintiaView,
    filter: Seq<char>,
    stage: SetsStage,
    event: SetsEventView,
)
    requires
        sets_awaits(stage, event),
    ensures
        ({
            let (after, step) = sets_next(assist, filter, stage, event);
            if step == SetsStepView::Done(Err(ErrorOf::SessionOver)) && !(event is LoggedIn) {
                after == assist.over() && !assist.can_relogin()
            } else {
                after == assist
            }
        }),
{
}

// ---------------------------------------------------------------- what is due

/// The number of a problem set, written as a text or as a number; zero if it has none.
pub open spec fn set_number(set: JsonView) -> i64 {
    let id = set.at("id"@);
    let number = match id.text() {
        Some(text) => i64_of(text),
        None => id.signed(),
    };
    match number {
        Some(number) => number,
        None => 0,
    }
}

/// What is put behind the name of a problem set of a kind.
pub open spec fn kind_mark(kind: Seq<char>) -> Seq<char> {
    if kind == "EXAM"@ {
        "（考试）"@
    } else if kind == "CONTEST"@ {
        "（竞赛）"@
    } else {
        Seq::empty()
    }
}

/// A number as JSON.
pub open spec fn json_number(n: i64) -> JsonView {
    JsonView::Number {
        signed: Some(n),
        unsigned: if n >= 0 {
            Some(n as u64)
        } else {
            None
        },
        text: decimal(n as int),
    }
}

/// What is due of a problem set: nothing if it has no end or is a book.
pub open spec fn todo_in(set: JsonView) -> Option<JsonView> {
    let kind = set.text_or("type"@, Seq::empty());
    match set.at("endAt"@).text() {
        None => None,
        Some(end_time) => if kind == "BOOK"@ {
            None
        } else {
            Some(
                JsonView::Object(
                    seq![
                        ("course_id"@, json_number(set_number(set))),
                        ("course_name"@, JsonView::Text(set.text_or("organizationName"@, "拼题A"@))),
                        ("end_time"@, JsonView::Text(end_time)),
                        ("id"@, json_number(set_number(set))),
                        ("source"@, JsonView::Text("pintia"@)),
                        (
                            "title"@,
                            JsonView::Text(set.text_or("name"@, "未命名题集"@) + kind_mark(kind)),
                        ),
                    ],
                ),
            )
        },
    }
}

/// What is due of problem sets.
pub open spec fn todos_in(sets: Seq<JsonView>) -> Seq<JsonView>
    decreases sets.len(),
{
    if sets.len() == 0 {
        Seq::empty()
    } else {
        let before = todos_in(sets.drop_last());
        match todo_in(sets.last()) {
            Some(todo) => before.push(todo),
            None => before,
        }
    }
}

fn number_json(n: i64) -> (json: Json)
    ensures
        json@ == json_number(n),
{
    let unsigned = if n >= 0 {
        Some(n as u64)
    } else {
        None
    };
    Json::Number(Number { signed: Some(n), unsigned, text: i64_text(n) })
}

fn number_of_set(set: &Json) -> (number: i64)
    ensures
        number == set_number(set@),
{
    let number = match set.get("id") {
        Some(id) => match id.as_text() {
            Some(text) => parse_i64(text),
            None => id.as_i64(),
        },
        None => None,
    };
    match number {
        Some(number) => number,
        None => 0,
    }
}

fn mark_of(kind: &str) -> (mark: String)
    ensures
        mark@ == kind_mark(kind@),
{
    proof {
        reveal_strlit("");
    }
    if same(kind, "EXAM") {
        "（考试）".to_owned()
    } else if same(kind, "CONTEST") {
        "（竞赛）".to_owned()
    } else {
        String::new()
    }
}

fn todo_of(set: &Json) -> (todo: Option<Json>)
    ensures
        todo.deep_view() == todo_in(set@),
{
    let end_time = match set.text_at("endAt") {
        Some(end_time) => end_time.to_owned(),
        None => {
            return None;
        },
    };
    proof {
        reveal_strlit("");
        assert(""@ =~= Seq::<char>::empty());
    }
    let kind = set.text_or("type", "");
    if same(kind.as_str(), "BOOK") {
        return None;
    }
    let number: i64 = number_of_set(set);
    let mut title = set.text_or("name", "未命名题集");
    title.append(mark_of(kind.as_str()).as_str());
    let course_name = set.text_or("organizationName", "拼题A");
    let mut fields: Vec<(String, Json)> = Vec::new();
    assert(fields.deep_view() =~= Seq::<(Seq<char>, JsonView)>::empty());
    json_field(&mut fields, "course_id", number_json(number));
    json_field(&mut fields, "course_name", Json::Text(course_name));
    json_field(&mut fields, "end_time", Json::Text(end_time));
    json_field(&mut fields, "id", number_json(number));
    json_field(&mut fields, "source", Json::Text("pintia".to_owned()));
    json_field(&mut fields, "title", Json::Text(title));
    assert(fields.deep_view() =~= todo_in(set@)->0->Object_0);
    Some(json_object(fields))
}

impl PintiaAssist {
    /// Starts to ask for what is due after a time in milliseconds, if that can be written out;
    /// the filter goes with every further step.
    pub fn get_todos(&self, now_ms: i64) -> (start: Option<(String, SetsStep)>)
        ensures
            start.deep_view() == match utc_of_millis(now_ms) {
                Some(utc) => Some(
                    (active_filter(utc), sets_start(self.deep_view(), active_filter(utc))),
                ),
                None => None,
            },
            start is Some <==> FIRST_MILLIS <= now_ms <= LAST_MILLIS,
    {
        match PintiaAssist::active_sets(now_ms) {
            Some(filter) => {
                let step = self.fetch_sets_with_relogin(filter.as_str());
                Some((filter, step))
            },
            None => None,
        }
    }

    /// What is due of problem sets.
    pub fn todos_of(sets: &Vec<Json>) -> (todos: Vec<Json>)
        ensures
            todos.deep_view() == todos_in(sets.deep_view()),
    {
        let ghost all = sets.deep_view();
        let mut todos: Vec<Json> = Vec::new();
        assert(todos.deep_view() =~= Seq::<JsonView>::empty());
        for i in 0..sets.len()
            invariant
                all == sets.deep_view(),
                todos.deep_view() == todos_in(all.take(i as int)),
        {
            assert(all.take(i + 1).drop_last() =~= all.take(i as int));
            assert(all[i as int] == sets@[i as int]@);
            if let Some(todo) = todo_of(&sets[i]) {
                let ghost before = todos.deep_view();
                todos.push(todo);
                assert(todos.deep_view() =~= before.push(todo@));
            }
        }
        assert(all.take(all.len() as int) =~= all);
        todos
    }
}

/// Everything that is due comes from a problem set that has an end and is no book, and every
/// such set is among what is due.
pub proof fn what_is_due_has_an_end(sets: Seq<JsonView>)
    ensures
        forall|i: int|
            0 <= i < todos_in(sets).len() ==> exists|j: int|
                0 <= j < sets.len() && todo_in(#[trigger] sets[j]) == Some(
                    #[trigger] todos_in(sets)[i],
                ),
        forall|j: int|
            0 <= j < sets.len() && (#[trigger] sets[j]).at("endAt"@).text() is Some
                && sets[j].text_or("type"@, Seq::empty()) != "BOOK"@ ==> todos_in(sets).contains(todo_in(sets[j])->0),
    decreases sets.len(),
{
    if sets.len() > 0 {
        let before = sets.drop_last();
        what_is_due_has_an_end(before);
        assert forall|i: int| 0 <= i < todos_in(sets).len() implies exists|j: int|
            0 <= j < sets.len() && todo_in(#[trigger] sets[j]) == Some(
                #[trigger] todos_in(sets)[i],
            ) by {
            if i < todos_in(before).len() {
                assert(todos_in(sets)[i] == todos_in(before)[i]);
                let j = choose|j: int|
                    0 <= j < before.len() && todo_in(#[trigger] before[j]) == Some(
                        todos_in(before)[i],
                    );
                assert(before[j] == sets[j]);
            } else {
                assert(todo_in(sets[sets.len() - 1]) == Some(todos_in(sets)[i]));
            }
        }
        assert forall|j: int|
            0 <= j < sets.len() && (#[trigger] sets[j]).at("endAt"@).text() is Some
                && sets[j].text_or("type"@, Seq::empty()) != "BOOK"@ implies todos_in(sets).contains(todo_in(sets[j])->0) by {
            if j < before.len() {
                assert(before[j] == sets[j]);
                assert(todos_in(before).contains(todo_in(sets[j])->0));
                let i = choose|i: int|
                    0 <= i < todos_in(before).len() && todos_in(before)[i] == todo_in(sets[j])->0;
                assert(todos_in(sets)[i] == todo_in(sets[j])->0);
            } else {
                assert(todos_in(sets)[todos_in(sets).len() - 1] == todo_in(sets[j])->0);
            }
        }
    }
}

// ---------------------------------------------------------------- what sets say

/// The sets are asked for with the filter that is given, a hundred at once, by their ends.
pub proof fn sets_are_asked_for_by_their_ends(assist: PintiaView, filter: Seq<char>)
    ensures
        ({
            let request = sets_asked(assist, filter);
            &&& request.method is Get
            &&& request.url == SETS_URL@
            &&& request.jar == assist.jar
            &&& request.payload is None
            &&& request.query.len() == 4
            &&& request.query[0] == ("filter"@, filter)
            &&& request.query[1] == ("limit"@, "100"@)
            &&& request.query[2] == ("order_by"@, "END_AT"@)
            &&& request.query[3] == ("asc"@, "true"@)
        }),
{
}

/// A filter for what is due has the time in it, as it is written: two times are two filters.
pub proof fn a_filter_has_its_time(utc: Seq<char>, other: Seq<char>)
    ensures
        active_filter(utc) == active_filter(other) ==> utc == other,
        active_filter(utc).subrange(15, (15 + utc.len()) as int) == utc,
        active_filter(utc).len() == utc.len() + 17,
{
    reveal_strlit("{\"endAtAfter\":\"");
    reveal_strlit("\"}");
    assert(active_filter(utc).subrange(15, (15 + utc.len()) as int) =~= utc);
    assert(active_filter(other).subrange(15, (15 + other.len()) as int) =~= other);
}

/// The sets are those that the reply lists, and none where it lists none. Of the refusals only
/// the one that does not find the user is a session that is over.
pub proof fn sets_are_those_of_the_reply(
    body: Seq<u8>,
    before: Seq<char>,
    after: Seq<char>,
    text: Seq<char>,
    status: u16,
    status_text: Seq<char>,
)
    ensures
        match json_of_bytes(body) {
            Err(words) => sets_in(PintiaReplyView::Success { body }) == Err::<
                Seq<JsonView>,
                ErrorView,
            >(ErrorView::NotJson(words)),
            Ok(json) => sets_in(PintiaReplyView::Success { body }) matches Ok(sets) && match json.at(
                "problemSets"@,
            ).items() {
                Some(items) => sets == items,
                None => sets.len() == 0,
            },
        },
        sets_in(
            PintiaReplyView::Refused {
                status: 404,
                status_text,
                body: before + "USER_NOT_FOUND"@ + after,
            },
        ) == Err::<Seq<JsonView>, ErrorView>(ErrorView::SessionExpired),
        status != 404 ==> sets_in(
            PintiaReplyView::Refused { status, status_text, body: text },
        ) == Err::<Seq<JsonView>, ErrorView>(ErrorView::ProblemSets(status_text)),
        (forall|i: int| !#[trigger] occurs_at(text, "USER_NOT_FOUND"@, i)) ==> sets_in(
            PintiaReplyView::Refused { status, status_text, body: text },
        ) == Err::<Seq<JsonView>, ErrorView>(ErrorView::ProblemSets(status_text)),
{
    a_part_is_found_where_it_stands(before, "USER_NOT_FOUND"@, after);
}

/// A request that came too early is sent once more after three seconds, as it was, and not a
/// second time. Any other reply is what it is.
pub proof fn a_request_that_came_too_early_is_sent_again(
    assist: PintiaView,
    filter: Seq<char>,
    reply: PintiaReplyView,
    status_text: Seq<char>,
    body: Seq<char>,
)
    ensures
        raw_next(
            assist,
            filter,
            false,
            PintiaReplyView::Refused { status: 429, status_text, body },
        ) == (RawStepView::Retry { after_secs: 3, request: sets_asked(assist, filter) }),
        raw_next(assist, filter, true, reply) == RawStepView::Done(sets_in(reply)),
        !(reply matches PintiaReplyView::Refused { status, .. } && status == 429) ==> raw_next(
            assist,
            filter,
            false,
            reply,
        ) == RawStepView::Done(sets_in(reply)),
{
}

/// After a new login the sets are asked for once more, with the same filter; where there is none,
/// its error is the result.
pub proof fn sets_are_asked_for_after_a_new_login(
    assist: PintiaView,
    filter: Seq<char>,
    account: Seq<char>,
    error: ErrorView,
    words: Seq<char>,
    stage: SetsStage,
)
    ensures
        sets_next(assist, filter, SetsStage::Login, SetsEventView::LoggedIn(Ok(account))) == (
            assist,
            SetsStepView::Send {
                after_secs: 0,
                request: sets_asked(assist, filter),
                stage: SetsStage::Again,
            },
        ),
        sets_next(assist, filter, SetsStage::Login, SetsEventView::LoggedIn(Err(error))) == (
            assist,
            SetsStepView::Done(Err(error)),
        ),
        sets_next(assist, filter, stage, SetsEventView::Failed(words)) == (
            assist,
            SetsStepView::Done(Err(ErrorView::Failed(words))),
        ),
        assist.have_login ==> sets_start(assist, filter) == (SetsStepView::Send {
            after_secs: 0,
            request: sets_asked(assist, filter),
            stage: SetsStage::First,
        }),
        !assist.have_login ==> sets_start(assist, filter) == SetsStepView::Done(
            Err(ErrorView::NotLogin),
        ),
{
}

/// Where the session is over when the sets are first asked for, the account logs in again with
/// its own name and password if it can, and is logged out if it cannot. When they are asked for
/// once more, there is no other login.
pub proof fn a_session_that_is_over_is_opened_once(
    assist: PintiaView,
    filter: Seq<char>,
    reply: PintiaReplyView,
)
    requires
        sets_in(reply) == Err::<Seq<JsonView>, ErrorView>(ErrorView::SessionExpired),
    ensures
        !assist.cookie_login && assist.password.len() > 0 ==> sets_next(
            assist,
            filter,
            SetsStage::First,
            SetsEventView::Reply(reply),
        ) == (
            assist,
            SetsStepView::Login {
                request: login_asked(assist, assist.account, assist.password),
                stage: SetsStage::Login,
            },
        ),
        assist.cookie_login || assist.password.len() == 0 ==> sets_next(
            assist,
            filter,
            SetsStage::First,
            SetsEventView::Reply(reply),
        ) == (
            PintiaView { have_login: false, ..assist },
            SetsStepView::Done(Err(ErrorView::SessionOver)),
        ),
        sets_next(assist, filter, SetsStage::Again, SetsEventView::Reply(reply)) == (
            assist,
            SetsStepView::Done(Err(ErrorView::SessionExpired)),
        ),
{
}

/// The number of a set is the one in its field, as a number or as a text that is one, and zero
/// where there is none.
pub proof fn a_set_has_the_number_of_its_field(set: JsonView, n: i64, text: Seq<char>)
    ensures
        set.at("id"@).signed() == Some(n) ==> set_number(set) == n,
        set.at("id"@).text() == Some(text) && i64_of(text) == Some(n) ==> set_number(set) == n,
        set.at("id"@).text() == Some(text) && i64_of(text) is None ==> set_number(set) == 0,
        set.at("id"@).text() is None && set.at("id"@).signed() is None ==> set_number(set) == 0,
{
}

/// What is due is what a set says: its end, its number, its organisation and its name, with a mark
/// for examinations and contests. A set without an end is never due, and neither is a book.
pub open spec fn is_due(set: JsonView, todo: JsonView) -> bool {
    &&& todo.at("end_time"@).text() == set.at("endAt"@).text()
    &&& todo.at("end_time"@).text() is Some
    &&& todo.at("id"@).signed() == Some(set_number(set))
    &&& todo.at("course_id"@).signed() == Some(set_number(set))
    &&& todo.at("source"@).text() == Some("pintia"@)
    &&& match set.at("organizationName"@).text() {
        Some(name) => todo.at("course_name"@).text() == Some(name),
        None => todo.at("course_name"@).text() == Some("拼题A"@),
    }
    &&& todo.at("title"@).text() matches Some(title) && {
        let name = match set.at("name"@).text() {
            Some(name) => name,
            None => "未命名题集"@,
        };
        if set.at("type"@).text() == Some("EXAM"@) {
            title == name + "（考试）"@
        } else if set.at("type"@).text() == Some("CONTEST"@) {
            title == name + "（竞赛）"@
        } else {
            title == name
        }
    }
}

/// A set has an end and is no book.
pub open spec fn has_an_end(set: JsonView) -> bool {
    set.at("endAt"@).text() is Some && set.at("type"@).text() != Some("BOOK"@)
}

/// A set with an end that is no book is due, as it says itself; no other is.
pub proof fn a_set_is_due_as_it_says(set: JsonView)
    ensures
        has_an_end(set) ==> (todo_in(set) matches Some(todo) && is_due(set, todo)),
        !has_an_end(set) ==> todo_in(set) is None,
{
    reveal_strlit("course_id");
    reveal_strlit("course_name");
    reveal_strlit("end_time");
    reveal_strlit("id");
    reveal_strlit("source");
    reveal_strlit("title");
    reveal_strlit("EXAM");
    reveal_strlit("CONTEST");
    reveal_strlit("BOOK");
    assert("course_id"@.len() == 9 && "course_name"@.len() == 11 && "end_time"@.len() == 8
        && "id"@.len() == 2 && "source"@.len() == 6 && "title"@.len() == 5 && "EXAM"@.len() == 4
        && "CONTEST"@.len() == 7 && "BOOK"@.len() == 4);
    if let Some(todo) = todo_in(set) {
        let fields = todo.fields()->0;
        a_field_is_found_by_its_key(fields, "course_id"@, 0);
        a_field_is_found_by_its_key(fields, "course_name"@, 1);
        a_field_is_found_by_its_key(fields, "end_time"@, 2);
        a_field_is_found_by_its_key(fields, "id"@, 3);
        a_field_is_found_by_its_key(fields, "source"@, 4);
        a_field_is_found_by_its_key(fields, "title"@, 5);
        let name = set.text_or("name"@, "未命名题集"@);
        assert(name + Seq::<char>::empty() =~= name);
    }
}

/// One set more that is due stands behind the others, and one that is not changes nothing.
pub proof fn one_set_more_is_due_last(sets: Seq<JsonView>, set: JsonView)
    ensures
        todos_in(Seq::empty()).len() == 0,
        !has_an_end(set) ==> todos_in(sets.push(set)) == todos_in(sets),
        has_an_end(set) ==> {
            &&& todos_in(sets.push(set)).len() == todos_in(sets).len() + 1
            &&& todos_in(sets.push(set)).drop_last() == todos_in(sets)
            &&& is_due(set, todos_in(sets.push(set)).last())
        },
{
    assert(sets.push(set).drop_last() =~= sets);
    a_set_is_due_as_it_says(set);
    if has_an_end(set) {
        assert(todos_in(sets.push(set)).drop_last() =~= todos_in(sets));
    }
}

/// A number in a document is the number itself, without a sign where it has none, and written in
/// digits that are read back as it.
pub proof fn a_number_in_a_document_is_the_number(n: i64)
    ensures
        json_number(n).signed() == Some(n),
        n >= 0 ==> (json_number(n).unsigned() matches Some(m) && m == n),
        n < 0 ==> json_number(n).unsigned() is None,
        json_number(n) matches JsonView::Number { text, .. } && i64_of(text) == Some(n),
{
    decimal_reads_back(n);
}

} // verus!
