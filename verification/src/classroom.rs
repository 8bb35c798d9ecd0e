//! The lectures of the classroom service.
use vstd::prelude::*;
use crate::boundary::{
    cookies_shown, day_number, day_of_text, day_text, text_of_day, CLASSROOM_SITE, FIRST_DAY,
    LAST_DAY,
};
use crate::courses::with_number;
use crate::error::{outcome, Error, ErrorOf, ErrorView};
use crate::json::{json_of_bytes, parse_bytes, Json, JsonView};
use crate::login::token_in;
use crate::model::{Subject, SubjectView};
use crate::numeral::{decimal, i64_of, i64_text, numbers_are_written_apart, parse_i64};
use crate::request::{Pairs, RequestView, ZjuRequestBuilder, USER_AGENT};
use crate::sequences::{each, each_in_place, each_step, flat, flat_step};
use crate::text::{replace_char, replaced};
use crate::zju_assist::{agent_headers, token_headers, AssistView, ZjuAssist};

verus! {

// ---------------------------------------------------------------- requests with a token

/// A request that shows a token.
pub open spec fn get_with_token(
    assist: AssistView,
    url: Seq<char>,
    token: Seq<char>,
) -> RequestView {
    RequestView { headers: token_headers(token), ..assist.get(url) }
}

/// A request that needs an account and its token.
pub open spec fn asked_with(
    assist: AssistView,
    url: Seq<char>,
    token: Result<Seq<char>, ErrorView>,
) -> Result<RequestView, ErrorView> {
    if !assist.have_login {
        Err(ErrorOf::NotLogin)
    } else {
        match token {
            Ok(token) => Ok(get_with_token(assist, url, token)),
            Err(error) => Err(error),
        }
    }
}

impl ZjuAssist {
    /// A request that shows a token.
    pub fn get_showing(&self, url: &str, token: &str) -> (request: ZjuRequestBuilder)
        ensures
            request.deep_view() == get_with_token(self.deep_view(), url@, token@),
    {
        let mut bearer = "Bearer ".to_owned();
        bearer.append(token);
        let mut headers: Pairs = Vec::new();
        headers.push(("user-agent".to_owned(), USER_AGENT.to_owned()));
        headers.push(("authorization".to_owned(), bearer));
        assert(headers.deep_view() =~= token_headers(token@));
        let mut request = self.get(url);
        request.headers(headers);
        proof {
            let old_headers = agent_headers();
            let new_headers = token_headers(token@);
            assert(new_headers[0].0 == old_headers.last().0);
            assert(old_headers.drop_last() =~= Seq::empty());
            assert(crate::request::without_names(old_headers.drop_last(), new_headers)
                =~= Seq::empty());
            assert(crate::request::without_names(old_headers, new_headers) + new_headers
                =~= new_headers);
        }
        request
    }

    /// A request for a page that only an account with a token may see.
    pub fn ask_showing(&self, url: &str, token: Result<String, Error>) -> (request: Result<
        ZjuRequestBuilder,
        Error,
    >)
        ensures
            outcome(request) == asked_with(self.deep_view(), url@, outcome(token)),
    {
        if !self.have_login {
            return Err(ErrorOf::NotLogin);
        }
        match token {
            Ok(token) => Ok(self.get_showing(url, token.as_str())),
            Err(error) => Err(error),
        }
    }
}

// ---------------------------------------------------------------- a lecture

/// A time in the field `start_at`: a number, or a text that is one.
pub open spec fn start_of(lecture: JsonView) -> Option<i64> {
    match lecture.at("start_at"@).signed() {
        Some(n) => Some(n),
        None => match lecture.at("start_at"@).text() {
            Some(text) => i64_of(text),
            None => None,
        },
    }
}

/// A field that holds a text, or a number that is written out.
pub open spec fn text_or_number(json: JsonView, key: Seq<char>) -> Option<Seq<char>> {
    match json.at(key).text() {
        Some(text) => Some(text),
        None => match json.at(key).signed() {
            Some(n) => Some(decimal(n as int)),
            None => None,
        },
    }
}

/// The `i64` that the text in a field stands for.
pub open spec fn id_in(json: JsonView, key: Seq<char>) -> Option<i64> {
    match json.at(key).text() {
        Some(text) => i64_of(text),
        None => None,
    }
}

/// A lecture of a course, from the fields that name it.
pub open spec fn lecture_in(
    course_id: i64,
    course_name: Seq<char>,
    lecture: JsonView,
    id_key: Seq<char>,
    lecturer_key: Seq<char>,
) -> Option<SubjectView> {
    match (
        id_in(lecture, id_key),
        lecture.at("sub_title"@).text(),
        lecture.at(lecturer_key).text(),
    ) {
        (Some(sub_id), Some(sub_title), Some(lecturer_name)) => Some(
            SubjectView {
                course_id,
                course_name: replaced(course_name, '/', '_'),
                sub_id,
                sub_name: replaced(sub_title, '/', '_'),
                lecturer_name,
                path: Seq::empty(),
                ppt_image_urls: Seq::empty(),
                start_at: start_of(lecture),
                room: text_or_number(lecture, "room"@),
                tenant_code: text_or_number(lecture, "tenant_code"@),
                sub_public: text_or_number(lecture, "sub_public"@),
            },
        ),
        _ => None,
    }
}

/// A lecture of the timetable, where the course is named beside it.
pub open spec fn timetable_lecture(course: JsonView) -> Option<SubjectView> {
    match (id_in(course, "id"@), course.at("title"@).text()) {
        (Some(course_id), Some(title)) => lecture_in(
            course_id,
            title,
            course,
            "sub_id"@,
            "realname"@,
        ),
        _ => None,
    }
}

fn start_at(lecture: &Json) -> (start: Option<i64>)
    ensures
        start == start_of(lecture@),
{
    match lecture.i64_at("start_at") {
        Some(n) => Some(n),
        None => match lecture.text_at("start_at") {
            Some(text) => parse_i64(text),
            None => None,
        },
    }
}

fn text_field(json: &Json, key: &str) -> (text: Option<String>)
    ensures
        text.deep_view() == text_or_number(json@, key@),
{
    match json.text_at(key) {
        Some(text) => Some(text.to_owned()),
        None => match json.i64_at(key) {
            Some(n) => Some(i64_text(n)),
            None => None,
        },
    }
}

fn id_field(json: &Json, key: &str) -> (id: Option<i64>)
    ensures
        id == id_in(json@, key@),
{
    match json.text_at(key) {
        Some(text) => parse_i64(text),
        None => None,
    }
}

/// A lecture of a course.
pub fn lecture_of(
    course_id: i64,
    course_name: &str,
    lecture: &Json,
    id_key: &str,
    lecturer_key: &str,
) -> (subject: Option<Subject>)
    ensures
        subject.deep_view() == lecture_in(
            course_id,
            course_name@,
            lecture@,
            id_key@,
            lecturer_key@,
        ),
{
    let sub_id: i64 = match id_field(lecture, id_key) {
        Some(id) => id,
        None => {
            return None;
        },
    };
    let sub_title = match lecture.text_at("sub_title") {
        Some(text) => text,
        None => {
            return None;
        },
    };
    let lecturer_name = match lecture.text_at(lecturer_key) {
        Some(text) => text.to_owned(),
        None => {
            return None;
        },
    };
    let ppt_image_urls: Vec<String> = Vec::new();
    assert(ppt_image_urls.deep_view() =~= Seq::<Seq<char>>::empty());
    Some(
        Subject {
            course_id,
            course_name: replace_char(course_name, '/', '_'),
            sub_id,
            sub_name: replace_char(sub_title, '/', '_'),
            lecturer_name,
            path: String::new(),
            ppt_image_urls,
            start_at: start_at(lecture),
            room: text_field(lecture, "room"),
            tenant_code: text_field(lecture, "tenant_code"),
            sub_public: text_field(lecture, "sub_public"),
        },
    )
}

/// A lecture of the timetable.
pub fn timetable_subject(course: &Json) -> (subject: Option<Subject>)
    ensures
        subject.deep_view() == timetable_lecture(course@),
{
    let course_id: i64 = match id_field(course, "id") {
        Some(id) => id,
        None => {
            return None;
        },
    };
    match course.text_at("title") {
        Some(title) => lecture_of(course_id, title, course, "sub_id", "realname"),
        None => None,
    }
}

// ---------------------------------------------------------------- the timetable

/// What a list of lectures comes to.
pub open spec fn timetable_lectures(courses: Seq<JsonView>) -> Option<Seq<SubjectView>> {
    each(courses, |course: JsonView| timetable_lecture(course))
}

/// The lectures of one entry of the timetable.
pub open spec fn entry_lectures(entry: JsonView) -> Option<Seq<SubjectView>> {
    match entry.at("course"@).items() {
        Some(courses) => timetable_lectures(courses),
        None => None,
    }
}

/// The lectures of the entries of the timetable.
pub open spec fn entries_lectures(entries: Seq<JsonView>) -> Option<Seq<SubjectView>> {
    flat(entries, |entry: JsonView| entry_lectures(entry))
}

/// The values of an object's fields.
pub open spec fn values(fields: Seq<(Seq<char>, JsonView)>) -> Seq<JsonView> {
    fields.map_values(|field: (Seq<char>, JsonView)| field.1)
}

/// The lectures of a month: the reply lists its days.
pub open spec fn month_lectures(json: JsonView) -> Option<Seq<SubjectView>> {
    match json.at("list"@).items() {
        Some(days) => entries_lectures(days),
        None => None,
    }
}

/// The lectures of a day: the reply has an object of them, or there are none.
pub open spec fn day_lectures(json: JsonView) -> Option<Seq<SubjectView>> {
    match json.at("list"@).fields() {
        Some(fields) => entries_lectures(values(fields)),
        None => Some(Seq::empty()),
    }
}

fn timetable_subjects(courses: &Vec<Json>) -> (subjects: Option<Vec<Subject>>)
    ensures
        subjects.deep_view() == timetable_lectures(courses.deep_view()),
{
    let ghost all = courses.deep_view();
    let ghost f = |course: JsonView| timetable_lecture(course);
    let mut subjects: Vec<Subject> = Vec::new();
    assert(subjects.deep_view() =~= Seq::<SubjectView>::empty());
    for i in 0..courses.len()
        invariant
            all == courses.deep_view(),
            f == (|course: JsonView| timetable_lecture(course)),
            each(all.take(i as int), f) == Some(subjects.deep_view()),
    {
        proof {
            each_step(all, f, i as int);
        }
        assert(all[i as int] == courses@[i as int]@);
        match timetable_subject(&courses[i]) {
            Some(subject) => {
                let ghost before = subjects.deep_view();
                subjects.push(subject);
                assert(subjects.deep_view() =~= before.push(subject.deep_view()));
            },
            None => {
                return None;
            },
        }
    }
    assert(all.take(all.len() as int) =~= all);
    Some(subjects)
}

fn entry_subjects(entry: &Json) -> (subjects: Option<Vec<Subject>>)
    ensures
        subjects.deep_view() == entry_lectures(entry@),
{
    match entry.array_at("course") {
        Some(courses) => timetable_subjects(courses),
        None => None,
    }
}

/// The lectures of a month, in the reply that lists its days.
pub fn month_subjects(json: &Json) -> (subjects: Option<Vec<Subject>>)
    ensures
        subjects.deep_view() == month_lectures(json@),
{
    let days = match json.array_at("list") {
        Some(days) => days,
        None => {
            return None;
        },
    };
    let ghost all = days.deep_view();
    let ghost f = |entry: JsonView| entry_lectures(entry);
    let mut subjects: Vec<Subject> = Vec::new();
    assert(subjects.deep_view() =~= Seq::<SubjectView>::empty());
    for i in 0..days.len()
        invariant
            all == days.deep_view(),
            f == (|entry: JsonView| entry_lectures(entry)),
            month_lectures(json@) == flat(all, f),
            flat(all.take(i as int), f) == Some(subjects.deep_view()),
    {
        proof {
            flat_step(all, f, i as int);
        }
        assert(all[i as int] == days@[i as int]@);
        match entry_subjects(&days[i]) {
            Some(more) => {
                let mut more = more;
                let ghost before = subjects.deep_view();
                let ghost added = more.deep_view();
                subjects.append(&mut more);
                assert(subjects.deep_view() =~= before + added);
            },
            None => {
                return None;
            },
        }
    }
    assert(all.take(all.len() as int) =~= all);
    Some(subjects)
}

/// The lectures of a day, in the reply that holds them.
pub fn day_subjects(json: &Json) -> (subjects: Option<Vec<Subject>>)
    ensures
        subjects.deep_view() == day_lectures(json@),
{
    let mut subjects: Vec<Subject> = Vec::new();
    assert(subjects.deep_view() =~= Seq::<SubjectView>::empty());
    let fields = match json.object_at("list") {
        Some(fields) => fields,
        None => {
            return Some(subjects);
        },
    };
    let ghost all = values(fields.deep_view());
    let ghost f = |entry: JsonView| entry_lectures(entry);
    for i in 0..fields.len()
        invariant
            all == values(fields.deep_view()),
            f == (|entry: JsonView| entry_lectures(entry)),
            day_lectures(json@) == flat(all, f),
            flat(all.take(i as int), f) == Some(subjects.deep_view()),
    {
        proof {
            flat_step(all, f, i as int);
        }
        assert(fields.deep_view()[i as int].1 == fields@[i as int].1@);
        match entry_subjects(&fields[i].1) {
            Some(more) => {
                let mut more = more;
                let ghost before = subjects.deep_view();
                let ghost added = more.deep_view();
                subjects.append(&mut more);
                assert(subjects.deep_view() =~= before + added);
            },
            None => {
                return None;
            },
        }
    }
    assert(all.take(all.len() as int) =~= all);
    Some(subjects)
}

/// What a reply comes to that must have some form.
pub open spec fn formed<T>(
    reply: Result<JsonView, Seq<char>>,
    read: spec_fn(JsonView) -> Option<T>,
) -> Result<T, ErrorView> {
    match reply {
        Err(words) => Err(ErrorOf::NotJson(words)),
        Ok(json) => match read(json) {
            Some(value) => Ok(value),
            None => Err(ErrorOf::Malformed),
        },
    }
}

pub const MONTH_URL: &'static str =
    "https://classroom.zju.edu.cn/courseapi/v2/course-live/get-my-course-month?month=";

pub const DAY_URL: &'static str =
    "https://classroom.zju.edu.cn/courseapi/v2/course-live/get-my-course-day?day=";

impl ZjuAssist {
    /// Asks for the lectures of a month.
    pub fn get_month_subs(&self, month: &str) -> (request: Result<ZjuRequestBuilder, Error>)
        ensures
            !self.have_login ==> outcome(request) == Err::<RequestView, ErrorView>(
                ErrorOf::NotLogin,
            ),
            self.have_login ==> exists|cookies: Option<Seq<char>>|
                cookies_shown(*self.jar, CLASSROOM_SITE@, cookies) && outcome(request)
                    == asked_with(
                    self.deep_view(),
                    MONTH_URL@ + month@,
                    #[trigger] token_in(cookies),
                ),
    {
        let mut url = MONTH_URL.to_owned();
        url.append(month);
        let token = self.get_token();
        let ghost found = outcome(token);
        let request = self.ask_showing(url.as_str(), token);
        proof {
            if self.have_login {
                let cookies = choose|cookies: Option<Seq<char>>|
                    cookies_shown(*self.jar, CLASSROOM_SITE@, cookies) && found
                        == #[trigger] token_in(cookies);
                assert(outcome(request) == asked_with(
                    self.deep_view(),
                    MONTH_URL@ + month@,
                    token_in(cookies),
                ));
            }
        }
        request
    }

    /// The lectures of a month, in a reply.
    pub fn month_subs(body: &[u8]) -> (subjects: Result<Vec<Subject>, Error>)
        ensures
            outcome(subjects) == formed(
                json_of_bytes(body@),
                |json: JsonView| month_lectures(json),
            ),
    {
        match parse_bytes(body) {
            Err(words) => Err(ErrorOf::NotJson(words)),
            Ok(json) => match month_subjects(&json) {
                Some(subjects) => Ok(subjects),
                None => Err(ErrorOf::Malformed),
            },
        }
    }
}

// ---------------------------------------------------------------- a range of days

/// The lectures of a range of days, of which one is awaited.
pub struct RangeFlow {
    pub token: String,
    /// The day that is awaited.
    pub day: i32,
    /// The last day.
    pub last: i32,
    pub subjects: Vec<Subject>,
}

/// What the flow over a range of days says.
pub struct RangeView {
    pub token: Seq<char>,
    pub day: i32,
    pub last: i32,
    pub subjects: Seq<SubjectView>,
}

impl DeepView for RangeFlow {
    type V = RangeView;

    open spec fn deep_view(&self) -> RangeView {
        RangeView {
            token: self.token@,
            day: self.day,
            last: self.last,
            subjects: self.subjects.deep_view(),
        }
    }
}

impl RangeFlow {
    /// The day that is awaited and those up to the last one are days that can be written.
    pub open spec fn in_range(&self) -> bool {
        FIRST_DAY <= self.day <= self.last <= LAST_DAY
    }
}

/// What follows a day.
pub enum RangeStep {
    Done(Result<Vec<Subject>, Error>),
    Send { request: ZjuRequestBuilder, flow: RangeFlow },
}

/// What the step that follows a day says.
pub enum RangeStepView {
    Done(Result<Seq<SubjectView>, ErrorView>),
    Send { request: RequestView, flow: RangeView },
}

impl DeepView for RangeStep {
    type V = RangeStepView;

    open spec fn deep_view(&self) -> RangeStepView {
        match self {
            RangeStep::Done(result) => RangeStepView::Done(outcome(*result)),
            RangeStep::Send { request, flow } => RangeStepView::Send {
                request: request.deep_view(),
                flow: flow.deep_view(),
            },
        }
    }
}

/// The request for the day of a flow, or the end once the last day is over.
pub open spec fn range_go(assist: AssistView, flow: RangeView) -> RangeStepView {
    if flow.day > flow.last {
        RangeStepView::Done(Ok(flow.subjects))
    } else {
        match text_of_day(flow.day) {
            Some(day) => RangeStepView::Send {
                request: get_with_token(assist, DAY_URL@ + day, flow.token),
                flow,
            },
            None => RangeStepView::Done(Err(ErrorOf::NotADate)),
        }
    }
}

/// What follows a day: its lectures are added, and the next day is asked for.
pub open spec fn range_next(
    assist: AssistView,
    flow: RangeView,
    reply: Result<JsonView, Seq<char>>,
) -> RangeStepView {
    match formed(reply, |json: JsonView| day_lectures(json)) {
        Err(error) => RangeStepView::Done(Err(error)),
        Ok(lectures) => if flow.day == i32::MAX {
            RangeStepView::Done(Ok(flow.subjects + lectures))
        } else {
            range_go(
                assist,
                RangeView {
                    day: (flow.day + 1) as i32,
                    subjects: flow.subjects + lectures,
                    ..flow
                },
            )
        },
    }
}

/// The first step over a range of days.
pub open spec fn range_start(
    assist: AssistView,
    token: Result<Seq<char>, ErrorView>,
    start: Seq<char>,
    end: Seq<char>,
) -> RangeStepView {
    if !assist.have_login {
        RangeStepView::Done(Err(ErrorOf::NotLogin))
    } else {
        match token {
            Err(error) => RangeStepView::Done(Err(error)),
            Ok(token) => match (day_of_text(start), day_of_text(end)) {
                (Some(day), Some(last)) => range_go(
                    assist,
                    RangeView { token, day, last, subjects: Seq::empty() },
                ),
                _ => RangeStepView::Done(Err(ErrorOf::NotADate)),
            },
        }
    }
}

/// A step that is no failure; a day that it asks for is one that can be written.
pub open spec fn succeeds(step: RangeStep) -> bool {
    match step {
        RangeStep::Done(result) => result is Ok,
        RangeStep::Send { flow, .. } => flow.in_range(),
    }
}

impl ZjuAssist {
    fn go_on(&self, flow: RangeFlow) -> (step: RangeStep)
        ensures
            step.deep_view() == range_go(self.deep_view(), flow.deep_view()),
            FIRST_DAY <= flow.day && flow.last <= LAST_DAY ==> succeeds(step),
    {
        if flow.day > flow.last {
            return RangeStep::Done(Ok(flow.subjects));
        }
        match day_text(flow.day) {
            Some(day) => {
                let mut url = DAY_URL.to_owned();
                url.append(day.as_str());
                RangeStep::Send {
                    request: self.get_showing(url.as_str(), flow.token.as_str()),
                    flow,
                }
            },
            None => RangeStep::Done(Err(ErrorOf::NotADate)),
        }
    }

    /// Starts to list the lectures from one day to another, with a token.
    pub fn range_subs_with(
        &self,
        token: Result<String, Error>,
        start: &str,
        end: &str,
    ) -> (step: RangeStep)
        ensures
            step.deep_view() == range_start(self.deep_view(), outcome(token), start@, end@),
            self.have_login && token is Ok && day_of_text(start@) is Some && day_of_text(end@)
                is Some ==> succeeds(step),
            step is Send ==> succeeds(step),
    {
        if !self.have_login {
            return RangeStep::Done(Err(ErrorOf::NotLogin));
        }
        let token = match token {
            Ok(token) => token,
            Err(error) => {
                return RangeStep::Done(Err(error));
            },
        };
        let subjects: Vec<Subject> = Vec::new();
        assert(subjects.deep_view() =~= Seq::<SubjectView>::empty());
        match (day_number(start), day_number(end)) {
            (Some(day), Some(last)) => self.go_on(RangeFlow { token, day, last, subjects }),
            _ => RangeStep::Done(Err(ErrorOf::NotADate)),
        }
    }

    /// Starts to list the lectures from one day to another, both in the form `2021-05-01`.
    pub fn get_range_subs(&self, start: &str, end: &str) -> (step: RangeStep)
        ensures
            !self.have_login ==> step.deep_view() == RangeStepView::Done(Err(ErrorOf::NotLogin)),
            self.have_login ==> exists|cookies: Option<Seq<char>>|
                cookies_shown(*self.jar, CLASSROOM_SITE@, cookies) && step.deep_view()
                    == range_start(
                    self.deep_view(),
                    #[trigger] token_in(cookies),
                    start@,
                    end@,
                ),
            step is Send ==> succeeds(step),
    {
        let token = self.get_token();
        let ghost found = outcome(token);
        let step = self.range_subs_with(token, start, end);
        proof {
            if self.have_login {
                let cookies = choose|cookies: Option<Seq<char>>|
                    cookies_shown(*self.jar, CLASSROOM_SITE@, cookies) && found
                        == #[trigger] token_in(cookies);
                assert(step.deep_view() == range_start(
                    self.deep_view(),
                    token_in(cookies),
                    start@,
                    end@,
                ));
            }
        }
        step
    }

    /// Takes up a day of a range.
    pub fn range_json(&self, flow: RangeFlow, json: &Json) -> (step: RangeStep)
        ensures
            step.deep_view() == range_next(self.deep_view(), flow.deep_view(), Ok(json@)),
            flow.in_range() && day_lectures(json@) is Some ==> succeeds(step),
    {
        let ghost start = flow.deep_view();
        let RangeFlow { token, day, last, subjects } = flow;
        let mut subjects = subjects;
        match day_subjects(json) {
            Some(more) => {
                let mut more = more;
                let ghost added = more.deep_view();
                subjects.append(&mut more);
                assert(subjects.deep_view() =~= start.subjects + added);
            },
            None => {
                return RangeStep::Done(Err(ErrorOf::Malformed));
            },
        }
        if day == i32::MAX {
            return RangeStep::Done(Ok(subjects));
        }
        self.go_on(RangeFlow { token, day: day + 1, last, subjects })
    }

    /// Takes up the reply for a day of a range.
    pub fn range_reply(&self, flow: RangeFlow, body: &[u8]) -> (step: RangeStep)
        ensures
            step.deep_view() == range_next(
                self.deep_view(),
                flow.deep_view(),
                json_of_bytes(body@),
            ),
            flow.in_range() && formed(
                json_of_bytes(body@),
                |json: JsonView| day_lectures(json),
            ) is Ok ==> succeeds(step),
    {
        match parse_bytes(body) {
            Ok(json) => self.range_json(flow, &json),
            Err(words) => RangeStep::Done(Err(ErrorOf::NotJson(words))),
        }
    }
}

/// The step after a run of days.
pub open spec fn range_run(
    assist: AssistView,
    first: RangeView,
    days: Seq<JsonView>,
) -> RangeStepView
    decreases days.len(),
{
    if days.len() == 0 {
        range_go(assist, first)
    } else {
        match range_run(assist, first, days.drop_last()) {
            RangeStepView::Send { flow, .. } => range_next(assist, flow, Ok(days.last())),
            done => done,
        }
    }
}

/// The lectures of all days, in order.
pub open spec fn all_lectures(days: Seq<JsonView>) -> Option<Seq<SubjectView>> {
    flat(days, |json: JsonView| day_lectures(json))
}

/// Every day from the first to the last is asked for once, in order, and the lectures are
/// those of all these days, in order.
pub proof fn range_is_every_day(assist: AssistView, first: RangeView, days: Seq<JsonView>)
    requires
        first.subjects == Seq::<SubjectView>::empty(),
        first.day + days.len() <= first.last + 1,
        first.last < i32::MAX,
        forall|day: i32| first.day <= day <= first.last ==> (#[trigger] text_of_day(day)) is Some,
        all_lectures(days) is Some,
    ensures
        first.day + days.len() == first.last + 1 ==> range_run(assist, first, days)
            == RangeStepView::Done(Ok(all_lectures(days)->0)),
        first.day + days.len() <= first.last ==> range_run(assist, first, days)
            == (RangeStepView::Send {
            request: get_with_token(
                assist,
                DAY_URL@ + text_of_day((first.day + days.len()) as i32)->0,
                first.token,
            ),
            flow: RangeView {
                day: (first.day + days.len()) as i32,
                subjects: all_lectures(days)->0,
                ..first
            },
        }),
    decreases days.len(),
{
    if days.len() > 0 {
        range_is_every_day(assist, first, days.drop_last());
        let f = |json: JsonView| day_lectures(json);
        assert(f(days.last()) == day_lectures(days.last()));
        assert(text_of_day((first.day + days.len() - 1) as i32) is Some);
    }
    if first.day + days.len() <= first.last {
        assert(text_of_day((first.day + days.len()) as i32) is Some);
    }
}

// ---------------------------------------------------------------- the lectures of a course

/// The lectures of one week of a course.
pub open spec fn week_lectures(course_id: i64, title: Seq<char>, week: JsonView) -> Option<
    Seq<SubjectView>,
> {
    match week.items() {
        Some(lectures) => each(
            lectures,
            |lecture: JsonView|
                lecture_in(course_id, title, lecture, "id"@, "lecturer_name"@),
        ),
        None => None,
    }
}

/// What `read` makes of the values of an object, one after the other.
pub open spec fn over_values(
    json: JsonView,
    read: spec_fn(JsonView) -> Option<Seq<SubjectView>>,
) -> Option<Seq<SubjectView>> {
    match json.fields() {
        Some(fields) => flat(values(fields), read),
        None => None,
    }
}

/// The lectures of one month of a course, by weeks.
pub open spec fn weeks_lectures(course_id: i64, title: Seq<char>, month: JsonView) -> Option<
    Seq<SubjectView>,
> {
    over_values(month, |week: JsonView| week_lectures(course_id, title, week))
}

/// The lectures of one year of a course, by months.
pub open spec fn months_lectures(course_id: i64, title: Seq<char>, year: JsonView) -> Option<
    Seq<SubjectView>,
> {
    over_values(year, |month: JsonView| weeks_lectures(course_id, title, month))
}

/// The lectures of a course, by years.
pub open spec fn years_lectures(course_id: i64, title: Seq<char>, years: JsonView) -> Option<
    Seq<SubjectView>,
> {
    over_values(years, |year: JsonView| months_lectures(course_id, title, year))
}

/// The lectures of a course, by years, months and weeks.
pub open spec fn course_lectures(course_id: i64, json: JsonView) -> Option<Seq<SubjectView>> {
    match json.at("data"@).at("title"@).text() {
        Some(title) => years_lectures(course_id, title, json.at("data"@).at("sub_list"@)),
        None => None,
    }
}

fn week_subjects(course_id: i64, title: &str, week: &Json) -> (subjects: Option<Vec<Subject>>)
    ensures
        subjects.deep_view() == week_lectures(course_id, title@, week@),
{
    let lectures = match week.as_array() {
        Some(lectures) => lectures,
        None => {
            return None;
        },
    };
    let ghost all = lectures.deep_view();
    let ghost f = |lecture: JsonView|
        lecture_in(course_id, title@, lecture, "id"@, "lecturer_name"@);
    let mut subjects: Vec<Subject> = Vec::new();
    assert(subjects.deep_view() =~= Seq::<SubjectView>::empty());
    for i in 0..lectures.len()
        invariant
            all == lectures.deep_view(),
            f == (|lecture: JsonView|
                lecture_in(course_id, title@, lecture, "id"@, "lecturer_name"@)),
            week_lectures(course_id, title@, week@) == each(all, f),
            each(all.take(i as int), f) == Some(subjects.deep_view()),
    {
        proof {
            each_step(all, f, i as int);
        }
        assert(all[i as int] == lectures@[i as int]@);
        match lecture_of(course_id, title, &lectures[i], "id", "lecturer_name") {
            Some(subject) => {
                let ghost before = subjects.deep_view();
                subjects.push(subject);
                assert(subjects.deep_view() =~= before.push(subject.deep_view()));
            },
            None => {
                return None;
            },
        }
    }
    assert(all.take(all.len() as int) =~= all);
    Some(subjects)
}

fn weeks_subjects(course_id: i64, title: &str, month: &Json) -> (subjects: Option<Vec<Subject>>)
    ensures
        subjects.deep_view() == weeks_lectures(course_id, title@, month@),
{
    let fields = match month.as_object() {
        Some(fields) => fields,
        None => {
            return None;
        },
    };
    let ghost all = values(fields.deep_view());
    let ghost f = |week: JsonView| week_lectures(course_id, title@, week);
    let mut subjects: Vec<Subject> = Vec::new();
    assert(subjects.deep_view() =~= Seq::<SubjectView>::empty());
    for i in 0..fields.len()
        invariant
            all == values(fields.deep_view()),
            f == (|week: JsonView| week_lectures(course_id, title@, week)),
            weeks_lectures(course_id, title@, month@) == flat(all, f),
            flat(all.take(i as int), f) == Some(subjects.deep_view()),
    {
        proof {
            flat_step(all, f, i as int);
        }
        assert(fields.deep_view()[i as int].1 == fields@[i as int].1@);
        match week_subjects(course_id, title, &fields[i].1) {
            Some(more) => {
                let mut more = more;
                let ghost before = subjects.deep_view();
                let ghost added = more.deep_view();
                subjects.append(&mut more);
                assert(subjects.deep_view() =~= before + added);
            },
            None => {
                return None;
            },
        }
    }
    assert(all.take(all.len() as int) =~= all);
    Some(subjects)
}

fn months_subjects(course_id: i64, title: &str, year: &Json) -> (subjects: Option<Vec<Subject>>)
    ensures
        subjects.deep_view() == months_lectures(course_id, title@, year@),
{
    let fields = match year.as_object() {
        Some(fields) => fields,
        None => {
            return None;
        },
    };
    let ghost all = values(fields.deep_view());
    let ghost f = |month: JsonView| weeks_lectures(course_id, title@, month);
    let mut subjects: Vec<Subject> = Vec::new();
    assert(subjects.deep_view() =~= Seq::<SubjectView>::empty());
    for i in 0..fields.len()
        invariant
            all == values(fields.deep_view()),
            f == (|month: JsonView| weeks_lectures(course_id, title@, month)),
            months_lectures(course_id, title@, year@) == flat(all, f),
            flat(all.take(i as int), f) == Some(subjects.deep_view()),
    {
        proof {
            flat_step(all, f, i as int);
        }
        assert(fields.deep_view()[i as int].1 == fields@[i as int].1@);
        match weeks_subjects(course_id, title, &fields[i].1) {
            Some(more) => {
                let mut more = more;
                let ghost before = subjects.deep_view();
                let ghost added = more.deep_view();
                subjects.append(&mut more);
                assert(subjects.deep_view() =~= before + added);
            },
            None => {
                return None;
            },
        }
    }
    assert(all.take(all.len() as int) =~= all);
    Some(subjects)
}

fn years_subjects(course_id: i64, title: &str, years: &Json) -> (subjects: Option<Vec<Subject>>)
    ensures
        subjects.deep_view() == years_lectures(course_id, title@, years@),
{
    let fields = match years.as_object() {
        Some(fields) => fields,
        None => {
            return None;
        },
    };
    let ghost all = values(fields.deep_view());
    let ghost f = |year: JsonView| months_lectures(course_id, title@, year);
    let mut subjects: Vec<Subject> = Vec::new();
    assert(subjects.deep_view() =~= Seq::<SubjectView>::empty());
    for i in 0..fields.len()
        invariant
            all == values(fields.deep_view()),
            f == (|year: JsonView| months_lectures(course_id, title@, year)),
            years_lectures(course_id, title@, years@) == flat(all, f),
            flat(all.take(i as int), f) == Some(subjects.deep_view()),
    {
        proof {
            flat_step(all, f, i as int);
        }
        assert(fields.deep_view()[i as int].1 == fields@[i as int].1@);
        match months_subjects(course_id, title, &fields[i].1) {
            Some(more) => {
                let mut more = more;
                let ghost before = subjects.deep_view();
                let ghost added = more.deep_view();
                subjects.append(&mut more);
                assert(subjects.deep_view() =~= before + added);
            },
            None => {
                return None;
            },
        }
    }
    assert(all.take(all.len() as int) =~= all);
    Some(subjects)
}

/// The lectures of a course, in the reply that describes it.
pub fn course_subjects(course_id: i64, json: &Json) -> (subjects: Option<Vec<Subject>>)
    ensures
        subjects.deep_view() == course_lectures(course_id, json@),
{
    let data = match json.get("data") {
        Some(data) => data,
        None => {
            return None;
        },
    };
    let title = match data.text_at("title") {
        Some(title) => title,
        None => {
            return None;
        },
    };
    match data.get("sub_list") {
        Some(years) => years_subjects(course_id, title, years),
        None => None,
    }
}

pub const ACCOUNT_URL: &'static str = "https://classroom.zju.edu.cn/userapi/v1/infosimple";

pub const COURSE_URL_HEAD: &'static str =
    "https://yjapi.cmc.zju.edu.cn/courseapi/v3/multi-search/get-course-detail?course_id=";

/// Where a course is described.
pub open spec fn course_url(course_id: i64, account: Seq<char>) -> Seq<char> {
    COURSE_URL_HEAD@ + decimal(course_id as int) + "&student="@ + account
}

/// A course that is asked for, and the token that is shown for it.
pub struct CourseQuery {
    pub token: String,
    pub course_id: i64,
}

/// What the question for a course says.
pub struct CourseQueryView {
    pub token: Seq<char>,
    pub course_id: i64,
}

impl DeepView for CourseQuery {
    type V = CourseQueryView;

    open spec fn deep_view(&self) -> CourseQueryView {
        CourseQueryView { token: self.token@, course_id: self.course_id }
    }
}

/// The request that asks for a course, once the account's name is known.
pub open spec fn course_asked(
    assist: AssistView,
    query: CourseQueryView,
    reply: Result<JsonView, Seq<char>>,
) -> Result<RequestView, ErrorView> {
    match reply {
        Err(words) => Err(ErrorOf::NotJson(words)),
        Ok(json) => match json.at("params"@).at("account"@).text() {
            Some(account) => Ok(
                get_with_token(assist, course_url(query.course_id, account), query.token),
            ),
            None => Err(ErrorOf::Malformed),
        },
    }
}

/// A request for the account's data, and the token it shows.
pub open spec fn account_asked(assist: AssistView, token: Result<Seq<char>, ErrorView>) -> Result<
    (RequestView, Seq<char>),
    ErrorView,
> {
    match asked_with(assist, ACCOUNT_URL@, token) {
        Ok(request) => Ok((request, token->Ok_0)),
        Err(error) => Err(error),
    }
}

/// The first request for the lectures of a course.
pub open spec fn course_started(
    assist: AssistView,
    course_id: i64,
    token: Result<Seq<char>, ErrorView>,
) -> Result<(RequestView, CourseQueryView), ErrorView> {
    match account_asked(assist, token) {
        Ok((request, token)) => Ok((request, CourseQueryView { token, course_id })),
        Err(error) => Err(error),
    }
}

impl ZjuAssist {
    /// Asks for the account's data with a token, which later requests show too.
    pub fn ask_account_with(&self, token: Result<String, Error>) -> (start: Result<
        (ZjuRequestBuilder, String),
        Error,
    >)
        ensures
            outcome(start) == account_asked(self.deep_view(), outcome(token)),
    {
        if !self.have_login {
            return Err(ErrorOf::NotLogin);
        }
        match token {
            Ok(token) => Ok((self.get_showing(ACCOUNT_URL, token.as_str()), token)),
            Err(error) => Err(error),
        }
    }

    /// Starts to list the lectures of a course: asks for the account's data.
    pub fn get_course_subs(&self, course_id: i64) -> (start: Result<
        (ZjuRequestBuilder, CourseQuery),
        Error,
    >)
        ensures
            !self.have_login ==> outcome(start) == Err::<
                (RequestView, CourseQueryView),
                ErrorView,
            >(ErrorOf::NotLogin),
            self.have_login ==> exists|cookies: Option<Seq<char>>|
                cookies_shown(*self.jar, CLASSROOM_SITE@, cookies) && outcome(start)
                    == course_started(
                    self.deep_view(),
                    course_id,
                    #[trigger] token_in(cookies),
                ),
    {
        let token = self.get_token();
        let ghost found = outcome(token);
        let start = self.course_subs_with(course_id, token);
        proof {
            if self.have_login {
                let cookies = choose|cookies: Option<Seq<char>>|
                    cookies_shown(*self.jar, CLASSROOM_SITE@, cookies) && found
                        == #[trigger] token_in(cookies);
                assert(outcome(start) == course_started(
                    self.deep_view(),
                    course_id,
                    token_in(cookies),
                ));
            }
        }
        start
    }

    /// Starts to list the lectures of a course with a token, if there is one.
    pub fn course_subs_with(&self, course_id: i64, token: Result<String, Error>) -> (start: Result<
        (ZjuRequestBuilder, CourseQuery),
        Error,
    >)
        ensures
            outcome(start) == course_started(self.deep_view(), course_id, outcome(token)),
    {
        match self.ask_account_with(token) {
            Ok((request, token)) => Ok((request, CourseQuery { token, course_id })),
            Err(error) => Err(error),
        }
    }

    /// Asks for a course, once the account's data are there.
    pub fn ask_course(&self, query: &CourseQuery, account: &Json) -> (request: Result<
        ZjuRequestBuilder,
        Error,
    >)
        ensures
            outcome(request) == course_asked(self.deep_view(), query.deep_view(), Ok(account@)),
    {
        let params = match account.get("params") {
            Some(params) => params,
            None => {
                return Err(ErrorOf::Malformed);
            },
        };
        match params.text_at("account") {
            Some(name) => {
                let mut url = with_number(COURSE_URL_HEAD, query.course_id, "&student=");
                url.append(name);
                Ok(self.get_showing(url.as_str(), query.token.as_str()))
            },
            None => Err(ErrorOf::Malformed),
        }
    }

    /// Asks for a course, once the reply with the account's data is there.
    pub fn course_subs_account(&self, query: &CourseQuery, body: &[u8]) -> (request: Result<
        ZjuRequestBuilder,
        Error,
    >)
        ensures
            outcome(request) == course_asked(
                self.deep_view(),
                query.deep_view(),
                json_of_bytes(body@),
            ),
    {
        match parse_bytes(body) {
            Ok(json) => self.ask_course(query, &json),
            Err(words) => Err(ErrorOf::NotJson(words)),
        }
    }

    /// The lectures of a course, in a reply.
    pub fn course_subs(course_id: i64, body: &[u8]) -> (subjects: Result<Vec<Subject>, Error>)
        ensures
            outcome(subjects) == formed(
                json_of_bytes(body@),
                |json: JsonView| course_lectures(course_id, json),
            ),
    {
        match parse_bytes(body) {
            Err(words) => Err(ErrorOf::NotJson(words)),
            Ok(json) => match course_subjects(course_id, &json) {
                Some(subjects) => Ok(subjects),
                None => Err(ErrorOf::Malformed),
            },
        }
    }
}

// ---------------------------------------------------------------- what lectures say

/// The second text is the first with an underscore for each slash.
pub open spec fn without_slashes(text: Seq<char>, name: Seq<char>) -> bool {
    &&& name.len() == text.len()
    &&& forall|i: int|
        0 <= i < text.len() ==> #[trigger] name[i] == if text[i] == '/' {
            '_'
        } else {
            text[i]
        }
}

/// A value is what a field says that holds a text or a number.
pub open spec fn is_said(field: JsonView, value: Option<Seq<char>>) -> bool {
    match (field.text(), field.signed()) {
        (Some(text), _) => value == Some(text),
        (None, Some(n)) => value == Some(decimal(n as int)),
        (None, None) => value is None,
    }
}

/// A lecture is the one that an item describes, with its number and its lecturer in two fields of
/// the item.
pub open spec fn is_described(
    item: JsonView,
    id_key: Seq<char>,
    lecturer_key: Seq<char>,
    lecture: SubjectView,
) -> bool {
    &&& item.at(id_key).text() matches Some(id) && i64_of(id) == Some(lecture.sub_id)
    &&& item.at("sub_title"@).text() matches Some(title) && without_slashes(title, lecture.sub_name)
    &&& item.at(lecturer_key).text() == Some(lecture.lecturer_name)
    &&& lecture.path.len() == 0 && lecture.ppt_image_urls.len() == 0
    &&& match (item.at("start_at"@).signed(), item.at("start_at"@).text()) {
        (Some(n), _) => lecture.start_at == Some(n),
        (None, Some(text)) => lecture.start_at == i64_of(text),
        (None, None) => lecture.start_at is None,
    }
    &&& is_said(item.at("room"@), lecture.room)
    &&& is_said(item.at("tenant_code"@), lecture.tenant_code)
    &&& is_said(item.at("sub_public"@), lecture.sub_public)
}

/// An item has the fields that a lecture needs.
pub open spec fn is_readable(item: JsonView, id_key: Seq<char>, lecturer_key: Seq<char>) -> bool {
    &&& item.at(id_key).text() matches Some(id) && i64_of(id) is Some
    &&& item.at("sub_title"@).text() is Some
    &&& item.at(lecturer_key).text() is Some
}

proof fn a_lecture_is_described(
    course_id: i64,
    title: Seq<char>,
    item: JsonView,
    id_key: Seq<char>,
    lecturer_key: Seq<char>,
)
    ensures
        match lecture_in(course_id, title, item, id_key, lecturer_key) {
            Some(lecture) => {
                &&& lecture.course_id == course_id
                &&& without_slashes(title, lecture.course_name)
                &&& is_described(item, id_key, lecturer_key, lecture)
                &&& is_readable(item, id_key, lecturer_key)
            },
            None => !is_readable(item, id_key, lecturer_key),
        },
{
}

/// The lectures are those of a course that the items describe: one for each, in their order.
pub open spec fn are_of_course(
    course_id: i64,
    title: Seq<char>,
    items: Seq<JsonView>,
    lectures: Seq<SubjectView>,
) -> bool {
    &&& lectures.len() == items.len()
    &&& forall|k: int|
        0 <= k < items.len() ==> {
            &&& (#[trigger] lectures[k]).course_id == course_id
            &&& without_slashes(title, lectures[k].course_name)
            &&& is_described(items[k], "id"@, "lecturer_name"@, lectures[k])
        }
}

/// A document has lists below as many levels of objects.
pub open spec fn is_built(json: JsonView, levels: nat) -> bool
    decreases levels,
{
    if levels == 0 {
        json.items() is Some
    } else {
        json.fields() matches Some(fields) && forall|i: int|
            0 <= i < fields.len() ==> is_built((#[trigger] fields[i]).1, (levels - 1) as nat)
    }
}

/// The items of all lists below as many levels of objects, in the order in which they stand.
pub open spec fn items_below(json: JsonView, levels: nat) -> Seq<JsonView>
    decreases levels, 0nat,
{
    if levels == 0 {
        json.items()->0
    } else {
        items_of_fields(json.fields()->0, (levels - 1) as nat)
    }
}

/// The items below the fields of an object, field by field.
pub open spec fn items_of_fields(
    fields: Seq<(Seq<char>, JsonView)>,
    levels: nat,
) -> Seq<JsonView>
    decreases levels, fields.len(),
{
    if fields.len() == 0 {
        Seq::empty()
    } else {
        items_of_fields(fields.drop_last(), levels) + items_below(fields.last().1, levels)
    }
}

/// All items have the fields that a lecture of a course needs.
pub open spec fn all_readable(items: Seq<JsonView>) -> bool {
    forall|k: int|
        0 <= k < items.len() ==> is_readable(#[trigger] items[k], "id"@, "lecturer_name"@)
}

/// What is found below a document is what its items describe.
spec fn follows(
    course_id: i64,
    title: Seq<char>,
    json: JsonView,
    levels: nat,
    found: Option<Seq<SubjectView>>,
) -> bool {
    match found {
        Some(lectures) => {
            &&& is_built(json, levels)
            &&& all_readable(items_below(json, levels))
            &&& are_of_course(course_id, title, items_below(json, levels), lectures)
        },
        None => !(is_built(json, levels) && all_readable(items_below(json, levels))),
    }
}

proof fn readable_together(one: Seq<JsonView>, other: Seq<JsonView>)
    ensures
        all_readable(one + other) <==> all_readable(one) && all_readable(other),
{
    let all = one + other;
    if all_readable(all) {
        assert forall|k: int| 0 <= k < one.len() implies is_readable(
            #[trigger] one[k],
            "id"@,
            "lecturer_name"@,
        ) by {
            assert(all[k] == one[k]);
        }
        assert forall|k: int| 0 <= k < other.len() implies is_readable(
            #[trigger] other[k],
            "id"@,
            "lecturer_name"@,
        ) by {
            assert(all[one.len() + k] == other[k]);
        }
    }
}

proof fn fields_follow(
    course_id: i64,
    title: Seq<char>,
    fields: Seq<(Seq<char>, JsonView)>,
    levels: nat,
    read: spec_fn(JsonView) -> Option<Seq<SubjectView>>,
)
    requires
        forall|i: int|
            0 <= i < fields.len() ==> follows(
                course_id,
                title,
                (#[trigger] fields[i]).1,
                levels,
                read(fields[i].1),
            ),
    ensures
        match flat(values(fields), read) {
            Some(lectures) => {
                &&& forall|i: int|
                    0 <= i < fields.len() ==> is_built((#[trigger] fields[i]).1, levels)
                &&& all_readable(items_of_fields(fields, levels))
                &&& are_of_course(course_id, title, items_of_fields(fields, levels), lectures)
            },
            None => !((forall|i: int|
                0 <= i < fields.len() ==> is_built((#[trigger] fields[i]).1, levels))
                && all_readable(items_of_fields(fields, levels))),
        },
    decreases fields.len(),
{
    if fields.len() > 0 {
        let head = fields.drop_last();
        let last = fields.last().1;
        assert forall|i: int| 0 <= i < head.len() implies follows(
            course_id,
            title,
            (#[trigger] head[i]).1,
            levels,
            read(head[i].1),
        ) by {
            assert(head[i] == fields[i]);
        }
        fields_follow(course_id, title, head, levels, read);
        assert(values(fields).drop_last() =~= values(head));
        assert(values(fields).last() == last);
        assert(follows(course_id, title, fields[fields.len() - 1].1, levels, read(last)));
        readable_together(items_of_fields(head, levels), items_below(last, levels));
        assert(forall|i: int| 0 <= i < head.len() ==> head[i] == #[trigger] fields[i]);
        if (forall|i: int| 0 <= i < fields.len() ==> is_built((#[trigger] fields[i]).1, levels)) {
            assert(forall|i: int|
                0 <= i < head.len() ==> is_built((#[trigger] head[i]).1, levels)) by {
                assert forall|i: int| 0 <= i < head.len() implies is_built(
                    (#[trigger] head[i]).1,
                    levels,
                ) by {
                    assert(is_built(fields[i].1, levels));
                }
            }
            assert(is_built(fields[fields.len() - 1].1, levels));
        }
        if flat(values(fields), read) is Some {
            assert forall|i: int| 0 <= i < fields.len() implies is_built(
                (#[trigger] fields[i]).1,
                levels,
            ) by {
                if i < head.len() {
                    assert(is_built(head[i].1, levels));
                }
            }
        }
    }
}

proof fn a_week_follows(course_id: i64, title: Seq<char>, week: JsonView)
    ensures
        follows(course_id, title, week, 0, week_lectures(course_id, title, week)),
{
    if let Some(items) = week.items() {
        let read = |lecture: JsonView|
            lecture_in(course_id, title, lecture, "id"@, "lecturer_name"@);
        each_in_place(items, read);
        assert(week_lectures(course_id, title, week) == each(items, read));
        assert(is_built(week, 0));
        assert(items_below(week, 0) == items);
        if let Some(lectures) = each(items, read) {
            assert forall|k: int| 0 <= k < items.len() implies {
                &&& (#[trigger] lectures[k]).course_id == course_id
                &&& without_slashes(title, lectures[k].course_name)
                &&& is_described(items[k], "id"@, "lecturer_name"@, lectures[k])
                &&& is_readable(items[k], "id"@, "lecturer_name"@)
            } by {
                assert(read(items[k]) == Some(lectures[k]));
                a_lecture_is_described(course_id, title, items[k], "id"@, "lecturer_name"@);
            }
            assert forall|k: int| 0 <= k < items.len() implies is_readable(
                #[trigger] items[k],
                "id"@,
                "lecturer_name"@,
            ) by {
                assert(lectures[k].course_id == course_id);
            }
        } else {
            let k = choose|k: int| 0 <= k < items.len() && read(#[trigger] items[k]) is None;
            a_lecture_is_described(course_id, title, items[k], "id"@, "lecturer_name"@);
            assert(!is_readable(items[k], "id"@, "lecturer_name"@));
        }
    }
}

/// The lectures of a course are those that the items of all weeks of the reply describe: one for
/// each item, in the order in which they stand, all under the number that was asked for. There is
/// no list exactly where the reply has no title, is not built of years, months and weeks, or an
/// item lacks a field.
pub proof fn lectures_are_of_the_course_asked_for(course_id: i64, json: JsonView)
    ensures
        ({
            let title = json.at("data"@).at("title"@).text();
            let weeks = json.at("data"@).at("sub_list"@);
            match course_lectures(course_id, json) {
                Some(lectures) => {
                    &&& title is Some
                    &&& are_of_course(course_id, title->0, items_below(weeks, 3), lectures)
                },
                None => title is None || !is_built(weeks, 3) || !all_readable(
                    items_below(weeks, 3),
                ),
            }
        }),
{
    let title = json.at("data"@).at("title"@).text()->0;
    let weeks = |week: JsonView| week_lectures(course_id, title, week);
    let months = |month: JsonView| weeks_lectures(course_id, title, month);
    let years = |year: JsonView| months_lectures(course_id, title, year);
    assert forall|week: JsonView| #[trigger]
        follows(course_id, title, week, 0, weeks(week)) by {
        a_week_follows(course_id, title, week);
    }
    assert forall|month: JsonView| #[trigger]
        follows(course_id, title, month, 1, months(month)) by {
        if let Some(fields) = month.fields() {
            assert(forall|i: int|
                0 <= i < fields.len() ==> follows(
                    course_id,
                    title,
                    (#[trigger] fields[i]).1,
                    0,
                    weeks(fields[i].1),
                ));
            fields_follow(course_id, title, fields, 0, weeks);
        }
    }
    assert forall|year: JsonView| #[trigger] follows(course_id, title, year, 2, years(year)) by {
        if let Some(fields) = year.fields() {
            assert(forall|i: int|
                0 <= i < fields.len() ==> follows(
                    course_id,
                    title,
                    (#[trigger] fields[i]).1,
                    1,
                    months(fields[i].1),
                ));
            fields_follow(course_id, title, fields, 1, months);
        }
    }
    let list = json.at("data"@).at("sub_list"@);
    if let Some(fields) = list.fields() {
        assert(forall|i: int|
            0 <= i < fields.len() ==> follows(
                course_id,
                title,
                (#[trigger] fields[i]).1,
                2,
                years(fields[i].1),
            ));
        fields_follow(course_id, title, fields, 2, years);
    }
}

/// The courses of all entries of a timetable, in the order in which they stand.
pub open spec fn courses_listed(entries: Seq<JsonView>) -> Seq<JsonView>
    decreases entries.len(),
{
    if entries.len() == 0 {
        Seq::empty()
    } else {
        courses_listed(entries.drop_last()) + entries.last().at("course"@).items()->0
    }
}

/// The lectures are those that the courses of a timetable describe: one for each, in their order.
pub open spec fn are_of_timetable(courses: Seq<JsonView>, lectures: Seq<SubjectView>) -> bool {
    &&& lectures.len() == courses.len()
    &&& forall|k: int|
        0 <= k < courses.len() ==> {
            &&& courses[k].at("id"@).text() matches Some(id) && i64_of(id) == Some(
                (#[trigger] lectures[k]).course_id,
            )
            &&& courses[k].at("title"@).text() matches Some(title) && without_slashes(
                title,
                lectures[k].course_name,
            )
            &&& is_described(courses[k], "sub_id"@, "realname"@, lectures[k])
        }
}

/// A course of a timetable has the fields that its lecture needs.
pub open spec fn is_listed_well(course: JsonView) -> bool {
    &&& course.at("id"@).text() matches Some(id) && i64_of(id) is Some
    &&& course.at("title"@).text() is Some
    &&& is_readable(course, "sub_id"@, "realname"@)
}

/// Every entry of a timetable lists courses, and every course has what its lecture needs.
pub open spec fn is_timetable(entries: Seq<JsonView>) -> bool {
    &&& forall|i: int|
        0 <= i < entries.len() ==> (#[trigger] entries[i]).at("course"@).items() is Some
    &&& forall|k: int|
        0 <= k < courses_listed(entries).len() ==> is_listed_well(
            #[trigger] courses_listed(entries)[k],
        )
}

proof fn an_entry_is_read(entry: JsonView)
    ensures
        match entry_lectures(entry) {
            Some(lectures) => {
                &&& entry.at("course"@).items() matches Some(courses) && are_of_timetable(
                    courses,
                    lectures,
                ) && forall|k: int|
                    0 <= k < courses.len() ==> is_listed_well(#[trigger] courses[k])
            },
            None => entry.at("course"@).items() matches Some(courses) ==> exists|k: int|
                0 <= k < courses.len() && !is_listed_well(#[trigger] courses[k]),
        },
{
    if let Some(courses) = entry.at("course"@).items() {
        let read = |course: JsonView| timetable_lecture(course);
        each_in_place(courses, read);
        assert(entry_lectures(entry) == each(courses, read));
        if let Some(lectures) = each(courses, read) {
            assert forall|k: int| 0 <= k < courses.len() implies {
                &&& courses[k].at("id"@).text() matches Some(id) && i64_of(id) == Some(
                    (#[trigger] lectures[k]).course_id,
                )
                &&& courses[k].at("title"@).text() matches Some(title) && without_slashes(
                    title,
                    lectures[k].course_name,
                )
                &&& is_described(courses[k], "sub_id"@, "realname"@, lectures[k])
                &&& is_listed_well(courses[k])
            } by {
                assert(read(courses[k]) == Some(lectures[k]));
                a_lecture_is_described(
                    lectures[k].course_id,
                    courses[k].at("title"@).text()->0,
                    courses[k],
                    "sub_id"@,
                    "realname"@,
                );
            }
            assert forall|k: int| 0 <= k < courses.len() implies is_listed_well(
                #[trigger] courses[k],
            ) by {
                assert(lectures[k].path.len() == 0);
            }
        } else {
            let k = choose|k: int| 0 <= k < courses.len() && read(#[trigger] courses[k]) is None;
            if is_listed_well(courses[k]) {
                a_lecture_is_described(
                    i64_of(courses[k].at("id"@).text()->0)->0,
                    courses[k].at("title"@).text()->0,
                    courses[k],
                    "sub_id"@,
                    "realname"@,
                );
            }
            assert(!is_listed_well(courses[k]));
        }
    }
}

proof fn entries_are_read(entries: Seq<JsonView>)
    ensures
        match entries_lectures(entries) {
            Some(lectures) => is_timetable(entries) && are_of_timetable(
                courses_listed(entries),
                lectures,
            ),
            None => !is_timetable(entries),
        },
    decreases entries.len(),
{
    let read = |entry: JsonView| entry_lectures(entry);
    assert(entries_lectures(entries) == flat(entries, read));
    if entries.len() > 0 {
        let head = entries.drop_last();
        let last = entries.last();
        entries_are_read(head);
        an_entry_is_read(last);
        assert(entries_lectures(head) == flat(head, read));
        assert(read(last) == entry_lectures(last));
        let before = courses_listed(head);
        let all = courses_listed(entries);
        let more = last.at("course"@).items()->0;
        assert(all == before + more);
        assert(forall|i: int| 0 <= i < head.len() ==> head[i] == #[trigger] entries[i]);
        assert(forall|k: int| 0 <= k < before.len() ==> before[k] == #[trigger] all[k]);
        if entries_lectures(entries) is Some {
            assert forall|i: int| 0 <= i < entries.len() implies (#[trigger] entries[i]).at(
                "course"@,
            ).items() is Some by {
                if i < head.len() {
                    assert(head[i].at("course"@).items() is Some);
                }
            }
            assert forall|k: int| 0 <= k < all.len() implies is_listed_well(
                #[trigger] all[k],
            ) by {
                if k < before.len() {
                    assert(is_listed_well(before[k]));
                } else {
                    assert(is_listed_well(more[k - before.len()]));
                }
            }
        } else if is_timetable(entries) {
            assert(entries[entries.len() - 1].at("course"@).items() is Some);
            if entries_lectures(head) is None {
                assert forall|i: int| 0 <= i < head.len() implies (#[trigger] head[i]).at(
                    "course"@,
                ).items() is Some by {
                    assert(entries[i].at("course"@).items() is Some);
                }
                assert forall|k: int| 0 <= k < before.len() implies is_listed_well(
                    #[trigger] before[k],
                ) by {
                    assert(is_listed_well(all[k]));
                }
            } else {
                let k = choose|k: int| 0 <= k < more.len() && !is_listed_well(#[trigger] more[k]);
                assert(all[before.len() + k] == more[k]);
            }
        }
    }
}

/// The lectures of a month are those that the courses of its days describe: one for each course,
/// in the order in which they stand, under its own number and title. There is no list exactly
/// where the reply lists no days, a day lists no courses, or a course lacks a field.
pub proof fn a_month_lists_its_courses(json: JsonView)
    ensures
        match (json.at("list"@).items(), month_lectures(json)) {
            (Some(days), Some(lectures)) => are_of_timetable(courses_listed(days), lectures),
            (Some(days), None) => !is_timetable(days),
            (None, lectures) => lectures is None,
        },
{
    if let Some(days) = json.at("list"@).items() {
        entries_are_read(days);
    }
}

/// The lectures of a day are those that the courses in the fields of its reply describe: one for
/// each course, in the order in which they stand. A reply without fields is a day without
/// lectures.
pub proof fn a_day_lists_its_courses(json: JsonView, entries: Seq<JsonView>)
    requires
        json.at("list"@).fields() matches Some(fields) ==> {
            &&& entries.len() == fields.len()
            &&& forall|i: int| 0 <= i < fields.len() ==> (#[trigger] fields[i]).1 == entries[i]
        },
    ensures
        match (json.at("list"@).fields(), day_lectures(json)) {
            (Some(_), Some(lectures)) => are_of_timetable(courses_listed(entries), lectures),
            (Some(_), None) => !is_timetable(entries),
            (None, lectures) => lectures matches Some(none) && none.len() == 0,
        },
{
    if let Some(fields) = json.at("list"@).fields() {
        assert(values(fields) =~= entries) by {
            assert(forall|i: int| 0 <= i < fields.len() ==> (#[trigger] fields[i]).1 == entries[i]);
        }
        entries_are_read(entries);
    }
}

/// The second list goes on where the first ends, with the lectures of the courses.
pub open spec fn goes_on(
    before: Seq<SubjectView>,
    courses: Seq<JsonView>,
    after: Seq<SubjectView>,
) -> bool {
    &&& after.len() == before.len() + courses.len()
    &&& forall|i: int| 0 <= i < before.len() ==> #[trigger] after[i] == before[i]
    &&& are_of_timetable(courses, after.skip(before.len() as int))
}

/// Over a range, the day after the one that was read is asked for next, up to the last one. The
/// lectures of a day go behind those of the days before. A range that starts after its end asks
/// for nothing.
pub proof fn a_range_goes_day_by_day(
    assist: AssistView,
    flow: RangeView,
    json: JsonView,
    entries: Seq<JsonView>,
)
    requires
        json.at("list"@).fields() matches Some(fields) && entries.len() == fields.len() && forall|
            i: int,
        |
            0 <= i < fields.len() ==> (#[trigger] fields[i]).1 == entries[i],
    ensures
        match range_next(assist, flow, Ok(json)) {
            RangeStepView::Done(Ok(lectures)) => {
                &&& flow.day >= flow.last
                &&& goes_on(flow.subjects, courses_listed(entries), lectures)
            },
            RangeStepView::Send { request, flow: next } => {
                &&& flow.day < flow.last
                &&& next.day == flow.day + 1
                &&& next.last == flow.last
                &&& next.token == flow.token
                &&& goes_on(flow.subjects, courses_listed(entries), next.subjects)
                &&& text_of_day(next.day) matches Some(day) && request == get_with_token(
                    assist,
                    DAY_URL@ + day,
                    flow.token,
                )
            },
            RangeStepView::Done(Err(error)) => {
                ||| error == ErrorView::Malformed && !is_timetable(entries)
                ||| error == ErrorView::NotADate && flow.day < flow.last && text_of_day(
                    (flow.day + 1) as i32,
                ) is None
            },
        },
        flow.day > flow.last ==> range_go(assist, flow) == RangeStepView::Done(Ok(flow.subjects)),
{
    a_day_lists_its_courses(json, entries);
    if let Some(lectures) = day_lectures(json) {
        let all = flow.subjects + lectures;
        assert(all.skip(flow.subjects.len() as int) =~= lectures);
    }
}

/// What is asked for with a token needs a login and the token: it shows the token, and goes to
/// the address that is given.
pub proof fn a_token_is_shown_where_it_is_asked_for(
    assist: AssistView,
    url: Seq<char>,
    token: Seq<char>,
    error: ErrorView,
)
    ensures
        !assist.have_login ==> asked_with(assist, url, Ok(token)) == Err::<RequestView, ErrorView>(
            ErrorView::NotLogin,
        ) && asked_with(assist, url, Err(error)) == Err::<RequestView, ErrorView>(
            ErrorView::NotLogin,
        ),
        assist.have_login ==> asked_with(assist, url, Err(error)) == Err::<RequestView, ErrorView>(
            error,
        ),
        assist.have_login ==> (asked_with(assist, url, Ok(token)) matches Ok(request)
            && request.url == url && request.method is Get && request.jar == assist.jar
            && request.form is None && request.headers.len() == 2 && request.headers[0] == (
            "user-agent"@,
            USER_AGENT@,
        ) && request.headers[1] == ("authorization"@, "Bearer "@ + token)),
        assist.have_login ==> (account_asked(assist, Ok(token)) matches Ok((request, shown))
            && request.url == ACCOUNT_URL@ && shown == token),
{
}

/// A course is asked for by its own number, in the name of the account that the reply gives, and
/// with the token that was shown before.
pub proof fn a_course_is_asked_for_by_its_number(
    assist: AssistView,
    course_id: i64,
    token: Seq<char>,
    json: JsonView,
)
    requires
        assist.have_login,
    ensures
        course_started(assist, course_id, Ok(token)) matches Ok((request, query)) && {
            &&& query.course_id == course_id
            &&& query.token == token
            &&& request.url == ACCOUNT_URL@
            &&& request.headers[1] == ("authorization"@, "Bearer "@ + token)
            &&& match json.at("params"@).at("account"@).text() {
                Some(account) => course_asked(assist, query, Ok(json)) matches Ok(next) && next.url
                    == COURSE_URL_HEAD@ + decimal(course_id as int) + "&student="@ + account
                    && next.headers[1] == ("authorization"@, "Bearer "@ + token) && next.method
                    is Get,
                None => course_asked(assist, query, Ok(json)) == Err::<RequestView, ErrorView>(
                    ErrorView::Malformed,
                ),
            }
        },
{
}

/// Two courses, and two accounts, have two addresses.
pub proof fn courses_are_asked_for_apart(
    one: i64,
    other: i64,
    account: Seq<char>,
    others_account: Seq<char>,
)
    ensures
        one != other ==> course_url(one, account) != course_url(other, account),
        account != others_account ==> course_url(one, account) != course_url(one, others_account),
{
    let tail = "&student="@ + account;
    let a = course_url(one, account);
    let b = course_url(other, account);
    assert(a =~= COURSE_URL_HEAD@ + decimal(one as int) + tail);
    assert(b =~= COURSE_URL_HEAD@ + decimal(other as int) + tail);
    if a == b {
        numbers_are_written_apart(COURSE_URL_HEAD@, one, other, tail);
    }
    let head = COURSE_URL_HEAD@ + decimal(one as int) + "&student="@;
    let c = course_url(one, others_account);
    assert(a.skip(head.len() as int) =~= account);
    assert(c.skip(head.len() as int) =~= others_account);
}

/// A range starts with its first day, with no lectures and the token that is shown for all days.
/// It needs a login, the token, and two days.
pub proof fn a_range_starts_with_its_first_day(
    assist: AssistView,
    token: Seq<char>,
    error: ErrorView,
    start: Seq<char>,
    end: Seq<char>,
)
    ensures
        !assist.have_login ==> range_start(assist, Ok(token), start, end) == RangeStepView::Done(
            Err(ErrorView::NotLogin),
        ) && range_start(assist, Err(error), start, end) == RangeStepView::Done(
            Err(ErrorView::NotLogin),
        ),
        assist.have_login ==> range_start(assist, Err(error), start, end) == RangeStepView::Done(
            Err(error),
        ),
        assist.have_login ==> match (day_of_text(start), day_of_text(end)) {
            (Some(first), Some(last)) => if first > last {
                range_start(assist, Ok(token), start, end) matches RangeStepView::Done(Ok(none))
                    && none.len() == 0
            } else {
                match text_of_day(first) {
                    Some(day) => range_start(assist, Ok(token), start, end)
                        matches RangeStepView::Send { request, flow } && request.url == DAY_URL@
                        + day && request.method is Get && request.headers[1] == (
                        "authorization"@,
                        "Bearer "@ + token,
                    ) && flow.day == first && flow.last == last && flow.token == token
                        && flow.subjects.len() == 0,
                    None => range_start(assist, Ok(token), start, end) == RangeStepView::Done(
                        Err(ErrorView::NotADate),
                    ),
                }
            },
            _ => range_start(assist, Ok(token), start, end) == RangeStepView::Done(
                Err(ErrorView::NotADate),
            ),
        },
{
}

/// A reply that must have some form comes to what is read of it, and to an error where it is no
/// document or has another form.
pub proof fn a_reply_comes_to_what_is_read_of_it<T>(
    json: JsonView,
    words: Seq<char>,
    read: spec_fn(JsonView) -> Option<T>,
    value: T,
)
    ensures
        formed(Err(words), read) == Err::<T, ErrorView>(ErrorView::NotJson(words)),
        read(json) == Some(value) ==> formed(Ok(json), read) == Ok::<T, ErrorView>(value),
        read(json) is None ==> formed(Ok(json), read) == Err::<T, ErrorView>(ErrorView::Malformed),
{
}

} // verus!
