//! The courses of the account, their files, and the lists around them.
use vstd::prelude::*;
use crate::error::{outcome, Error, ErrorOf, ErrorView};
use crate::json::{duplicate_all, json_of_bytes, parse_bytes, Json, JsonView};
use crate::numeral::{decimal, i64_text, numbers_are_written_apart};
use crate::request::{backoff, every_wait_is_twice_the_last, RequestView, ZjuRequestBuilder};
use crate::zju_assist::{AssistView, ZjuAssist};

verus! {

// ---------------------------------------------------------------- lists in one reply

/// The items of the list in the field `key` of a reply.
pub open spec fn list_in(reply: Result<JsonView, Seq<char>>, key: Seq<char>) -> Result<
    Seq<JsonView>,
    ErrorView,
> {
    match reply {
        Err(words) => Err(ErrorOf::NotJson(words)),
        Ok(json) => match json.at(key).items() {
            None => Err(ErrorOf::Malformed),
            Some(items) => Ok(items),
        },
    }
}

/// The items of the list in the field `key` of a document.
pub fn list_of(json: &Json, key: &str) -> (list: Result<Vec<Json>, Error>)
    ensures
        outcome(list) == list_in(Ok(json@), key@),
{
    match json.array_at(key) {
        None => Err(ErrorOf::Malformed),
        Some(items) => Ok(duplicate_all(items)),
    }
}

/// The items of the list in the field `key` of a reply.
pub fn reply_list(body: &[u8], key: &str) -> (list: Result<Vec<Json>, Error>)
    ensures
        outcome(list) == list_in(json_of_bytes(body@), key@),
{
    match parse_bytes(body) {
        Err(words) => Err(ErrorOf::NotJson(words)),
        Ok(json) => list_of(&json, key),
    }
}

/// A request that needs an account: `url` is what is asked for.
pub open spec fn asked(assist: AssistView, url: Seq<char>) -> Result<RequestView, ErrorView> {
    if assist.have_login {
        Ok(assist.get(url))
    } else {
        Err(ErrorOf::NotLogin)
    }
}

pub const YEARS_URL: &'static str =
    "https://courses.zju.edu.cn/api/my-academic-years?fields=id,name,sort,is_active";

pub const SEMESTERS_URL: &'static str = "https://courses.zju.edu.cn/api/my-semesters?";

pub const TODO_URL: &'static str = "https://courses.zju.edu.cn/api/todos?no-intercept=true";

impl ZjuAssist {
    /// A request for a page that only an account may see.
    pub fn ask(&self, url: &str) -> (request: Result<ZjuRequestBuilder, Error>)
        ensures
            outcome(request) == asked(self.deep_view(), url@),
    {
        if !self.have_login {
            return Err(ErrorOf::NotLogin);
        }
        Ok(self.get(url))
    }

    /// Asks for the academic years.
    pub fn get_academic_year_list(&self) -> (request: Result<ZjuRequestBuilder, Error>)
        ensures
            outcome(request) == asked(self.deep_view(), YEARS_URL@),
    {
        self.ask(YEARS_URL)
    }

    /// The academic years in a reply.
    pub fn academic_years(body: &[u8]) -> (list: Result<Vec<Json>, Error>)
        ensures
            outcome(list) == list_in(json_of_bytes(body@), "academic_years"@),
    {
        reply_list(body, "academic_years")
    }

    /// Asks for the semesters.
    pub fn get_semester_list(&self) -> (request: Result<ZjuRequestBuilder, Error>)
        ensures
            outcome(request) == asked(self.deep_view(), SEMESTERS_URL@),
    {
        self.ask(SEMESTERS_URL)
    }

    /// The semesters in a reply.
    pub fn semesters(body: &[u8]) -> (list: Result<Vec<Json>, Error>)
        ensures
            outcome(list) == list_in(json_of_bytes(body@), "semesters"@),
    {
        reply_list(body, "semesters")
    }

    /// Asks for what is to be done.
    pub fn get_todo_list(&self) -> (request: Result<ZjuRequestBuilder, Error>)
        ensures
            outcome(request) == asked(self.deep_view(), TODO_URL@),
    {
        self.ask(TODO_URL)
    }

    /// What is to be done, in a reply.
    pub fn todo_list(body: &[u8]) -> (list: Result<Vec<Json>, Error>)
        ensures
            outcome(list) == list_in(json_of_bytes(body@), "todo_list"@),
    {
        reply_list(body, "todo_list")
    }
}

// ---------------------------------------------------------------- files of a course

/// The files of a list of activities, in order; an activity without a list has none.
pub open spec fn uploads_in(activities: Seq<JsonView>) -> Seq<JsonView>
    decreases activities.len(),
{
    if activities.len() == 0 {
        Seq::empty()
    } else {
        uploads_in(activities.drop_last()) + match activities.last().at("uploads"@).items() {
            Some(items) => items,
            None => Seq::empty(),
        }
    }
}

/// The files of a list of activities.
pub fn uploads_of(activities: &Vec<Json>) -> (uploads: Vec<Json>)
    ensures
        uploads.deep_view() == uploads_in(activities.deep_view()),
{
    let mut uploads: Vec<Json> = Vec::new();
    let ghost all = activities.deep_view();
    assert(uploads.deep_view() =~= uploads_in(all.take(0)));
    for i in 0..activities.len()
        invariant
            all == activities.deep_view(),
            uploads.deep_view() == uploads_in(all.take(i as int)),
    {
        assert(all.take(i + 1).drop_last() =~= all.take(i as int));
        let ghost before = uploads.deep_view();
        match activities[i].array_at("uploads") {
            Some(items) => {
                let mut more = duplicate_all(items);
                let ghost added = more.deep_view();
                uploads.append(&mut more);
                assert(uploads.deep_view() =~= before + added);
            },
            None => {
                assert(before + Seq::<JsonView>::empty() =~= before);
            },
        }
    }
    assert(all.take(all.len() as int) =~= all);
    uploads
}

/// The files of the activities in a reply.
pub open spec fn activity_uploads(reply: Result<JsonView, Seq<char>>) -> Result<
    Seq<JsonView>,
    ErrorView,
> {
    match list_in(reply, "activities"@) {
        Ok(activities) => Ok(uploads_in(activities)),
        Err(error) => Err(error),
    }
}

/// Where the activities of a course are listed.
pub open spec fn activities_url(course_id: i64) -> Seq<char> {
    "https://courses.zju.edu.cn/api/courses/"@ + decimal(course_id as int) + "/activities"@
}

/// Where a file is.
pub open spec fn reference_url(reference_id: i64) -> Seq<char> {
    "https://courses.zju.edu.cn/api/uploads/reference/"@ + decimal(reference_id as int)
        + "/blob"@
}

/// Where the preview of a file is.
pub open spec fn preview_url(id: i64) -> Seq<char> {
    "https://courses.zju.edu.cn/api/uploads/"@ + decimal(id as int) + "/blob"@
}

pub(crate) fn with_number(head: &str, number: i64, tail: &str) -> (text: String)
    ensures
        text@ == head@ + decimal(number as int) + tail@,
{
    let mut text = head.to_owned();
    text.append(i64_text(number).as_str());
    text.append(tail);
    text
}

impl ZjuAssist {
    /// Asks for the activities of a course.
    pub fn get_activities_uploads(&self, course_id: i64) -> (request: Result<
        ZjuRequestBuilder,
        Error,
    >)
        ensures
            outcome(request) == asked(self.deep_view(), activities_url(course_id)),
    {
        let url = with_number("https://courses.zju.edu.cn/api/courses/", course_id, "/activities");
        self.ask(url.as_str())
    }

    /// The files of the activities in a reply.
    pub fn activities_uploads(body: &[u8]) -> (uploads: Result<Vec<Json>, Error>)
        ensures
            outcome(uploads) == activity_uploads(json_of_bytes(body@)),
    {
        match reply_list(body, "activities") {
            Ok(activities) => Ok(uploads_of(&activities)),
            Err(error) => Err(error),
        }
    }

    fn ask_file(&self, reference_id: i64) -> (request: ZjuRequestBuilder)
        ensures
            request.deep_view() == self.deep_view().get(reference_url(reference_id)),
    {
        let url = with_number(
            "https://courses.zju.edu.cn/api/uploads/reference/",
            reference_id,
            "/blob",
        );
        self.get(url.as_str())
    }

    fn ask_preview(&self, id: i64) -> (request: ZjuRequestBuilder)
        ensures
            request.deep_view() == self.deep_view().get(preview_url(id)),
    {
        let url = with_number("https://courses.zju.edu.cn/api/uploads/", id, "/blob");
        self.get(url.as_str())
    }

    /// Asks for a file.
    pub fn download_file(&self, reference_id: i64) -> (request: ZjuRequestBuilder)
        ensures
            request.deep_view() == self.deep_view().get(reference_url(reference_id)),
    {
        self.ask_file(reference_id)
    }

    /// Asks for the preview of a file that may not be downloaded; a file that may be needs
    /// nothing more.
    pub fn download_file_reply(&self, id: i64, success: bool) -> (request: Option<
        ZjuRequestBuilder,
    >)
        ensures
            request.deep_view() == if success {
                None::<RequestView>
            } else {
                Some(self.deep_view().get(preview_url(id)))
            },
    {
        if success {
            None
        } else {
            Some(self.ask_preview(id))
        }
    }
}

// ---------------------------------------------------------------- a file, with patience

/// The number of rounds in which a file is asked for.
pub const UPLOAD_ROUNDS: u64 = 5;

/// The fetching of a file: in each round the file is asked for, then its preview.
pub struct UploadFlow {
    pub id: i64,
    pub reference_id: i64,
    pub round: u64,
    pub delay_ms: u64,
    pub preview: bool,
}

/// What follows a reply while a file is fetched.
pub enum UploadStep {
    /// The reply holds the file.
    Take,
    /// Another request is sent at once.
    Send { request: ZjuRequestBuilder, flow: UploadFlow },
    /// Another request is sent after a while.
    Retry { after_ms: u64, request: ZjuRequestBuilder, flow: UploadFlow },
    /// The last wait is made, and the fetching has failed.
    Fail { after_ms: u64, error: Error },
}

impl UploadFlow {
    /// A round is under way, and the wait fits it.
    pub open spec fn well_formed(&self) -> bool {
        self.round < UPLOAD_ROUNDS && self.delay_ms == backoff(self.round as nat)
    }
}

/// What follows a reply: whether it was a success decides.
pub open spec fn upload_next(
    assist: AssistView,
    flow: UploadFlow,
    success: bool,
    step: UploadStep,
) -> bool {
    if success {
        step is Take
    } else if !flow.preview {
        &&& step matches UploadStep::Send { request, flow: next }
        &&& request.deep_view() == assist.get(preview_url(flow.id))
        &&& next == UploadFlow { preview: true, ..flow }
    } else if flow.round + 1 < UPLOAD_ROUNDS {
        &&& step matches UploadStep::Retry { after_ms, request, flow: next }
        &&& after_ms == backoff(flow.round as nat)
        &&& request.deep_view() == assist.get(reference_url(flow.reference_id))
        &&& next.well_formed()
        &&& next.round == flow.round + 1
        &&& next.id == flow.id
        &&& next.reference_id == flow.reference_id
        &&& !next.preview
    } else {
        &&& step matches UploadStep::Fail { after_ms, error }
        &&& after_ms == backoff(flow.round as nat)
        &&& error.deep_view() == ErrorOf::<Seq<char>>::UploadFailed
    }
}

impl ZjuAssist {
    /// Starts to fetch a file.
    pub fn get_uploads_response(&self, id: i64, reference_id: i64) -> (start: (
        ZjuRequestBuilder,
        UploadFlow,
    ))
        ensures
            start.0.deep_view() == self.deep_view().get(reference_url(reference_id)),
            start.1.well_formed(),
            start.1.id == id,
            start.1.reference_id == reference_id,
            start.1.round == 0,
            !start.1.preview,
    {
        proof {
            vstd::arithmetic::power2::lemma2_to64();
        }
        let flow = UploadFlow { id, reference_id, round: 0, delay_ms: 100, preview: false };
        (self.ask_file(reference_id), flow)
    }

    /// Decides what follows a reply while a file is fetched.
    pub fn uploads_response_step(&self, flow: UploadFlow, success: bool) -> (step: UploadStep)
        requires
            flow.well_formed(),
        ensures
            upload_next(self.deep_view(), flow, success, step),
    {
        proof {
            vstd::arithmetic::power2::lemma2_to64();
        }
        if success {
            return UploadStep::Take;
        }
        let after_ms: u64 = flow.delay_ms;
        if !flow.preview {
            UploadStep::Send {
                request: self.ask_preview(flow.id),
                flow: UploadFlow { preview: true, ..flow },
            }
        } else if flow.round + 1 < UPLOAD_ROUNDS {
            UploadStep::Retry {
                after_ms,
                request: self.ask_file(flow.reference_id),
                flow: UploadFlow {
                    id: flow.id,
                    reference_id: flow.reference_id,
                    round: flow.round + 1,
                    delay_ms: after_ms * 2,
                    preview: false,
                },
            }
        } else {
            UploadStep::Fail { after_ms, error: ErrorOf::UploadFailed }
        }
    }
}

/// The number of requests that a fetch may still make, with the one that is under way.
pub open spec fn requests_left(flow: UploadFlow) -> int {
    2 * (UPLOAD_ROUNDS - flow.round) - if flow.preview {
        1int
    } else {
        0
    }
}

/// A fetch of a file makes ten requests at most, each after a refusal, and fails exactly when
/// all of them were refused.
pub proof fn a_file_is_asked_for_ten_times(assist: AssistView, flow: UploadFlow, step: UploadStep)
    requires
        flow.well_formed(),
        upload_next(assist, flow, false, step),
    ensures
        match step {
            UploadStep::Take => false,
            UploadStep::Send { flow: next, .. } => requests_left(next) == requests_left(flow) - 1,
            UploadStep::Retry { flow: next, .. } => requests_left(next) == requests_left(flow) - 1,
            UploadStep::Fail { .. } => requests_left(flow) == 1,
        },
        requests_left(flow) == 1 ==> step is Fail,
        flow.round == 0 && !flow.preview ==> requests_left(flow) == 10,
{
}

// ---------------------------------------------------------------- lists over many pages

/// A list that comes page by page.
#[derive(Clone, Copy, PartialEq, Eq, Structural, Debug)]
pub enum Listing {
    /// The courses of the account.
    Courses,
    /// The files of the homework of a course.
    Homework { course_id: i64 },
}

pub const COURSES_URL_HEAD: &'static str =
    "https://courses.zju.edu.cn/api/my-courses?conditions=%7B%22status%22:%5B%22ongoing%22,%22notStarted%22%5D,%22keyword%22:%22%22,%22classify_type%22:%22recently_started%22,%22display_studio_list%22:false%7D&fields=id,name,course_code,department(id,name),grade(id,name),klass(id,name),course_type,cover,small_cover,start_date,end_date,is_started,is_closed,academic_year_id,semester_id,credit,compulsory,second_name,display_name,created_user(id,name),org(is_enterprise_or_organization),org_id,public_scope,audit_status,audit_remark,can_withdraw_course,imported_from,allow_clone,is_instructor,is_team_teaching,is_default_course_cover,instructors(id,name,email,avatar_small_url),course_attributes(teaching_class_name,is_during_publish_period,copy_status,tip,data),user_stick_course_record(id),classroom_schedule&page=";

pub const COURSES_URL_TAIL: &'static str = "&page_size=100&showScorePassedStatus=false";

pub const HOMEWORK_URL_HEAD: &'static str = "https://courses.zju.edu.cn/api/courses/";

pub const HOMEWORK_URL_MIDDLE: &'static str =
    "/homework-activities?conditions=%7B%22itemsSortBy%22:%7B%22predicate%22:%22module%22,%22reverse%22:false%7D%7D&page=";

pub const HOMEWORK_URL_TAIL: &'static str = "&page_size=20&reloadPage=false";

impl Listing {
    /// Where a page of the list is.
    pub open spec fn url(self, page: i64) -> Seq<char> {
        match self {
            Listing::Courses => COURSES_URL_HEAD@ + decimal(page as int) + COURSES_URL_TAIL@,
            Listing::Homework { course_id } => HOMEWORK_URL_HEAD@ + decimal(course_id as int)
                + HOMEWORK_URL_MIDDLE@ + decimal(page as int) + HOMEWORK_URL_TAIL@,
        }
    }

    /// The items on a page of the list.
    pub open spec fn items(self, page: JsonView) -> Option<Seq<JsonView>> {
        match self {
            Listing::Courses => page.at("courses"@).items(),
            Listing::Homework { .. } => match page.at("homework_activities"@).items() {
                Some(homework) => Some(uploads_in(homework)),
                None => None,
            },
        }
    }

    fn page_url(&self, page: i64) -> (url: String)
        ensures
            url@ == self.url(page),
    {
        match self {
            Listing::Courses => with_number(COURSES_URL_HEAD, page, COURSES_URL_TAIL),
            Listing::Homework { course_id } => {
                let mut url = with_number(HOMEWORK_URL_HEAD, *course_id, HOMEWORK_URL_MIDDLE);
                url.append(i64_text(page).as_str());
                url.append(HOMEWORK_URL_TAIL);
                url
            },
        }
    }

    fn page_items(&self, page: &Json) -> (items: Option<Vec<Json>>)
        ensures
            items.deep_view() == self.items(page@),
    {
        match self {
            Listing::Courses => match page.array_at("courses") {
                Some(items) => Some(duplicate_all(items)),
                None => None,
            },
            Listing::Homework { .. } => match page.array_at("homework_activities") {
                Some(homework) => Some(uploads_of(homework)),
                None => None,
            },
        }
    }
}

/// A list of which a page is awaited.
pub struct PageFlow {
    pub listing: Listing,
    pub items: Vec<Json>,
    /// The page that is awaited.
    pub page: i64,
    /// The number of pages, once the first one has come.
    pub pages: i64,
}

/// What a list of which a page is awaited says.
pub struct PageView {
    pub listing: Listing,
    pub items: Seq<JsonView>,
    pub page: i64,
    pub pages: i64,
}

impl DeepView for PageFlow {
    type V = PageView;

    open spec fn deep_view(&self) -> PageView {
        PageView {
            listing: self.listing,
            items: self.items.deep_view(),
            page: self.page,
            pages: self.pages,
        }
    }
}

/// What follows a page.
pub enum PageStep {
    Done(Result<Vec<Json>, Error>),
    Send { request: ZjuRequestBuilder, flow: PageFlow },
}

/// What the step that follows a page says.
pub enum PageStepView {
    Done(Result<Seq<JsonView>, ErrorView>),
    Send { request: RequestView, flow: PageView },
}

impl DeepView for PageStep {
    type V = PageStepView;

    open spec fn deep_view(&self) -> PageStepView {
        match self {
            PageStep::Done(result) => PageStepView::Done(outcome(*result)),
            PageStep::Send { request, flow } => PageStepView::Send {
                request: request.deep_view(),
                flow: flow.deep_view(),
            },
        }
    }
}

/// What follows a page: the next one, until the number of pages that the first one gave.
pub open spec fn page_next(
    assist: AssistView,
    flow: PageView,
    reply: Result<JsonView, Seq<char>>,
) -> PageStepView {
    match reply {
        Err(words) => PageStepView::Done(Err(ErrorOf::NotJson(words))),
        Ok(json) => {
            let pages = if flow.page == 1 {
                json.at("pages"@).signed()
            } else {
                Some(flow.pages)
            };
            match (flow.listing.items(json), pages) {
                (Some(items), Some(pages)) => if flow.page < pages {
                    PageStepView::Send {
                        request: assist.get(flow.listing.url((flow.page + 1) as i64)),
                        flow: PageView {
                            listing: flow.listing,
                            items: flow.items + items,
                            page: (flow.page + 1) as i64,
                            pages,
                        },
                    }
                } else {
                    PageStepView::Done(Ok(flow.items + items))
                },
                _ => PageStepView::Done(Err(ErrorOf::Malformed)),
            }
        },
    }
}

/// The first step of a list.
pub open spec fn page_start(assist: AssistView, listing: Listing) -> PageStepView {
    if assist.have_login {
        PageStepView::Send {
            request: assist.get(listing.url(1)),
            flow: PageView { listing, items: Seq::empty(), page: 1, pages: 0 },
        }
    } else {
        PageStepView::Done(Err(ErrorOf::NotLogin))
    }
}

impl ZjuAssist {
    fn first_page(&self, listing: Listing) -> (step: PageStep)
        ensures
            step.deep_view() == page_start(self.deep_view(), listing),
    {
        if !self.have_login {
            return PageStep::Done(Err(ErrorOf::NotLogin));
        }
        let items: Vec<Json> = Vec::new();
        assert(items.deep_view() =~= Seq::<JsonView>::empty());
        PageStep::Send {
            request: self.get(listing.page_url(1).as_str()),
            flow: PageFlow { listing, items, page: 1, pages: 0 },
        }
    }

    /// Starts to list the courses of the account.
    pub fn get_courses(&self) -> (step: PageStep)
        ensures
            step.deep_view() == page_start(self.deep_view(), Listing::Courses),
    {
        self.first_page(Listing::Courses)
    }

    /// Starts to list the files of the homework of a course.
    pub fn get_homework_uploads(&self, course_id: i64) -> (step: PageStep)
        ensures
            step.deep_view() == page_start(self.deep_view(), Listing::Homework { course_id }),
    {
        self.first_page(Listing::Homework { course_id })
    }

    /// Takes up a page of a list.
    pub fn page_json(&self, flow: PageFlow, json: &Json) -> (step: PageStep)
        ensures
            step.deep_view() == page_next(self.deep_view(), flow.deep_view(), Ok(json@)),
    {
        let ghost start = flow.deep_view();
        let PageFlow { listing, items, page, pages } = flow;
        let mut items = items;
        let pages = if page == 1 {
            json.i64_at("pages")
        } else {
            Some(pages)
        };
        let mut more = match listing.page_items(json) {
            Some(more) => more,
            None => {
                return PageStep::Done(Err(ErrorOf::Malformed));
            },
        };
        let pages: i64 = match pages {
            Some(pages) => pages,
            None => {
                return PageStep::Done(Err(ErrorOf::Malformed));
            },
        };
        let ghost added = more.deep_view();
        items.append(&mut more);
        assert(items.deep_view() =~= start.items + added);
        if page < pages {
            let next: i64 = page + 1;
            PageStep::Send {
                request: self.get(listing.page_url(next).as_str()),
                flow: PageFlow { listing, items, page: next, pages },
            }
        } else {
            PageStep::Done(Ok(items))
        }
    }

    /// Takes up the reply that holds a page of a list.
    pub fn page_reply(&self, flow: PageFlow, body: &[u8]) -> (step: PageStep)
        ensures
            step.deep_view() == page_next(
                self.deep_view(),
                flow.deep_view(),
                json_of_bytes(body@),
            ),
    {
        match parse_bytes(body) {
            Ok(json) => self.page_json(flow, &json),
            Err(words) => PageStep::Done(Err(ErrorOf::NotJson(words))),
        }
    }
}

/// The step after a run of pages.
pub open spec fn page_run(
    assist: AssistView,
    listing: Listing,
    pages: Seq<JsonView>,
) -> PageStepView
    decreases pages.len(),
{
    if pages.len() == 0 {
        page_start(assist, listing)
    } else {
        match page_run(assist, listing, pages.drop_last()) {
            PageStepView::Send { flow, .. } => page_next(assist, flow, Ok(pages.last())),
            done => done,
        }
    }
}

/// The items of all pages, in order.
pub open spec fn all_items(listing: Listing, pages: Seq<JsonView>) -> Seq<JsonView>
    decreases pages.len(),
{
    if pages.len() == 0 {
        Seq::empty()
    } else {
        all_items(listing, pages.drop_last()) + listing.items(pages.last())->0
    }
}

/// Each page is asked for once, and the list is the items of all pages in their order: of as
/// many pages as the first one says, and at least of that one.
pub proof fn list_is_all_pages(assist: AssistView, listing: Listing, pages: Seq<JsonView>)
    requires
        assist.have_login,
        pages.len() > 0,
        pages[0].at("pages"@).signed() is Some,
        forall|i: int| 0 <= i < pages.len() ==> listing.items(#[trigger] pages[i]) is Some,
        pages.len() <= 1 || pages.len() <= pages[0].at("pages"@).signed()->0,
    ensures
        pages.len() < pages[0].at("pages"@).signed()->0 ==> page_run(assist, listing, pages)
            == (PageStepView::Send {
            request: assist.get(listing.url((pages.len() + 1) as i64)),
            flow: PageView {
                listing,
                items: all_items(listing, pages),
                page: (pages.len() + 1) as i64,
                pages: pages[0].at("pages"@).signed()->0,
            },
        }),
        pages.len() >= pages[0].at("pages"@).signed()->0 ==> page_run(assist, listing, pages)
            == PageStepView::Done(Ok(all_items(listing, pages))),
    decreases pages.len(),
{
    let head = pages.drop_last();
    assert(listing.items(pages[pages.len() - 1]) is Some);
    if pages.len() == 1 {
        assert(head =~= Seq::<JsonView>::empty());
        assert(all_items(listing, head) =~= Seq::<JsonView>::empty());
        assert(page_run(assist, listing, head) == page_start(assist, listing));
    } else {
        list_is_all_pages(assist, listing, head);
    }
}

// ---------------------------------------------------------------- what lists hold

/// The files of one activity more stand behind those of the others; an activity without a list of
/// files has none.
pub proof fn files_of_activities_keep_their_order(
    activities: Seq<JsonView>,
    activity: JsonView,
)
    ensures
        uploads_in(Seq::empty()).len() == 0,
        activity.at("uploads"@).items() is None ==> uploads_in(activities.push(activity))
            == uploads_in(activities),
        activity.at("uploads"@).items() matches Some(files) ==> uploads_in(
            activities.push(activity),
        ) == uploads_in(activities) + files,
{
    assert(activities.push(activity).drop_last() =~= activities);
    assert(uploads_in(activities) + Seq::<JsonView>::empty() =~= uploads_in(activities));
}

/// The files of a course are those of the activities in its reply, and a reply without activities
/// is an error.
pub proof fn files_are_those_of_the_activities(json: JsonView, words: Seq<char>, key: Seq<char>)
    ensures
        json.at("activities"@).items() matches Some(activities) ==> activity_uploads(Ok(json))
            == Ok::<Seq<JsonView>, ErrorView>(uploads_in(activities)),
        json.at("activities"@).items() is None ==> activity_uploads(Ok(json)) == Err::<
            Seq<JsonView>,
            ErrorView,
        >(ErrorView::Malformed),
        activity_uploads(Err(words)) == Err::<Seq<JsonView>, ErrorView>(ErrorView::NotJson(words)),
        json.at(key).items() matches Some(items) ==> list_in(Ok(json), key) == Ok::<
            Seq<JsonView>,
            ErrorView,
        >(items),
        json.at(key).items() is None ==> list_in(Ok(json), key) == Err::<Seq<JsonView>, ErrorView>(
            ErrorView::Malformed,
        ),
        list_in(Err(words), key) == Err::<Seq<JsonView>, ErrorView>(ErrorView::NotJson(words)),
{
}

/// The items of a page: the courses that it lists, or the files of the homework that it lists.
pub open spec fn is_on_page(listing: Listing, page: JsonView, items: Seq<JsonView>) -> bool {
    match listing {
        Listing::Courses => page.at("courses"@).items() == Some(items),
        Listing::Homework { .. } => page.at("homework_activities"@).items() matches Some(homework)
            && items == uploads_in(homework),
    }
}

/// A list goes page by page: the items of a page go behind those of the pages before, and the
/// page with the next number is asked for as long as there is one. How many there are, the first
/// page says.
pub proof fn a_list_goes_page_by_page(assist: AssistView, flow: PageView, json: JsonView)
    requires
        flow.page >= 1,
    ensures
        match page_next(assist, flow, Ok(json)) {
            PageStepView::Send { request, flow: next } => {
                &&& flow.page == 1 ==> json.at("pages"@).signed() == Some(next.pages)
                &&& flow.page > 1 ==> next.pages == flow.pages
                &&& flow.page < next.pages
                &&& next.page == flow.page + 1
                &&& next.listing == flow.listing
                &&& request == assist.get(flow.listing.url(next.page))
                &&& next.items.len() >= flow.items.len()
                &&& next.items.take(flow.items.len() as int) == flow.items
                &&& is_on_page(flow.listing, json, next.items.skip(flow.items.len() as int))
            },
            PageStepView::Done(Ok(all)) => {
                &&& flow.page == 1 ==> (json.at("pages"@).signed() matches Some(pages) && pages
                    <= 1)
                &&& flow.page > 1 ==> flow.pages <= flow.page
                &&& all.len() >= flow.items.len()
                &&& all.take(flow.items.len() as int) == flow.items
                &&& is_on_page(flow.listing, json, all.skip(flow.items.len() as int))
            },
            PageStepView::Done(Err(error)) => {
                &&& error == ErrorView::Malformed
                &&& flow.page == 1 && json.at("pages"@).signed() is None || match flow.listing {
                    Listing::Courses => json.at("courses"@).items() is None,
                    Listing::Homework { .. } => json.at("homework_activities"@).items() is None,
                }
            },
        },
{
    if let Some(items) = flow.listing.items(json) {
        let all = flow.items + items;
        assert(all.take(flow.items.len() as int) =~= flow.items);
        assert(all.skip(flow.items.len() as int) =~= items);
    }
}

/// A list starts with its first page and nothing in it, and not without a login.
pub proof fn a_list_starts_with_its_first_page(assist: AssistView, listing: Listing)
    ensures
        match page_start(assist, listing) {
            PageStepView::Send { request, flow } => {
                &&& assist.have_login
                &&& flow.page == 1 && flow.items.len() == 0 && flow.listing == listing
                &&& flow.pages == 0
                &&& request == assist.get(listing.url(1))
            },
            PageStepView::Done(result) => {
                &&& !assist.have_login
                &&& result == Err::<Seq<JsonView>, ErrorView>(ErrorView::NotLogin)
            },
        },
{
}

/// Two pages of a list have two addresses, and so have the homework lists of two courses, the
/// activities of two courses, and two files.
pub proof fn what_differs_is_asked_for_apart(one: i64, other: i64, course_id: i64)
    requires
        one != other,
    ensures
        Listing::Courses.url(one) != Listing::Courses.url(other),
        (Listing::Homework { course_id }).url(one) != (Listing::Homework { course_id }).url(other),
        (Listing::Homework { course_id: one }).url(course_id) != (Listing::Homework {
            course_id: other,
        }).url(course_id),
        activities_url(one) != activities_url(other),
        reference_url(one) != reference_url(other),
        preview_url(one) != preview_url(other),
{
    if Listing::Courses.url(one) == Listing::Courses.url(other) {
        numbers_are_written_apart(COURSES_URL_HEAD@, one, other, COURSES_URL_TAIL@);
    }
    if (Listing::Homework { course_id }).url(one) == (Listing::Homework { course_id }).url(other) {
        numbers_are_written_apart(
            HOMEWORK_URL_HEAD@ + decimal(course_id as int) + HOMEWORK_URL_MIDDLE@,
            one,
            other,
            HOMEWORK_URL_TAIL@,
        );
    }
    let tail = HOMEWORK_URL_MIDDLE@ + decimal(course_id as int) + HOMEWORK_URL_TAIL@;
    let a = (Listing::Homework { course_id: one }).url(course_id);
    let b = (Listing::Homework { course_id: other }).url(course_id);
    assert(a =~= HOMEWORK_URL_HEAD@ + decimal(one as int) + tail);
    assert(b =~= HOMEWORK_URL_HEAD@ + decimal(other as int) + tail);
    if a == b {
        numbers_are_written_apart(HOMEWORK_URL_HEAD@, one, other, tail);
    }
    if activities_url(one) == activities_url(other) {
        numbers_are_written_apart(
            "https://courses.zju.edu.cn/api/courses/"@,
            one,
            other,
            "/activities"@,
        );
    }
    if reference_url(one) == reference_url(other) {
        numbers_are_written_apart(
            "https://courses.zju.edu.cn/api/uploads/reference/"@,
            one,
            other,
            "/blob"@,
        );
    }
    if preview_url(one) == preview_url(other) {
        numbers_are_written_apart("https://courses.zju.edu.cn/api/uploads/"@, one, other, "/blob"@);
    }
}

/// A file that does not come is asked for in turn by its own number and by its reference, and
/// every other time after a wait, which doubles.
pub proof fn a_file_is_asked_for_in_two_ways(
    assist: AssistView,
    flow: UploadFlow,
    step: UploadStep,
)
    requires
        flow.well_formed(),
        upload_next(assist, flow, false, step),
    ensures
        match step {
            UploadStep::Take => false,
            UploadStep::Send { request, flow: next } => {
                &&& !flow.preview && next.preview
                &&& request.deep_view().url == "https://courses.zju.edu.cn/api/uploads/"@ + decimal(
                    flow.id as int,
                ) + "/blob"@
                &&& request.deep_view().method is Get
                &&& next.id == flow.id && next.reference_id == flow.reference_id
                &&& next.round == flow.round
            },
            UploadStep::Retry { after_ms, request, flow: next } => {
                &&& flow.preview && !next.preview
                &&& request.deep_view().url == "https://courses.zju.edu.cn/api/uploads/reference/"@
                    + decimal(flow.reference_id as int) + "/blob"@
                &&& request.deep_view().method is Get
                &&& next.id == flow.id && next.reference_id == flow.reference_id
                &&& next.round == flow.round + 1
                &&& after_ms == flow.delay_ms && next.delay_ms == 2 * after_ms
                &&& flow.round == 0 ==> after_ms == 100
            },
            UploadStep::Fail { after_ms, error } => {
                &&& flow.preview && flow.round == 4
                &&& after_ms == flow.delay_ms
                &&& error.deep_view() == ErrorView::UploadFailed
            },
        },
{
    every_wait_is_twice_the_last(flow.round as int + 1);
}

/// A reply that holds the file is taken, in either way and in every round.
pub proof fn a_file_that_comes_is_taken(assist: AssistView, flow: UploadFlow, step: UploadStep)
    requires
        upload_next(assist, flow, true, step),
    ensures
        step is Take,
{
}

/// What needs a login is asked for at the address that is given, and not at all without one.
pub proof fn nothing_is_asked_for_without_a_login(assist: AssistView, url: Seq<char>)
    ensures
        assist.have_login ==> (asked(assist, url) matches Ok(request) && request.url == url
            && request.method is Get && request.jar == assist.jar),
        !assist.have_login ==> asked(assist, url) == Err::<RequestView, ErrorView>(
            ErrorView::NotLogin,
        ),
{
}

} // verus!
