//! The recordings and the slides of a lecture.
use vstd::arithmetic::power2::lemma2_to64;
use vstd::prelude::*;
use crate::boundary::{known_image, looks_like_image, md5_digest, md5_hex, path_of_url, url_path};
use crate::classroom::{formed, ACCOUNT_URL};
use crate::courses::with_number;
use crate::error::{outcome, Error, ErrorOf, ErrorView};
use crate::json::{json_of_bytes, json_of_text, parse_bytes, parse_text, Json, JsonView};
use crate::numeral::{decimal, i64_text, numbers_are_written_apart, u64_text};
use crate::request::{backoff, RequestView, ZjuRequestBuilder};
use crate::search::{more_wanted, wants_more};
use crate::sequences::{each, each_in_place, each_step};
use crate::text::{after_last, contains, contains_text, from_last_char, occurs_at, reversed};
use crate::zju_assist::{AssistView, ZjuAssist};

verus! {

// ---------------------------------------------------------------- recordings

/// The key that opens a recording at a time: the account, the time, and a digest of both with
/// the path of the recording, the tenant and the phone number backwards.
pub open spec fn play_key(
    path: Seq<char>,
    id: Seq<char>,
    tenant_id: Seq<char>,
    phone: Seq<char>,
    timestamp: u64,
) -> Seq<char> {
    id + "-"@ + decimal(timestamp as int) + "-"@ + md5_digest(
        path + id + tenant_id + phone.reverse() + decimal(timestamp as int),
    )
}

/// The address of a recording with its key, if the address parses.
pub open spec fn auth_play_url(
    url: Seq<char>,
    id: Seq<char>,
    tenant_id: Seq<char>,
    phone: Seq<char>,
    timestamp: u64,
) -> Option<Seq<char>> {
    match path_of_url(url) {
        Some(path) => Some(
            url + (if contains_text(url, "?"@) {
                "&t="@
            } else {
                "?t="@
            }) + play_key(path, id, tenant_id, phone, timestamp),
        ),
        None => None,
    }
}

/// The address of a recording with its key, for a path of the address.
pub fn keyed_url(
    url: &str,
    path: &str,
    id: &str,
    tenant_id: &str,
    phone: &str,
    timestamp: u64,
) -> (keyed: String)
    ensures
        keyed@ == url@ + (if contains_text(url@, "?"@) {
            "&t="@
        } else {
            "?t="@
        }) + play_key(path@, id@, tenant_id@, phone@, timestamp),
{
    let time = u64_text(timestamp);
    let mut secret = path.to_owned();
    secret.append(id);
    secret.append(tenant_id);
    secret.append(reversed(phone).as_str());
    secret.append(time.as_str());
    let mut key = id.to_owned();
    key.append("-");
    key.append(time.as_str());
    key.append("-");
    key.append(md5_hex(secret.as_str()).as_str());
    let mut keyed = url.to_owned();
    if contains(url, "?") {
        keyed.append("&t=");
    } else {
        keyed.append("?t=");
    }
    keyed.append(key.as_str());
    keyed
}

/// Where a lecture is described.
pub open spec fn sub_info_url(course_id: i64, sub_id: i64) -> Seq<char> {
    "https://classroom.zju.edu.cn/courseapi/v3/portal-home-setting/get-sub-info?course_id="@
        + decimal(course_id as int) + "&sub_id="@ + decimal(sub_id as int)
}

/// The address of the recording in the description of a lecture.
pub open spec fn recording_in(json: JsonView) -> Option<Seq<char>> {
    json.at("data"@).at("content"@).at("save_playback"@).at("contents"@).text()
}

/// The request for a recording, from the account's data.
pub open spec fn recording_asked(
    assist: AssistView,
    url: Seq<char>,
    timestamp: u64,
    reply: Result<JsonView, Seq<char>>,
) -> Result<RequestView, ErrorView> {
    match reply {
        Err(words) => Err(ErrorOf::NotJson(words)),
        Ok(json) => {
            let params = json.at("params"@);
            match (
                params.at("id"@).signed(),
                params.at("tenant_id"@).signed(),
                params.at("phone"@).text(),
            ) {
                (Some(id), Some(tenant_id), Some(phone)) => match auth_play_url(
                    url,
                    decimal(id as int),
                    decimal(tenant_id as int),
                    phone,
                    timestamp,
                ) {
                    Some(keyed) => Ok(assist.get(keyed)),
                    None => Err(ErrorOf::Malformed),
                },
                _ => Err(ErrorOf::Malformed),
            }
        },
    }
}

impl ZjuAssist {
    /// The address of a recording with its key, if the address parses.
    pub fn get_auth_play_url(
        url: &str,
        id: &str,
        tenant_id: &str,
        phone: &str,
        timestamp: u64,
    ) -> (keyed: Option<String>)
        ensures
            keyed.deep_view() == auth_play_url(url@, id@, tenant_id@, phone@, timestamp),
    {
        match url_path(url) {
            Some(path) => Some(keyed_url(url, path.as_str(), id, tenant_id, phone, timestamp)),
            None => None,
        }
    }

    /// Starts to fetch a recording: asks for the description of the lecture.
    pub fn get_playback_response(&self, course_id: i64, sub_id: i64) -> (request: ZjuRequestBuilder)
        ensures
            request.deep_view() == self.deep_view().get(sub_info_url(course_id, sub_id)),
    {
        let mut url = with_number(
            "https://classroom.zju.edu.cn/courseapi/v3/portal-home-setting/get-sub-info?course_id=",
            course_id,
            "&sub_id=",
        );
        url.append(i64_text(sub_id).as_str());
        self.get(url.as_str())
    }

    /// The address of the recording in the description of a lecture.
    pub fn recording_of(json: &Json) -> (url: Option<String>)
        ensures
            url.deep_view() == recording_in(json@),
    {
        let data = match json.get("data") {
            Some(data) => data,
            None => {
                return None;
            },
        };
        let content = match data.get("content") {
            Some(content) => content,
            None => {
                return None;
            },
        };
        let playback = match content.get("save_playback") {
            Some(playback) => playback,
            None => {
                return None;
            },
        };
        match playback.text_at("contents") {
            Some(url) => Some(url.to_owned()),
            None => None,
        }
    }

    /// Takes up the description of the lecture: the address of the recording, and the request
    /// for the account's data.
    pub fn playback_source(&self, body: &[u8]) -> (next: Result<(String, ZjuRequestBuilder), Error>)
        ensures
            outcome(next) == match formed(
                json_of_bytes(body@),
                |json: JsonView| recording_in(json),
            ) {
                Ok(url) => Ok::<(Seq<char>, RequestView), ErrorView>(
                    (url, self.deep_view().get(ACCOUNT_URL@)),
                ),
                Err(error) => Err(error),
            },
    {
        match parse_bytes(body) {
            Err(words) => Err(ErrorOf::NotJson(words)),
            Ok(json) => match ZjuAssist::recording_of(&json) {
                Some(url) => Ok((url, self.get(ACCOUNT_URL))),
                None => Err(ErrorOf::Malformed),
            },
        }
    }

    /// Asks for a recording, once the account's data are there.
    pub fn ask_recording(&self, url: &str, timestamp: u64, json: &Json) -> (request: Result<
        ZjuRequestBuilder,
        Error,
    >)
        ensures
            outcome(request) == recording_asked(self.deep_view(), url@, timestamp, Ok(json@)),
    {
        let params = match json.get("params") {
            Some(params) => params,
            None => {
                return Err(ErrorOf::Malformed);
            },
        };
        match (params.i64_at("id"), params.i64_at("tenant_id"), params.text_at("phone")) {
            (Some(id), Some(tenant_id), Some(phone)) => {
                let keyed = ZjuAssist::get_auth_play_url(
                    url,
                    i64_text(id).as_str(),
                    i64_text(tenant_id).as_str(),
                    phone,
                    timestamp,
                );
                match keyed {
                    Some(keyed) => Ok(self.get(keyed.as_str())),
                    None => Err(ErrorOf::Malformed),
                }
            },
            _ => Err(ErrorOf::Malformed),
        }
    }

    /// Asks for a recording, once the reply with the account's data is there.
    pub fn playback_account(&self, url: &str, timestamp: u64, body: &[u8]) -> (request: Result<
        ZjuRequestBuilder,
        Error,
    >)
        ensures
            outcome(request) == recording_asked(
                self.deep_view(),
                url@,
                timestamp,
                json_of_bytes(body@),
            ),
    {
        match parse_bytes(body) {
            Ok(json) => self.ask_recording(url, timestamp, &json),
            Err(words) => Err(ErrorOf::NotJson(words)),
        }
    }
}

// ---------------------------------------------------------------- slides

/// The address of a slide: it stands in a JSON text within the item.
pub open spec fn slide_in(item: JsonView) -> Option<Seq<char>> {
    match item.at("content"@).text() {
        Some(text) => match json_of_text(text) {
            Ok(content) => content.at("pptimgurl"@).text(),
            Err(_) => None,
        },
        None => None,
    }
}

/// The addresses of the slides in a list.
pub open spec fn slides_in(items: Seq<JsonView>) -> Option<Seq<Seq<char>>> {
    each(items, |item: JsonView| slide_in(item))
}

/// The address in the content of a slide.
pub fn slide_of_content(content: &Json) -> (url: Option<String>)
    ensures
        url.deep_view() == content@.at("pptimgurl"@).text(),
{
    match content.text_at("pptimgurl") {
        Some(url) => Some(url.to_owned()),
        None => None,
    }
}

fn slide_of(item: &Json) -> (url: Option<String>)
    ensures
        url.deep_view() == slide_in(item@),
{
    match item.text_at("content") {
        Some(text) => match parse_text(text) {
            Ok(content) => slide_of_content(&content),
            Err(_) => None,
        },
        None => None,
    }
}

fn slides_of(items: &Vec<Json>) -> (urls: Option<Vec<String>>)
    ensures
        urls.deep_view() == slides_in(items.deep_view()),
{
    let ghost all = items.deep_view();
    let ghost f = |item: JsonView| slide_in(item);
    let mut urls: Vec<String> = Vec::new();
    assert(urls.deep_view() =~= Seq::<Seq<char>>::empty());
    for i in 0..items.len()
        invariant
            all == items.deep_view(),
            f == (|item: JsonView| slide_in(item)),
            each(all.take(i as int), f) == Some(urls.deep_view()),
    {
        proof {
            each_step(all, f, i as int);
        }
        assert(all[i as int] == items@[i as int]@);
        match slide_of(&items[i]) {
            Some(url) => {
                let ghost before = urls.deep_view();
                urls.push(url);
                assert(urls.deep_view() =~= before.push(url@));
            },
            None => {
                return None;
            },
        }
    }
    assert(all.take(all.len() as int) =~= all);
    Some(urls)
}

/// The number of times that a page may come short before the slides are given up.
pub const PPT_RETRIES: u64 = 5;

/// The wait before a page that came short is asked for once more.
pub const PPT_WAIT_MS: u64 = 200;

/// The number of slides on a full page.
pub const PPT_PAGE: u64 = 100;

/// The slides of a lecture, of which a page is awaited.
pub struct PptFlow {
    pub course_id: i64,
    pub sub_id: i64,
    pub urls: Vec<String>,
    /// The page that is awaited.
    pub page: i64,
    /// The number of slides, once the first page has come.
    pub total: i64,
    /// How often a page may still come short.
    pub retries: u64,
}

/// What the slides of which a page is awaited say.
pub struct PptView {
    pub course_id: i64,
    pub sub_id: i64,
    pub urls: Seq<Seq<char>>,
    pub page: i64,
    pub total: i64,
    pub retries: u64,
}

impl DeepView for PptFlow {
    type V = PptView;

    open spec fn deep_view(&self) -> PptView {
        PptView {
            course_id: self.course_id,
            sub_id: self.sub_id,
            urls: self.urls.deep_view(),
            page: self.page,
            total: self.total,
            retries: self.retries,
        }
    }
}

/// What follows a page of slides.
pub enum PptStep {
    Done(Result<Vec<String>, Error>),
    Send { after_ms: u64, request: ZjuRequestBuilder, flow: PptFlow },
}

/// What the step that follows a page of slides says.
pub enum PptStepView {
    Done(Result<Seq<Seq<char>>, ErrorView>),
    Send { after_ms: u64, request: RequestView, flow: PptView },
}

impl DeepView for PptStep {
    type V = PptStepView;

    open spec fn deep_view(&self) -> PptStepView {
        match self {
            PptStep::Done(result) => PptStepView::Done(outcome(*result)),
            PptStep::Send { after_ms, request, flow } => PptStepView::Send {
                after_ms: *after_ms,
                request: request.deep_view(),
                flow: flow.deep_view(),
            },
        }
    }
}

/// Where a page of slides is.
pub open spec fn ppt_url(course_id: i64, sub_id: i64, page: i64) -> Seq<char> {
    "https://classroom.zju.edu.cn/pptnote/v1/schedule/search-ppt?course_id="@ + decimal(
        course_id as int,
    ) + "&sub_id="@ + decimal(sub_id as int) + "&page="@ + decimal(page as int)
        + "&per_page=100"@
}

/// The number of slides that a page after the first must have: a full page, or the rest.
pub open spec fn should_have(have: nat, total: i64) -> nat {
    if total < 0 || total - have >= PPT_PAGE {
        PPT_PAGE as nat
    } else {
        (total - have) as nat
    }
}

/// The request for the page that a flow awaits.
pub open spec fn ppt_ask(assist: AssistView, after_ms: u64, flow: PptView) -> PptStepView {
    PptStepView::Send {
        after_ms,
        request: assist.get(ppt_url(flow.course_id, flow.sub_id, flow.page)),
        flow,
    }
}

/// The request for the first page.
pub open spec fn ppt_start(assist: AssistView, course_id: i64, sub_id: i64) -> PptStepView {
    ppt_ask(
        assist,
        0,
        PptView {
            course_id,
            sub_id,
            urls: Seq::empty(),
            page: 1,
            total: 0,
            retries: PPT_RETRIES,
        },
    )
}

/// Takes slides up, and asks for the next page while some are missing.
pub open spec fn ppt_add(
    assist: AssistView,
    flow: PptView,
    total: i64,
    items: Seq<JsonView>,
) -> PptStepView {
    match slides_in(items) {
        None => PptStepView::Done(Err(ErrorOf::Malformed)),
        Some(more) => {
            let urls = flow.urls + more;
            if wants_more(urls.len(), total) {
                ppt_ask(assist, 0, PptView { urls, page: (flow.page + 1) as i64, total, ..flow })
            } else {
                PptStepView::Done(Ok(urls))
            }
        },
    }
}

/// What follows a page of slides. A page after the first that does not have the number of
/// slides that it must have is asked for again, a limited number of times.
pub open spec fn ppt_next(
    assist: AssistView,
    flow: PptView,
    reply: Result<JsonView, Seq<char>>,
) -> PptStepView {
    match reply {
        Err(words) => PptStepView::Done(Err(ErrorOf::NotJson(words))),
        Ok(json) => match json.at("list"@).items() {
            None => PptStepView::Done(Err(ErrorOf::Malformed)),
            Some(items) => if flow.page == 1 {
                match json.at("total"@).signed() {
                    None => PptStepView::Done(Err(ErrorOf::Malformed)),
                    Some(total) => ppt_add(assist, flow, total, items),
                }
            } else if items.len() == should_have(flow.urls.len(), flow.total) {
                ppt_add(assist, flow, flow.total, items)
            } else if flow.retries <= 1 {
                PptStepView::Done(
                    Err(ErrorOf::PptFailed { course_id: flow.course_id, sub_id: flow.sub_id }),
                )
            } else {
                ppt_ask(
                    assist,
                    PPT_WAIT_MS,
                    PptView { retries: (flow.retries - 1) as u64, ..flow },
                )
            },
        },
    }
}

impl ZjuAssist {
    fn ask_ppt(&self, after_ms: u64, flow: PptFlow) -> (step: PptStep)
        ensures
            step.deep_view() == ppt_ask(self.deep_view(), after_ms, flow.deep_view()),
    {
        let mut url = with_number(
            "https://classroom.zju.edu.cn/pptnote/v1/schedule/search-ppt?course_id=",
            flow.course_id,
            "&sub_id=",
        );
        url.append(i64_text(flow.sub_id).as_str());
        url.append("&page=");
        url.append(i64_text(flow.page).as_str());
        url.append("&per_page=100");
        PptStep::Send { after_ms, request: self.get(url.as_str()), flow }
    }

    /// Starts to list the slides of a lecture.
    pub fn get_ppt_urls(&self, course_id: i64, sub_id: i64) -> (step: PptStep)
        ensures
            step.deep_view() == ppt_start(self.deep_view(), course_id, sub_id),
    {
        let urls: Vec<String> = Vec::new();
        assert(urls.deep_view() =~= Seq::<Seq<char>>::empty());
        self.ask_ppt(
            0,
            PptFlow { course_id, sub_id, urls, page: 1, total: 0, retries: PPT_RETRIES },
        )
    }

    fn add_slides(&self, flow: PptFlow, total: i64, items: &Vec<Json>) -> (step: PptStep)
        requires
            flow.page < i64::MAX,
        ensures
            step.deep_view() == ppt_add(
                self.deep_view(),
                flow.deep_view(),
                total,
                items.deep_view(),
            ),
    {
        let ghost start = flow.deep_view();
        let PptFlow { course_id, sub_id, urls, page, retries, .. } = flow;
        let mut urls = urls;
        let mut more = match slides_of(items) {
            Some(more) => more,
            None => {
                return PptStep::Done(Err(ErrorOf::Malformed));
            },
        };
        let ghost added = more.deep_view();
        urls.append(&mut more);
        assert(urls.deep_view() =~= start.urls + added);
        if more_wanted(urls.len(), total) {
            self.ask_ppt(0, PptFlow { course_id, sub_id, urls, page: page + 1, total, retries })
        } else {
            PptStep::Done(Ok(urls))
        }
    }

    /// Takes up a page of slides.
    pub fn ppt_json(&self, flow: PptFlow, json: &Json) -> (step: PptStep)
        requires
            flow.page < i64::MAX,
            flow.page == 1 || wants_more(flow.urls@.len(), flow.total),
        ensures
            step.deep_view() == ppt_next(self.deep_view(), flow.deep_view(), Ok(json@)),
    {
        let items = match json.array_at("list") {
            Some(items) => items,
            None => {
                return PptStep::Done(Err(ErrorOf::Malformed));
            },
        };
        assert(items.deep_view().len() == items@.len());
        if flow.page == 1 {
            return match json.i64_at("total") {
                Some(total) => self.add_slides(flow, total, items),
                None => PptStep::Done(Err(ErrorOf::Malformed)),
            };
        }
        let have: u64 = flow.urls.len() as u64;
        let expected: u64 = if flow.total < 0 || flow.total as u64 - have >= PPT_PAGE {
            PPT_PAGE
        } else {
            flow.total as u64 - have
        };
        if items.len() as u64 == expected {
            let total: i64 = flow.total;
            self.add_slides(flow, total, items)
        } else if flow.retries <= 1 {
            PptStep::Done(
                Err(ErrorOf::PptFailed { course_id: flow.course_id, sub_id: flow.sub_id }),
            )
        } else {
            let retries: u64 = flow.retries - 1;
            self.ask_ppt(PPT_WAIT_MS, PptFlow { retries, ..flow })
        }
    }

    /// Takes up the reply with a page of slides.
    pub fn ppt_reply(&self, flow: PptFlow, body: &[u8]) -> (step: PptStep)
        requires
            flow.page < i64::MAX,
            flow.page == 1 || wants_more(flow.urls@.len(), flow.total),
        ensures
            step.deep_view() == ppt_next(
                self.deep_view(),
                flow.deep_view(),
                json_of_bytes(body@),
            ),
    {
        match parse_bytes(body) {
            Ok(json) => self.ppt_json(flow, &json),
            Err(words) => PptStep::Done(Err(ErrorOf::NotJson(words))),
        }
    }
}

/// What pages of slides lead to, one after the other.
pub open spec fn ppt_run(
    assist: AssistView,
    course_id: i64,
    sub_id: i64,
    replies: Seq<Result<JsonView, Seq<char>>>,
) -> PptStepView
    decreases replies.len(),
{
    if replies.len() == 0 {
        ppt_start(assist, course_id, sub_id)
    } else {
        match ppt_run(assist, course_id, sub_id, replies.drop_last()) {
            PptStepView::Done(result) => PptStepView::Done(result),
            PptStepView::Send { flow, .. } => ppt_next(assist, flow, replies.last()),
        }
    }
}

/// The number of slides that the first page announces.
pub open spec fn announced(replies: Seq<Result<JsonView, Seq<char>>>) -> Option<i64> {
    match replies.first() {
        Ok(json) => json.at("total"@).signed(),
        Err(_) => None,
    }
}

/// The number of slides on the first page.
pub open spec fn first_count(replies: Seq<Result<JsonView, Seq<char>>>) -> nat {
    match replies.first() {
        Ok(json) => match json.at("list"@).items() {
            Some(items) => items.len(),
            None => 0,
        },
        Err(_) => 0,
    }
}

proof fn each_keeps_count<A, B>(s: Seq<A>, f: spec_fn(A) -> Option<B>)
    ensures
        each(s, f) matches Some(made) ==> made.len() == s.len(),
    decreases s.len(),
{
    if s.len() > 0 {
        each_keeps_count(s.drop_last(), f);
    }
}

/// While slides are fetched, the flow remembers what the first page announced, some are still
/// missing, the page that is awaited is a later one, and a page may still come short.
pub proof fn fetching_slides_goes_on_for_a_reason(
    assist: AssistView,
    course_id: i64,
    sub_id: i64,
    replies: Seq<Result<JsonView, Seq<char>>>,
)
    requires
        0 < replies.len() < i64::MAX - 1,
    ensures
        ppt_run(assist, course_id, sub_id, replies) matches PptStepView::Send { flow, .. } ==> {
            &&& announced(replies) == Some(flow.total)
            &&& wants_more(flow.urls.len(), flow.total)
            &&& 2 <= flow.page <= replies.len() + 1
            &&& 1 <= flow.retries <= PPT_RETRIES
            &&& (flow.page - 2) + (PPT_RETRIES - flow.retries) == replies.len() - 1
            &&& flow.urls.len() >= first_count(replies)
            &&& flow.course_id == course_id && flow.sub_id == sub_id
        },
    decreases replies.len(),
{
    let before = replies.drop_last();
    let f = |item: JsonView| slide_in(item);
    if let Ok(json) = replies.last() {
        if let Some(items) = json.at("list"@).items() {
            each_keeps_count(items, f);
        }
    }
    if before.len() == 0 {
        assert(replies.first() == replies.last());
        assert(ppt_run(assist, course_id, sub_id, before) == ppt_start(assist, course_id, sub_id));
    } else {
        fetching_slides_goes_on_for_a_reason(assist, course_id, sub_id, before);
        assert(replies.first() == before.first());
    }
}

/// A fetch that ends well has as many slides as the first page announced, or those of the
/// first page if it had more.
pub proof fn slides_are_all_there(
    assist: AssistView,
    course_id: i64,
    sub_id: i64,
    replies: Seq<Result<JsonView, Seq<char>>>,
)
    requires
        0 < replies.len() < i64::MAX - 1,
    ensures
        ppt_run(assist, course_id, sub_id, replies) matches PptStepView::Done(Ok(urls)) ==> {
            &&& announced(replies) matches Some(total)
            &&& total >= 0
            &&& urls.len() == if first_count(replies) > total {
                first_count(replies) as int
            } else {
                total as int
            }
        },
    decreases replies.len(),
{
    let before = replies.drop_last();
    let f = |item: JsonView| slide_in(item);
    if let Ok(json) = replies.last() {
        if let Some(items) = json.at("list"@).items() {
            each_keeps_count(items, f);
        }
    }
    if before.len() == 0 {
        assert(replies.first() == replies.last());
        assert(ppt_run(assist, course_id, sub_id, before) == ppt_start(assist, course_id, sub_id));
    } else {
        fetching_slides_goes_on_for_a_reason(assist, course_id, sub_id, before);
        slides_are_all_there(assist, course_id, sub_id, before);
        assert(replies.first() == before.first());
    }
}

/// An item of a list of slides describes the slide at an address.
pub open spec fn is_slide(item: JsonView, url: Seq<char>) -> bool {
    &&& item.at("content"@).text() matches Some(text)
    &&& json_of_text(text) matches Ok(content)
    &&& content.at("pptimgurl"@).text() == Some(url)
}

/// The addresses `after` are those of `before`, in their places, and behind them those of the
/// items, one for each and in their order.
pub open spec fn put_behind(
    before: Seq<Seq<char>>,
    items: Seq<JsonView>,
    after: Seq<Seq<char>>,
) -> bool {
    &&& after.len() == before.len() + items.len()
    &&& forall|i: int| 0 <= i < before.len() ==> #[trigger] after[i] == before[i]
    &&& forall|i: int|
        0 <= i < items.len() ==> is_slide(#[trigger] items[i], after[before.len() + i])
}

/// A page of slides is put behind the slides that came before it, item by item, or is asked for
/// once more and adds none.
pub proof fn a_page_is_put_behind_the_others(assist: AssistView, flow: PptView, json: JsonView)
    requires
        flow.page < i64::MAX,
    ensures
        match ppt_next(assist, flow, Ok(json)) {
            PptStepView::Done(Ok(urls)) => json.at("list"@).items() matches Some(items)
                && put_behind(flow.urls, items, urls),
            PptStepView::Done(Err(_)) => true,
            PptStepView::Send { flow: next, .. } => {
                &&& next.page == flow.page ==> next.urls == flow.urls
                &&& next.page != flow.page ==> next.page == flow.page + 1 && (json.at(
                    "list"@,
                ).items() matches Some(items) && put_behind(flow.urls, items, next.urls))
            },
        },
{
    if let Some(items) = json.at("list"@).items() {
        each_in_place(items, |item: JsonView| slide_in(item));
        if let Some(more) = slides_in(items) {
            let after = flow.urls + more;
            assert forall|i: int| 0 <= i < items.len() implies is_slide(
                #[trigger] items[i],
                after[flow.urls.len() + i],
            ) by {
                assert(slide_in(items[i]) == Some(more[i]));
            }
        }
    }
}

/// The items of the pages that are taken up, in the order in which the pages came: the first
/// page, and each later one that has a hundred items, or all that are then missing.
pub open spec fn items_taken(replies: Seq<Result<JsonView, Seq<char>>>) -> Seq<JsonView>
    decreases replies.len(),
{
    if replies.len() == 0 {
        Seq::empty()
    } else {
        let before = items_taken(replies.drop_last());
        let total = replies[0]->Ok_0.at("total"@).signed()->0;
        let items = replies.last()->Ok_0.at("list"@).items()->0;
        let missing = if total < 0 || total - before.len() > 100 {
            100
        } else {
            total - before.len()
        };
        if replies.len() == 1 || items.len() == missing {
            before + items
        } else {
            before
        }
    }
}

/// The slides of a lecture are those on the pages that are taken up, in the order in which the
/// pages came and in which they stand there, while slides are fetched and when that ends well.
pub proof fn slides_keep_their_order(
    assist: AssistView,
    course_id: i64,
    sub_id: i64,
    replies: Seq<Result<JsonView, Seq<char>>>,
)
    requires
        0 < replies.len() < i64::MAX - 1,
        ppt_run(assist, course_id, sub_id, replies.drop_last()) is Send,
    ensures
        match ppt_run(assist, course_id, sub_id, replies) {
            PptStepView::Done(Ok(urls)) => put_behind(Seq::empty(), items_taken(replies), urls),
            PptStepView::Done(Err(_)) => true,
            PptStepView::Send { flow, .. } => put_behind(
                Seq::empty(),
                items_taken(replies),
                flow.urls,
            ),
        },
    decreases replies.len(),
{
    let head = replies.drop_last();
    let nothing = Seq::<Seq<char>>::empty();
    if head.len() == 0 {
        assert(ppt_run(assist, course_id, sub_id, head) == ppt_start(assist, course_id, sub_id));
        assert(items_taken(head) == Seq::<JsonView>::empty());
        assert(replies[0] == replies.last());
    } else {
        fetching_slides_goes_on_for_a_reason(assist, course_id, sub_id, head);
        slides_keep_their_order(assist, course_id, sub_id, head);
        assert(replies[0] == head[0]);
    }
    let flow = ppt_run(assist, course_id, sub_id, head)->flow;
    let before = items_taken(head);
    assert(put_behind(nothing, before, flow.urls));
    if let Ok(json) = replies.last() {
        a_page_is_put_behind_the_others(assist, flow, json);
        if let Some(items) = json.at("list"@).items() {
            let all = before + items;
            assert forall|after: Seq<Seq<char>>| put_behind(
                flow.urls,
                items,
                after,
            ) implies put_behind(nothing, all, after) by {
                assert forall|i: int| 0 <= i < all.len() implies is_slide(
                    #[trigger] all[i],
                    after[nothing.len() + i],
                ) by {
                    if i < before.len() {
                        assert(is_slide(before[i], flow.urls[nothing.len() + i]));
                        assert(after[i] == flow.urls[i]);
                    } else {
                        assert(is_slide(
                            items[i - before.len()],
                            after[flow.urls.len() + (i - before.len())],
                        ));
                    }
                }
            }
        }
    }
}

/// What is fetched first stays first: the slides after some pages are the beginning of those
/// after more.
pub proof fn slides_fetched_first_stay_first(
    assist: AssistView,
    course_id: i64,
    sub_id: i64,
    replies: Seq<Result<JsonView, Seq<char>>>,
    k: int,
)
    requires
        0 <= k <= replies.len() < i64::MAX - 1,
    ensures
        ppt_run(assist, course_id, sub_id, replies.take(k)) matches PptStepView::Send {
            flow: early,
            ..
        } ==> match ppt_run(assist, course_id, sub_id, replies) {
            PptStepView::Done(Ok(urls)) => early.urls.is_prefix_of(urls),
            PptStepView::Done(Err(_)) => true,
            PptStepView::Send { flow, .. } => early.urls.is_prefix_of(flow.urls),
        },
    decreases replies.len(),
{
    if k == replies.len() {
        assert(replies.take(k) =~= replies);
    } else {
        let head = replies.drop_last();
        assert(head.take(k) =~= replies.take(k));
        slides_fetched_first_stay_first(assist, course_id, sub_id, head, k);
        if let PptStepView::Send { flow, .. } = ppt_run(assist, course_id, sub_id, head) {
            if head.len() > 0 {
                fetching_slides_goes_on_for_a_reason(assist, course_id, sub_id, head);
            }
            if let Ok(json) = replies.last() {
                a_page_is_put_behind_the_others(assist, flow, json);
            }
        }
    }
}

// ---------------------------------------------------------------- images

/// The number of times that an image is fetched at most.
pub const IMAGE_RETRIES: u64 = 5;

/// An image that is being fetched: how often that failed, and the next wait.
#[derive(Clone, Copy, PartialEq, Eq, Structural, Debug)]
pub struct ImageFlow {
    pub failures: u64,
    pub delay_ms: u64,
}

impl ImageFlow {
    /// Attempts are left, and the wait has doubled at most once for each failure.
    pub open spec fn well_formed(self) -> bool {
        self.failures < IMAGE_RETRIES && self.delay_ms <= backoff(self.failures as nat)
    }
}

/// What follows an attempt to fetch an image.
pub enum ImageStep {
    /// The image is there.
    Done,
    /// What came is an image: it is stored.
    Store,
    /// The image is asked for again, after a wait.
    Send { after_ms: u64, request: ZjuRequestBuilder, flow: ImageFlow },
    /// After a wait, what was stored is removed, and the fetch fails.
    GiveUp { after_ms: u64, error: Error },
}

/// What the step that follows an attempt to fetch an image says.
pub enum ImageStepView {
    Done,
    Store,
    Send { after_ms: u64, request: RequestView, flow: ImageFlow },
    GiveUp { after_ms: u64, error: ErrorView },
}

impl DeepView for ImageStep {
    type V = ImageStepView;

    open spec fn deep_view(&self) -> ImageStepView {
        match self {
            ImageStep::Done => ImageStepView::Done,
            ImageStep::Store => ImageStepView::Store,
            ImageStep::Send { after_ms, request, flow } => ImageStepView::Send {
                after_ms: *after_ms,
                request: request.deep_view(),
                flow: *flow,
            },
            ImageStep::GiveUp { after_ms, error } => ImageStepView::GiveUp {
                after_ms: *after_ms,
                error: error.deep_view(),
            },
        }
    }
}

/// One attempt failed: the next one follows at once or after a wait, while some are left.
pub open spec fn image_failed(
    assist: AssistView,
    url: Seq<char>,
    flow: ImageFlow,
    waits: bool,
) -> ImageStepView {
    let after_ms = if waits {
        flow.delay_ms
    } else {
        0
    };
    if flow.failures + 1 == IMAGE_RETRIES {
        ImageStepView::GiveUp { after_ms, error: ErrorOf::ImageFailed }
    } else {
        ImageStepView::Send {
            after_ms,
            request: assist.get(url),
            flow: ImageFlow {
                failures: (flow.failures + 1) as u64,
                delay_ms: if waits {
                    (2 * flow.delay_ms) as u64
                } else {
                    flow.delay_ms
                },
            },
        }
    }
}

/// What follows when the content came: an image is stored, anything else is a failure.
pub open spec fn image_fetched(
    assist: AssistView,
    url: Seq<char>,
    flow: ImageFlow,
    content: Seq<u8>,
) -> ImageStepView {
    if content.len() == 0 || !looks_like_image(content) {
        image_failed(assist, url, flow, false)
    } else {
        ImageStepView::Store
    }
}

/// What follows when the content is stored: a file with something in it is the end.
pub open spec fn image_kept(
    assist: AssistView,
    url: Seq<char>,
    flow: ImageFlow,
    stored: u64,
) -> ImageStepView {
    if stored > 0 {
        ImageStepView::Done
    } else {
        image_failed(assist, url, flow, true)
    }
}

impl ZjuAssist {
    /// Starts to fetch the image of a slide.
    pub fn download_ppt_image(&self, url: &str) -> (start: (ZjuRequestBuilder, ImageFlow))
        ensures
            start.0.deep_view() == self.deep_view().get(url@),
            start.1 == (ImageFlow { failures: 0, delay_ms: 100 }),
            start.1.well_formed(),
    {
        proof {
            lemma2_to64();
        }
        (self.get(url), ImageFlow { failures: 0, delay_ms: 100 })
    }

    /// The name under which the image of a slide is stored in a directory: what follows the
    /// last slash of its address.
    pub fn image_name(url: &str) -> (name: String)
        ensures
            name@ == after_last(url@, '/'),
    {
        from_last_char(url, '/')
    }

    fn retry_image(&self, url: &str, flow: ImageFlow, waits: bool) -> (step: ImageStep)
        requires
            flow.well_formed(),
        ensures
            step.deep_view() == image_failed(self.deep_view(), url@, flow, waits),
            step matches ImageStep::Send { flow: next, .. } ==> next.well_formed(),
    {
        proof {
            lemma2_to64();
        }
        let after_ms: u64 = if waits {
            flow.delay_ms
        } else {
            0
        };
        if flow.failures + 1 == IMAGE_RETRIES {
            return ImageStep::GiveUp { after_ms, error: ErrorOf::ImageFailed };
        }
        let delay_ms: u64 = if waits {
            flow.delay_ms * 2
        } else {
            flow.delay_ms
        };
        ImageStep::Send {
            after_ms,
            request: self.get(url),
            flow: ImageFlow { failures: flow.failures + 1, delay_ms },
        }
    }

    /// Takes up the content that came.
    pub fn image_content(&self, url: &str, flow: ImageFlow, content: &[u8]) -> (step: ImageStep)
        requires
            flow.well_formed(),
        ensures
            step.deep_view() == image_fetched(self.deep_view(), url@, flow, content@),
            step matches ImageStep::Send { flow: next, .. } ==> next.well_formed(),
    {
        if content.len() == 0 || !known_image(content) {
            self.retry_image(url, flow, false)
        } else {
            ImageStep::Store
        }
    }

    /// Takes up the length of the file in which the content was stored.
    pub fn image_stored(&self, url: &str, flow: ImageFlow, stored: u64) -> (step: ImageStep)
        requires
            flow.well_formed(),
        ensures
            step.deep_view() == image_kept(self.deep_view(), url@, flow, stored),
            step matches ImageStep::Send { flow: next, .. } ==> next.well_formed(),
    {
        if stored > 0 {
            ImageStep::Done
        } else {
            self.retry_image(url, flow, true)
        }
    }
}

/// One attempt to fetch an image: the content that came, and the length of the file in which
/// it was stored.
pub struct ImageAttempt {
    pub content: Seq<u8>,
    pub stored: u64,
}

/// What attempts to fetch an image lead to, one after the other.
pub open spec fn image_run(
    assist: AssistView,
    url: Seq<char>,
    attempts: Seq<ImageAttempt>,
) -> ImageStepView
    decreases attempts.len(),
{
    if attempts.len() == 0 {
        ImageStepView::Send {
            after_ms: 0,
            request: assist.get(url),
            flow: ImageFlow { failures: 0, delay_ms: 100 },
        }
    } else {
        match image_run(assist, url, attempts.drop_last()) {
            ImageStepView::Send { flow, .. } => match image_fetched(
                assist,
                url,
                flow,
                attempts.last().content,
            ) {
                ImageStepView::Store => image_kept(assist, url, flow, attempts.last().stored),
                step => step,
            },
            step => step,
        }
    }
}

/// An attempt leaves an image in a file.
pub open spec fn attempt_succeeds(attempt: ImageAttempt) -> bool {
    attempt.content.len() > 0 && looks_like_image(attempt.content) && attempt.stored > 0
}

/// An image is there as soon as one of the first five attempts succeeds, and the fetch is
/// given up when all five failed.
pub proof fn image_is_fetched_or_given_up(
    assist: AssistView,
    url: Seq<char>,
    attempts: Seq<ImageAttempt>,
)
    requires
        attempts.len() <= IMAGE_RETRIES,
    ensures
        image_run(assist, url, attempts) is Done <==> exists|i: int|
            0 <= i < attempts.len() && attempt_succeeds(#[trigger] attempts[i]),
        image_run(assist, url, attempts) is GiveUp <==> attempts.len() == IMAGE_RETRIES
            && forall|i: int|
            0 <= i < attempts.len() ==> !attempt_succeeds(#[trigger] attempts[i]),
        image_run(assist, url, attempts) matches ImageStepView::Send { flow, .. }
            ==> flow.failures == attempts.len() && flow.well_formed(),
        !(image_run(assist, url, attempts) is Store),
    decreases attempts.len(),
{
    lemma2_to64();
    if attempts.len() > 0 {
        let before = attempts.drop_last();
        image_is_fetched_or_given_up(assist, url, before);
        assert forall|i: int| 0 <= i < before.len() implies before[i] == #[trigger] attempts[i] by {
        }
        if image_run(assist, url, attempts) is Done {
            if image_run(assist, url, before) is Done {
                let i = choose|i: int|
                    0 <= i < before.len() && attempt_succeeds(#[trigger] before[i]);
                assert(attempt_succeeds(attempts[i]));
            } else {
                assert(attempt_succeeds(attempts[attempts.len() - 1]));
            }
        }
        if exists|i: int| 0 <= i < attempts.len() && attempt_succeeds(#[trigger] attempts[i]) {
            let i = choose|i: int|
                0 <= i < attempts.len() && attempt_succeeds(#[trigger] attempts[i]);
            if i < before.len() {
                assert(attempt_succeeds(before[i]));
            } else {
                assert(attempts[i] == attempts.last());
            }
        }
    }
}

// ---------------------------------------------------------------- what is asked for

/// The second text is the first one turned round.
pub open spec fn is_turned_round(text: Seq<char>, turned: Seq<char>) -> bool {
    &&& turned.len() == text.len()
    &&& forall|i: int| 0 <= i < text.len() ==> #[trigger] turned[i] == text[text.len() - 1 - i]
}

/// A recording is asked for at its own address with a key behind it: who asks, when, and a digest
/// over the path of the address, the account, its tenant, its telephone turned round, and the
/// time. The key is the first part of the query, or one more.
pub proof fn a_recording_is_asked_for_with_a_key(
    url: Seq<char>,
    path: Seq<char>,
    id: Seq<char>,
    tenant_id: Seq<char>,
    phone: Seq<char>,
    turned: Seq<char>,
    timestamp: u64,
)
    requires
        is_turned_round(phone, turned),
    ensures
        path_of_url(url) is None ==> auth_play_url(url, id, tenant_id, phone, timestamp) is None,
        path_of_url(url) == Some(path) ==> ({
            let time = decimal(timestamp as int);
            let key = id + "-"@ + time + "-"@ + md5_digest(path + id + tenant_id + turned + time);
            auth_play_url(url, id, tenant_id, phone, timestamp) == Some(
                if exists|i: int| 0 <= i < url.len() && #[trigger] url[i] == '?' {
                    url + "&t="@ + key
                } else {
                    url + "?t="@ + key
                },
            )
        }),
{
    assert(phone.reverse() =~= turned);
    reveal_strlit("?");
    if exists|i: int| 0 <= i < url.len() && #[trigger] url[i] == '?' {
        let i = choose|i: int| 0 <= i < url.len() && #[trigger] url[i] == '?';
        assert(url.subrange(i, i + 1) =~= "?"@);
        assert(occurs_at(url, "?"@, i));
    } else if contains_text(url, "?"@) {
        let i = choose|i: int| occurs_at(url, "?"@, i);
        assert(url.subrange(i, i + 1)[0] == "?"@[0]);
        assert(url[i] == '?');
    }
}

/// The key of a recording is made for the account that the reply gives.
pub proof fn a_recording_is_asked_for_by_the_account(
    assist: AssistView,
    url: Seq<char>,
    timestamp: u64,
    json: JsonView,
    id: i64,
    tenant_id: i64,
    phone: Seq<char>,
)
    ensures
        json.at("params"@).at("id"@).signed() == Some(id) && json.at("params"@).at(
            "tenant_id"@,
        ).signed() == Some(tenant_id) && json.at("params"@).at("phone"@).text() == Some(phone)
            ==> match auth_play_url(
            url,
            decimal(id as int),
            decimal(tenant_id as int),
            phone,
            timestamp,
        ) {
            Some(keyed) => recording_asked(assist, url, timestamp, Ok(json)) matches Ok(request)
                && request.url == keyed && request.method is Get && request.jar == assist.jar,
            None => recording_asked(assist, url, timestamp, Ok(json)) == Err::<
                RequestView,
                ErrorView,
            >(ErrorView::Malformed),
        },
        json.at("params"@).at("id"@).signed() is None || json.at("params"@).at(
            "tenant_id"@,
        ).signed() is None || json.at("params"@).at("phone"@).text() is None ==> recording_asked(
            assist,
            url,
            timestamp,
            Ok(json),
        ) == Err::<RequestView, ErrorView>(ErrorView::Malformed),
{
}

/// Two lectures, and two pages of the slides of one, have two addresses.
pub proof fn slides_are_asked_for_apart(
    one: i64,
    other: i64,
    course_id: i64,
    sub_id: i64,
    page: i64,
)
    requires
        one != other,
    ensures
        sub_info_url(course_id, one) != sub_info_url(course_id, other),
        sub_info_url(one, sub_id) != sub_info_url(other, sub_id),
        ppt_url(one, sub_id, page) != ppt_url(other, sub_id, page),
        ppt_url(course_id, one, page) != ppt_url(course_id, other, page),
        ppt_url(course_id, sub_id, one) != ppt_url(course_id, sub_id, other),
{
    let info =
        "https://classroom.zju.edu.cn/courseapi/v3/portal-home-setting/get-sub-info?course_id="@;
    let empty = Seq::<char>::empty();
    let info_head = info + decimal(course_id as int) + "&sub_id="@;
    assert(sub_info_url(course_id, one) =~= info_head + decimal(one as int) + empty);
    assert(sub_info_url(course_id, other) =~= info_head + decimal(other as int) + empty);
    if sub_info_url(course_id, one) == sub_info_url(course_id, other) {
        numbers_are_written_apart(info_head, one, other, empty);
    }
    let info_tail = "&sub_id="@ + decimal(sub_id as int);
    assert(sub_info_url(one, sub_id) =~= info + decimal(one as int) + info_tail);
    assert(sub_info_url(other, sub_id) =~= info + decimal(other as int) + info_tail);
    if sub_info_url(one, sub_id) == sub_info_url(other, sub_id) {
        numbers_are_written_apart(info, one, other, info_tail);
    }
    let head = "https://classroom.zju.edu.cn/pptnote/v1/schedule/search-ppt?course_id="@;
    let tail = "&sub_id="@ + decimal(sub_id as int) + "&page="@ + decimal(page as int)
        + "&per_page=100"@;
    assert(ppt_url(one, sub_id, page) =~= head + decimal(one as int) + tail);
    assert(ppt_url(other, sub_id, page) =~= head + decimal(other as int) + tail);
    if ppt_url(one, sub_id, page) == ppt_url(other, sub_id, page) {
        numbers_are_written_apart(head, one, other, tail);
    }
    let sub_head = head + decimal(course_id as int) + "&sub_id="@;
    let sub_tail = "&page="@ + decimal(page as int) + "&per_page=100"@;
    assert(ppt_url(course_id, one, page) =~= sub_head + decimal(one as int) + sub_tail);
    assert(ppt_url(course_id, other, page) =~= sub_head + decimal(other as int) + sub_tail);
    if ppt_url(course_id, one, page) == ppt_url(course_id, other, page) {
        numbers_are_written_apart(sub_head, one, other, sub_tail);
    }
    let page_head = sub_head + decimal(sub_id as int) + "&page="@;
    assert(ppt_url(course_id, sub_id, one) =~= page_head + decimal(one as int)
        + "&per_page=100"@);
    assert(ppt_url(course_id, sub_id, other) =~= page_head + decimal(other as int)
        + "&per_page=100"@);
    if ppt_url(course_id, sub_id, one) == ppt_url(course_id, sub_id, other) {
        numbers_are_written_apart(page_head, one, other, "&per_page=100"@);
    }
}

/// The slides of a lecture are asked for from the first page on. A later page that comes short is
/// asked for again after a fifth of a second, as long as it may, and then the fetch fails with
/// the numbers of the course and the lecture. The page after one that is whole is asked for at
/// once.
pub proof fn a_page_that_comes_short_is_asked_for_again(
    assist: AssistView,
    flow: PptView,
    json: JsonView,
    items: Seq<JsonView>,
)
    requires
        1 < flow.page < i64::MAX,
        0 <= flow.urls.len() <= flow.total,
        json.at("list"@).items() == Some(items),
    ensures
        ({
            let missing = flow.total - flow.urls.len();
            let step = ppt_next(assist, flow, Ok(json));
            &&& missing <= 100 && items.len() != missing || missing > 100 && items.len() != 100
                ==> {
                &&& flow.retries <= 1 ==> step == PptStepView::Done(
                    Err(
                        ErrorView::PptFailed { course_id: flow.course_id, sub_id: flow.sub_id },
                    ),
                )
                &&& flow.retries > 1 ==> (step matches PptStepView::Send {
                    after_ms,
                    request,
                    flow: next,
                } && after_ms == 200 && request.url == ppt_url(
                    flow.course_id,
                    flow.sub_id,
                    flow.page,
                ) && next == (PptView { retries: (flow.retries - 1) as u64, ..flow }))
            }
            &&& missing <= 100 && items.len() == missing || missing > 100 && items.len() == 100
                ==> match step {
                PptStepView::Send { after_ms, request, flow: next } => {
                    &&& missing > 100
                    &&& after_ms == 0
                    &&& next.page == flow.page + 1
                    &&& next.retries == flow.retries
                    &&& next.total == flow.total
                    &&& next.course_id == flow.course_id && next.sub_id == flow.sub_id
                    &&& request.url == ppt_url(flow.course_id, flow.sub_id, next.page)
                },
                PptStepView::Done(Ok(urls)) => missing <= 100 && urls.len() == flow.total,
                PptStepView::Done(Err(error)) => error == ErrorView::Malformed && exists|i: int|
                    0 <= i < items.len() && slide_in(#[trigger] items[i]) is None,
            }
        }),
{
    let read = |item: JsonView| slide_in(item);
    each_in_place(items, read);
    if slides_in(items) is None {
        let i = choose|i: int| 0 <= i < items.len() && read(#[trigger] items[i]) is None;
        assert(slide_in(items[i]) is None);
    }
}

/// Fetching slides starts with the first page, no slides, and five tries.
pub proof fn slides_start_with_the_first_page(assist: AssistView, course_id: i64, sub_id: i64)
    ensures
        ppt_start(assist, course_id, sub_id) matches PptStepView::Send { after_ms, request, flow }
            && {
            &&& after_ms == 0
            &&& request.url == ppt_url(course_id, sub_id, 1)
            &&& request.method is Get
            &&& flow.page == 1 && flow.urls.len() == 0 && flow.total == 0 && flow.retries == 5
            &&& flow.course_id == course_id && flow.sub_id == sub_id
        },
{
}

/// An image that could not be kept is asked for again at the same address after a wait, and each
/// wait is twice the last. One that did not come as an image is asked for at once. The fifth
/// failure is the last.
pub proof fn an_image_is_asked_for_again(
    assist: AssistView,
    url: Seq<char>,
    flow: ImageFlow,
    content: Seq<u8>,
)
    requires
        flow.failures < 5,
        flow.delay_ms <= 100_000,
    ensures
        image_kept(assist, url, flow, 0) == if flow.failures == 4 {
            ImageStepView::GiveUp { after_ms: flow.delay_ms, error: ErrorView::ImageFailed }
        } else {
            ImageStepView::Send {
                after_ms: flow.delay_ms,
                request: assist.get(url),
                flow: ImageFlow {
                    failures: (flow.failures + 1) as u64,
                    delay_ms: (flow.delay_ms + flow.delay_ms) as u64,
                },
            }
        },
        forall|stored: u64| stored > 0 ==> #[trigger] image_kept(assist, url, flow, stored) is Done,
        content.len() > 0 && looks_like_image(content) ==> image_fetched(
            assist,
            url,
            flow,
            content,
        ) is Store,
        content.len() == 0 || !looks_like_image(content) ==> image_fetched(
            assist,
            url,
            flow,
            content,
        ) == if flow.failures == 4 {
            ImageStepView::GiveUp { after_ms: 0, error: ErrorView::ImageFailed }
        } else {
            ImageStepView::Send {
                after_ms: 0,
                request: assist.get(url),
                flow: ImageFlow { failures: (flow.failures + 1) as u64, delay_ms: flow.delay_ms },
            }
        },
{
}

/// A recording is the text that stands in its reply as what is saved for playing.
pub proof fn a_recording_is_what_is_saved_for_playing(json: JsonView, url: Seq<char>)
    ensures
        ({
            let saved = json.at("data"@).at("content"@).at("save_playback"@).at("contents"@);
            &&& saved == JsonView::Text(url) ==> recording_in(json) == Some(url)
            &&& !(saved is Text) ==> recording_in(json) is None
        }),
{
}

/// A page that is no document, has no list, or is the first and does not say how many slides there
/// are, ends the fetch with an error.
pub proof fn a_page_without_a_list_ends_the_fetch(
    assist: AssistView,
    flow: PptView,
    json: JsonView,
    words: Seq<char>,
)
    ensures
        ppt_next(assist, flow, Err(words)) == PptStepView::Done(Err(ErrorView::NotJson(words))),
        json.at("list"@).items() is None ==> ppt_next(assist, flow, Ok(json)) == PptStepView::Done(
            Err(ErrorView::Malformed),
        ),
        flow.page == 1 && json.at("total"@).signed() is None ==> ppt_next(assist, flow, Ok(json))
            == PptStepView::Done(Err(ErrorView::Malformed)),
{
}

} // verus!
