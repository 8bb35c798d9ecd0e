//! The search for classroom courses.
use vstd::prelude::*;
use crate::boundary::{cookies_shown, CLASSROOM_SITE};
use crate::classroom::{account_asked, get_with_token};
use crate::courses::with_number;
use crate::error::{outcome, Error, ErrorOf, ErrorView};
use crate::json::{duplicate_all, json_of_bytes, parse_bytes, Json, JsonView};
use crate::login::token_in;
use crate::numeral::{decimal, i64_text, numbers_are_written_apart};
use crate::request::{RequestView, ZjuRequestBuilder};
use crate::text::{a_part_is_found_where_it_stands, contains_text, ends_in};
use crate::zju_assist::{AssistView, ZjuAssist};

verus! {

/// What is searched for, and who searches.
pub struct SearchOf<T> {
    pub token: T,
    pub course_name: T,
    pub teacher_name: T,
    pub account: T,
    pub user_id: i64,
}

pub const SEARCH_URL_HEAD: &'static str =
    "https://classroom.zju.edu.cn/pptnote/v1/searchlist?tenant_id=112&user_id=";

/// Where a page of the search is; `random` keeps the reply from being an old one.
pub open spec fn search_url(search: SearchOf<Seq<char>>, page: i64, random: Seq<char>) -> Seq<
    char,
> {
    SEARCH_URL_HEAD@ + decimal(search.user_id as int) + "&user_name="@ + search.account
        + "&page="@ + decimal(page as int) + "&per_page=16&title="@ + search.course_name
        + "&realname="@ + search.teacher_name + "&trans=&tenant_code=112&randomKey="@ + random
}

impl DeepView for SearchOf<String> {
    type V = SearchOf<Seq<char>>;

    open spec fn deep_view(&self) -> SearchOf<Seq<char>> {
        SearchOf {
            token: self.token@,
            course_name: self.course_name@,
            teacher_name: self.teacher_name@,
            account: self.account@,
            user_id: self.user_id,
        }
    }
}

fn page_url(search: &SearchOf<String>, page: i64, random: &str) -> (url: String)
    ensures
        url@ == search_url(search.deep_view(), page, random@),
{
    let mut url = with_number(SEARCH_URL_HEAD, search.user_id, "&user_name=");
    url.append(search.account.as_str());
    url.append("&page=");
    url.append(i64_text(page).as_str());
    url.append("&per_page=16&title=");
    url.append(search.course_name.as_str());
    url.append("&realname=");
    url.append(search.teacher_name.as_str());
    url.append("&trans=&tenant_code=112&randomKey=");
    url.append(random);
    url
}

/// A search of which a page is awaited.
pub struct SearchFlow {
    pub search: SearchOf<String>,
    pub courses: Vec<Json>,
    /// The page that is awaited.
    pub page: i64,
    /// The number of courses, once the first page has come.
    pub total: i64,
}

/// What a search of which a page is awaited says.
pub struct SearchView {
    pub search: SearchOf<Seq<char>>,
    pub courses: Seq<JsonView>,
    pub page: i64,
    pub total: i64,
}

impl DeepView for SearchFlow {
    type V = SearchView;

    open spec fn deep_view(&self) -> SearchView {
        SearchView {
            search: self.search.deep_view(),
            courses: self.courses.deep_view(),
            page: self.page,
            total: self.total,
        }
    }
}

/// What follows a reply to a search.
pub enum SearchStep {
    Done(Result<Vec<Json>, Error>),
    Send { request: ZjuRequestBuilder, flow: SearchFlow },
}

/// What the step that follows a reply says.
pub enum SearchStepView {
    Done(Result<Seq<JsonView>, ErrorView>),
    Send { request: RequestView, flow: SearchView },
}

impl DeepView for SearchStep {
    type V = SearchStepView;

    open spec fn deep_view(&self) -> SearchStepView {
        match self {
            SearchStep::Done(result) => SearchStepView::Done(outcome(*result)),
            SearchStep::Send { request, flow } => SearchStepView::Send {
                request: request.deep_view(),
                flow: flow.deep_view(),
            },
        }
    }
}

/// More items are wanted; a total below zero is never reached.
pub open spec fn wants_more(have: nat, total: i64) -> bool {
    total < 0 || have < total
}

/// Whether more items are wanted.
pub fn more_wanted(have: usize, total: i64) -> (yes: bool)
    ensures
        yes == wants_more(have as nat, total),
{
    total < 0 || (have as u64) < total as u64
}

/// The words of a search, and the token that is shown for it.
pub struct SearchWords {
    pub token: String,
    pub course_name: String,
    pub teacher_name: String,
}

/// What the words of a search say.
pub struct SearchWordsView {
    pub token: Seq<char>,
    pub course_name: Seq<char>,
    pub teacher_name: Seq<char>,
}

impl DeepView for SearchWords {
    type V = SearchWordsView;

    open spec fn deep_view(&self) -> SearchWordsView {
        SearchWordsView {
            token: self.token@,
            course_name: self.course_name@,
            teacher_name: self.teacher_name@,
        }
    }
}

/// The first request of a search.
pub open spec fn search_started(
    assist: AssistView,
    course_name: Seq<char>,
    teacher_name: Seq<char>,
    token: Result<Seq<char>, ErrorView>,
) -> Result<(RequestView, SearchWordsView), ErrorView> {
    match account_asked(assist, token) {
        Ok((request, token)) => Ok(
            (request, SearchWordsView { token, course_name, teacher_name }),
        ),
        Err(error) => Err(error),
    }
}

/// How a search starts once the account's data are there.
pub open spec fn search_account_next(
    assist: AssistView,
    words: SearchWordsView,
    reply: Result<JsonView, Seq<char>>,
    random: Seq<char>,
) -> SearchStepView {
    match reply {
        Err(said) => SearchStepView::Done(Err(ErrorOf::NotJson(said))),
        Ok(json) => {
            let params = json.at("params"@);
            match (params.at("account"@).text(), params.at("id"@).signed()) {
                (Some(account), Some(user_id)) => {
                    let SearchWordsView { token, course_name, teacher_name } = words;
                    let search = SearchOf { token, course_name, teacher_name, account, user_id };
                    SearchStepView::Send {
                        request: get_with_token(assist, search_url(search, 1, random), token),
                        flow: SearchView { search, courses: Seq::empty(), page: 1, total: 0 },
                    }
                },
                _ => SearchStepView::Done(Err(ErrorOf::Malformed)),
            }
        },
    }
}

/// The refusal in a first page, if its code is not zero.
pub open spec fn refusal_in(json: JsonView) -> Option<ErrorView> {
    match json.at("code"@).signed() {
        None => Some(ErrorOf::Malformed),
        Some(code) => if code == 0 {
            None
        } else {
            match json.at("msg"@).text() {
                Some(words) => Some(ErrorOf::Service(words)),
                None => Some(ErrorOf::Malformed),
            }
        },
    }
}

/// What follows a page: the next one, until there are as many courses as the first one said.
pub open spec fn search_next(
    assist: AssistView,
    flow: SearchView,
    reply: Result<JsonView, Seq<char>>,
    random: Seq<char>,
) -> SearchStepView {
    match reply {
        Err(words) => SearchStepView::Done(Err(ErrorOf::NotJson(words))),
        Ok(json) => if flow.page == 1 && refusal_in(json) is Some {
            SearchStepView::Done(Err(refusal_in(json)->0))
        } else {
            let total = if flow.page == 1 {
                json.at("total"@).at("total"@).signed()
            } else {
                Some(flow.total)
            };
            match (json.at("total"@).at("list"@).items(), total) {
                (Some(items), Some(total)) => {
                    let courses = flow.courses + items;
                    if wants_more(courses.len(), total) {
                        let page = (flow.page + 1) as i64;
                        SearchStepView::Send {
                            request: get_with_token(
                                assist,
                                search_url(flow.search, page, random),
                                flow.search.token,
                            ),
                            flow: SearchView { search: flow.search, courses, page, total },
                        }
                    } else {
                        SearchStepView::Done(Ok(courses))
                    }
                },
                _ => SearchStepView::Done(Err(ErrorOf::Malformed)),
            }
        },
    }
}

fn refusal(json: &Json) -> (error: Option<Error>)
    ensures
        error.deep_view() == refusal_in(json@),
{
    match json.i64_at("code") {
        None => Some(ErrorOf::Malformed),
        Some(code) => {
            if code == 0 {
                None
            } else {
                match json.text_at("msg") {
                    Some(words) => Some(ErrorOf::Service(words.to_owned())),
                    None => Some(ErrorOf::Malformed),
                }
            }
        },
    }
}

impl ZjuAssist {
    /// Starts to search for courses by their names and teachers: asks for the account's data.
    pub fn search_courses(&self, course_name: &str, teacher_name: &str) -> (start: Result<
        (ZjuRequestBuilder, SearchWords),
        Error,
    >)
        ensures
            !self.have_login ==> outcome(start) == Err::<
                (RequestView, SearchWordsView),
                ErrorView,
            >(ErrorOf::NotLogin),
            self.have_login ==> exists|cookies: Option<Seq<char>>|
                cookies_shown(*self.jar, CLASSROOM_SITE@, cookies) && outcome(start)
                    == search_started(
                    self.deep_view(),
                    course_name@,
                    teacher_name@,
                    #[trigger] token_in(cookies),
                ),
    {
        let token = self.get_token();
        let ghost found = outcome(token);
        let start = self.search_courses_with(course_name, teacher_name, token);
        proof {
            if self.have_login {
                let cookies = choose|cookies: Option<Seq<char>>|
                    cookies_shown(*self.jar, CLASSROOM_SITE@, cookies) && found
                        == #[trigger] token_in(cookies);
                assert(outcome(start) == search_started(
                    self.deep_view(),
                    course_name@,
                    teacher_name@,
                    token_in(cookies),
                ));
            }
        }
        start
    }

    /// Starts to search for courses with a token, if there is one.
    pub fn search_courses_with(
        &self,
        course_name: &str,
        teacher_name: &str,
        token: Result<String, Error>,
    ) -> (start: Result<(ZjuRequestBuilder, SearchWords), Error>)
        ensures
            outcome(start) == search_started(
                self.deep_view(),
                course_name@,
                teacher_name@,
                outcome(token),
            ),
    {
        match self.ask_account_with(token) {
            Ok((request, token)) => Ok(
                (
                    request,
                    SearchWords {
                        token,
                        course_name: course_name.to_owned(),
                        teacher_name: teacher_name.to_owned(),
                    },
                ),
            ),
            Err(error) => Err(error),
        }
    }

    /// Takes up the account's data.
    pub fn search_account_json(
        &self,
        words: SearchWords,
        json: &Json,
        random: &str,
    ) -> (step: SearchStep)
        ensures
            step.deep_view() == search_account_next(
                self.deep_view(),
                words.deep_view(),
                Ok(json@),
                random@,
            ),
    {
        let params = match json.get("params") {
            Some(params) => params,
            None => {
                return SearchStep::Done(Err(ErrorOf::Malformed));
            },
        };
        let account = match params.text_at("account") {
            Some(account) => account.to_owned(),
            None => {
                return SearchStep::Done(Err(ErrorOf::Malformed));
            },
        };
        let user_id: i64 = match params.i64_at("id") {
            Some(id) => id,
            None => {
                return SearchStep::Done(Err(ErrorOf::Malformed));
            },
        };
        let search = SearchOf {
            token: words.token,
            course_name: words.course_name,
            teacher_name: words.teacher_name,
            account,
            user_id,
        };
        let courses: Vec<Json> = Vec::new();
        assert(courses.deep_view() =~= Seq::<JsonView>::empty());
        SearchStep::Send {
            request: self.get_showing(
                page_url(&search, 1, random).as_str(),
                search.token.as_str(),
            ),
            flow: SearchFlow { search, courses, page: 1, total: 0 },
        }
    }

    /// Takes up the reply with the account's data.
    pub fn search_account(&self, words: SearchWords, body: &[u8], random: &str) -> (step:
        SearchStep)
        ensures
            step.deep_view() == search_account_next(
                self.deep_view(),
                words.deep_view(),
                json_of_bytes(body@),
                random@,
            ),
    {
        match parse_bytes(body) {
            Ok(json) => self.search_account_json(words, &json, random),
            Err(said) => SearchStep::Done(Err(ErrorOf::NotJson(said))),
        }
    }

    /// Takes up a page of a search.
    pub fn search_json(&self, flow: SearchFlow, json: &Json, random: &str) -> (step: SearchStep)
        requires
            flow.page < i64::MAX,
        ensures
            step.deep_view() == search_next(
                self.deep_view(),
                flow.deep_view(),
                Ok(json@),
                random@,
            ),
    {
        let ghost start = flow.deep_view();
        let SearchFlow { search, courses, page, total } = flow;
        let mut courses = courses;
        if page == 1 {
            if let Some(error) = refusal(json) {
                return SearchStep::Done(Err(error));
            }
        }
        let found = match json.get("total") {
            Some(found) => found,
            None => {
                return SearchStep::Done(Err(ErrorOf::Malformed));
            },
        };
        let items = match found.array_at("list") {
            Some(items) => items,
            None => {
                return SearchStep::Done(Err(ErrorOf::Malformed));
            },
        };
        let total: i64 = if page == 1 {
            match found.i64_at("total") {
                Some(total) => total,
                None => {
                    return SearchStep::Done(Err(ErrorOf::Malformed));
                },
            }
        } else {
            total
        };
        let mut more = duplicate_all(items);
        let ghost added = more.deep_view();
        courses.append(&mut more);
        assert(courses.deep_view() =~= start.courses + added);
        if more_wanted(courses.len(), total) {
            let next: i64 = page + 1;
            SearchStep::Send {
                request: self.get_showing(
                    page_url(&search, next, random).as_str(),
                    search.token.as_str(),
                ),
                flow: SearchFlow { search, courses, page: next, total },
            }
        } else {
            SearchStep::Done(Ok(courses))
        }
    }

    /// Takes up the reply with a page of a search.
    pub fn search_reply(&self, flow: SearchFlow, body: &[u8], random: &str) -> (step: SearchStep)
        requires
            flow.page < i64::MAX,
        ensures
            step.deep_view() == search_next(
                self.deep_view(),
                flow.deep_view(),
                json_of_bytes(body@),
                random@,
            ),
    {
        match parse_bytes(body) {
            Ok(json) => self.search_json(flow, &json, random),
            Err(words) => SearchStep::Done(Err(ErrorOf::NotJson(words))),
        }
    }
}

/// The step after a run of pages, each with the random text of the request that follows.
pub open spec fn search_run(
    assist: AssistView,
    first: SearchView,
    pages: Seq<(JsonView, Seq<char>)>,
) -> SearchStepView
    recommends
        pages.len() > 0,
    decreases pages.len(),
{
    if pages.len() <= 1 {
        search_next(assist, first, Ok(pages[0].0), pages[0].1)
    } else {
        match search_run(assist, first, pages.drop_last()) {
            SearchStepView::Send { flow, .. } => search_next(
                assist,
                flow,
                Ok(pages.last().0),
                pages.last().1,
            ),
            done => done,
        }
    }
}

/// The courses of all pages, in order.
pub open spec fn all_found(pages: Seq<(JsonView, Seq<char>)>) -> Seq<JsonView>
    decreases pages.len(),
{
    if pages.len() == 0 {
        Seq::empty()
    } else {
        all_found(pages.drop_last()) + pages.last().0.at("total"@).at("list"@).items()->0
    }
}

/// A search asks for page after page while fewer courses are found than the first page says, and
/// ends with the courses of all pages in their order.
pub proof fn search_is_all_pages(
    assist: AssistView,
    first: SearchView,
    pages: Seq<(JsonView, Seq<char>)>,
    total: i64,
)
    requires
        first.page == 1,
        first.courses == Seq::<JsonView>::empty(),
        0 < pages.len() < i64::MAX - 1,
        refusal_in(pages[0].0) is None,
        pages[0].0.at("total"@).at("total"@).signed() == Some(total),
        forall|i: int|
            0 <= i < pages.len() ==> (#[trigger] pages[i]).0.at("total"@).at("list"@).items()
                is Some,
        forall|k: int|
            0 < k < pages.len() ==> wants_more(
                (#[trigger] all_found(pages.take(k))).len(),
                total,
            ),
    ensures
        search_run(assist, first, pages) == if wants_more(all_found(pages).len(), total) {
            let page = (pages.len() + 1) as i64;
            SearchStepView::Send {
                request: get_with_token(
                    assist,
                    search_url(first.search, page, pages.last().1),
                    first.search.token,
                ),
                flow: SearchView {
                    search: first.search,
                    courses: all_found(pages),
                    page,
                    total,
                },
            }
        } else {
            SearchStepView::Done(Ok(all_found(pages)))
        },
    decreases pages.len(),
{
    let head = pages.drop_last();
    assert(pages[pages.len() - 1].0.at("total"@).at("list"@).items() is Some);
    if pages.len() == 1 {
        assert(head =~= Seq::<(JsonView, Seq<char>)>::empty());
        assert(all_found(head) =~= Seq::<JsonView>::empty());
    } else {
        assert forall|k: int| 0 < k < head.len() implies wants_more(
            (#[trigger] all_found(head.take(k))).len(),
            total,
        ) by {
            assert(head.take(k) =~= pages.take(k));
        }
        search_is_all_pages(assist, first, head, total);
        assert(pages.take(pages.len() - 1) =~= head);
    }
}

// ---------------------------------------------------------------- what a search says

/// A reply refuses a search exactly where its code is another number than zero, with its own
/// words, or where it has none.
pub proof fn a_reply_refuses_by_its_code(json: JsonView, code: i64, words: Seq<char>)
    ensures
        refusal_in(json) is None <==> json.at("code"@).signed() == Some(0i64),
        json.at("code"@).signed() == Some(code) && code != 0 && json.at("msg"@).text() == Some(
            words,
        ) ==> refusal_in(json) == Some(ErrorView::Service(words)),
        json.at("code"@).signed() is None ==> refusal_in(json) == Some(ErrorView::Malformed),
        json.at("code"@).signed() == Some(code) && code != 0 && json.at("msg"@).text() is None
            ==> refusal_in(json) == Some(ErrorView::Malformed),
{
}

/// A search goes page by page until it has as many courses as there are: the courses of a page go
/// behind those of the pages before. How many there are, the first page says, and it alone can
/// refuse the search.
pub proof fn a_search_goes_page_by_page(
    assist: AssistView,
    flow: SearchView,
    json: JsonView,
    random: Seq<char>,
)
    requires
        1 <= flow.page < i64::MAX,
    ensures
        ({
            let listed = json.at("total"@).at("list"@).items();
            let total = if flow.page == 1 {
                json.at("total"@).at("total"@).signed()
            } else {
                Some(flow.total)
            };
            match search_next(assist, flow, Ok(json), random) {
                SearchStepView::Send { request, flow: next } => {
                    &&& total == Some(next.total)
                    &&& next.total < 0 || next.courses.len() < next.total
                    &&& next.page == flow.page + 1
                    &&& next.search == flow.search
                    &&& request.url == search_url(flow.search, next.page, random)
                    &&& request.method is Get
                    &&& request.headers[1] == ("authorization"@, "Bearer "@ + flow.search.token)
                    &&& next.courses.len() >= flow.courses.len()
                    &&& next.courses.take(flow.courses.len() as int) == flow.courses
                    &&& listed == Some(next.courses.skip(flow.courses.len() as int))
                    &&& flow.page == 1 ==> json.at("code"@).signed() == Some(0i64)
                },
                SearchStepView::Done(Ok(all)) => {
                    &&& total matches Some(n) && 0 <= n <= all.len()
                    &&& all.len() >= flow.courses.len()
                    &&& all.take(flow.courses.len() as int) == flow.courses
                    &&& listed == Some(all.skip(flow.courses.len() as int))
                    &&& flow.page == 1 ==> json.at("code"@).signed() == Some(0i64)
                },
                SearchStepView::Done(Err(error)) => {
                    ||| flow.page == 1 && json.at("code"@).signed() != Some(0i64)
                    ||| error == ErrorView::Malformed && (listed is None || total is None)
                },
            }
        }),
{
    if let Some(items) = json.at("total"@).at("list"@).items() {
        let all = flow.courses + items;
        assert(all.take(flow.courses.len() as int) =~= flow.courses);
        assert(all.skip(flow.courses.len() as int) =~= items);
    }
}

/// Two pages of a search have two addresses.
pub proof fn pages_are_searched_apart(
    search: SearchOf<Seq<char>>,
    one: i64,
    other: i64,
    random: Seq<char>,
)
    requires
        one != other,
    ensures
        search_url(search, one, random) != search_url(search, other, random),
{
    let head = SEARCH_URL_HEAD@ + decimal(search.user_id as int) + "&user_name="@ + search.account
        + "&page="@;
    let tail = "&per_page=16&title="@ + search.course_name + "&realname="@ + search.teacher_name
        + "&trans=&tenant_code=112&randomKey="@ + random;
    assert(search_url(search, one, random) =~= head + decimal(one as int) + tail);
    assert(search_url(search, other, random) =~= head + decimal(other as int) + tail);
    if search_url(search, one, random) == search_url(search, other, random) {
        numbers_are_written_apart(head, one, other, tail);
    }
}

/// With the account, the first page is asked for: by the number and the name of the account that
/// the reply gives, and by the words of the search.
pub proof fn a_search_starts_with_its_account(
    assist: AssistView,
    words: SearchWordsView,
    json: JsonView,
    random: Seq<char>,
)
    ensures
        match search_account_next(assist, words, Ok(json), random) {
            SearchStepView::Send { request, flow } => {
                &&& json.at("params"@).at("account"@).text() == Some(flow.search.account)
                &&& json.at("params"@).at("id"@).signed() == Some(flow.search.user_id)
                &&& flow.search.token == words.token
                &&& flow.search.course_name == words.course_name
                &&& flow.search.teacher_name == words.teacher_name
                &&& flow.page == 1 && flow.courses.len() == 0 && flow.total == 0
                &&& request.url == search_url(flow.search, 1, random)
                &&& request.headers[1] == ("authorization"@, "Bearer "@ + words.token)
            },
            SearchStepView::Done(result) => {
                &&& result == Err::<Seq<JsonView>, ErrorView>(ErrorView::Malformed)
                &&& json.at("params"@).at("account"@).text() is None || json.at("params"@).at(
                    "id"@,
                ).signed() is None
            },
        },
{
}

/// The address of a search names who searches and the page in front, and behind them the title, the
/// teacher, and the word that is new each time, each after its own mark.
pub proof fn a_search_names_each_word_behind_its_mark(
    search: SearchOf<Seq<char>>,
    page: i64,
    random: Seq<char>,
)
    ensures
        ({
            let front = decimal(search.user_id as int) + "&user_name="@ + search.account
                + "&page="@ + decimal(page as int);
            let back = "&per_page=16&title="@ + search.course_name + "&realname="@
                + search.teacher_name + "&trans=&tenant_code=112&randomKey="@ + random;
            &&& contains_text(search_url(search, page, random), front)
            &&& ends_in(search_url(search, page, random), back)
        }),
{
    let front = decimal(search.user_id as int) + "&user_name="@ + search.account + "&page="@
        + decimal(page as int);
    let back = "&per_page=16&title="@ + search.course_name + "&realname="@ + search.teacher_name
        + "&trans=&tenant_code=112&randomKey="@ + random;
    let url = search_url(search, page, random);
    assert(url =~= SEARCH_URL_HEAD@ + front + back);
    a_part_is_found_where_it_stands(SEARCH_URL_HEAD@, front, back);
    a_part_is_found_where_it_stands(SEARCH_URL_HEAD@ + front, back, Seq::empty());
}

} // verus!
