//! The capture of live transcripts: where a lecture's transcript comes from, and the sessions
//! that capture one.
use vstd::prelude::*;
use crate::boundary::{cookies_shown, CLASSROOM_SITE};
use crate::classroom::asked_with;
use crate::courses::with_number;
use crate::error::{outcome, Error, ErrorOf, ErrorView};
use crate::json::{
    duplicate_all, json_of_bytes, json_of_text, parse_bytes, parse_text, Json, JsonView,
};
use crate::login::token_in;
use crate::numeral::{decimal, i64_of, numbers_are_written_apart, parse_i64};
use crate::request::{RequestView, ZjuRequestBuilder};
use crate::text::{
    a_part_is_found_where_it_stands, after_prefix, all_space, ends_in, ends_with, is_white_space, occurs_at,
    strip_prefix, trailing_characters_are_the_last_part, trim, trim_slashes, trimmed,
    trimming_takes_the_space_around,    without_leading_space, without_trailing, without_trailing_space,
};
use crate::zju_assist::ZjuAssist;

verus! {

// ---------------------------------------------------------------- the address of the socket

/// The address with a secure socket's scheme in place of one of three others.
pub open spec fn secure_scheme(url: Seq<char>) -> Seq<char> {
    match after_prefix(url, "https://"@) {
        Some(rest) => "wss://"@ + rest,
        None => match after_prefix(url, "http://"@) {
            Some(rest) => "wss://"@ + rest,
            None => match after_prefix(url, "ws://"@) {
                Some(rest) => "wss://"@ + rest,
                None => url,
            },
        },
    }
}

/// The address with the path of the socket at its end.
pub open spec fn with_socket_path(url: Seq<char>) -> Seq<char> {
    if ends_in(url, "/glue/ws"@) {
        url
    } else {
        without_trailing(url, set!['/']) + "/glue/ws"@
    }
}

/// The address under which a transcript is sent.
pub open spec fn live_ws_url(url: Seq<char>) -> Seq<char> {
    with_socket_path(secure_scheme(trimmed(url)))
}

fn secured(url: &str) -> (secured: String)
    ensures
        secured@ == secure_scheme(url@),
{
    let rest = match strip_prefix(url, "https://") {
        Some(rest) => Some(rest),
        None => match strip_prefix(url, "http://") {
            Some(rest) => Some(rest),
            None => strip_prefix(url, "ws://"),
        },
    };
    match rest {
        Some(rest) => {
            let mut secured = "wss://".to_owned();
            secured.append(rest.as_str());
            secured
        },
        None => url.to_owned(),
    }
}

impl ZjuAssist {
    /// The address under which a transcript is sent.
    pub fn normalize_live_ws_url(trans_socket_url: &str) -> (ws_url: String)
        ensures
            ws_url@ == live_ws_url(trans_socket_url@),
    {
        let ws_url = secured(trim(trans_socket_url).as_str());
        if ends_with(ws_url.as_str(), "/glue/ws") {
            return ws_url;
        }
        let mut ws_url = trim_slashes(ws_url.as_str());
        ws_url.append("/glue/ws");
        ws_url
    }
}

/// The address under which a transcript is sent ends with the path of the socket.
pub proof fn ws_url_ends_with_the_path(url: Seq<char>)
    ensures
        ends_in(live_ws_url(url), "/glue/ws"@),
{
    let head = secure_scheme(trimmed(url));
    if !ends_in(head, "/glue/ws"@) {
        let start = without_trailing(head, set!['/']);
        assert((start + "/glue/ws"@).subrange(
            start.len() as int,
            (start.len() + "/glue/ws"@.len()) as int,
        ) =~= "/glue/ws"@);
    }
}

proof fn trimmed_has_no_space_at_its_ends(s: Seq<char>)
    ensures
        trimmed(s).len() > 0 ==> !is_white_space(trimmed(s).first()) && !is_white_space(
            trimmed(s).last(),
        ),
{
    leading_space_is_gone(s);
    trailing_space_is_gone(without_leading_space(s));
}

proof fn leading_space_is_gone(s: Seq<char>)
    ensures
        without_leading_space(s).len() > 0 ==> !is_white_space(without_leading_space(s).first()),
    decreases s.len(),
{
    if s.len() > 0 && is_white_space(s.first()) {
        leading_space_is_gone(s.skip(1));
    }
}

proof fn trailing_space_is_gone(s: Seq<char>)
    ensures
        without_trailing_space(s).len() > 0 ==> !is_white_space(without_trailing_space(s).last())
            && without_trailing_space(s).first() == s.first(),
    decreases s.len(),
{
    if s.len() > 0 && is_white_space(s.last()) {
        trailing_space_is_gone(s.drop_last());
    }
}

proof fn slashes_are_gone(s: Seq<char>)
    ensures
        ({
            let t = without_trailing(s, set!['/']);
            &&& t.len() <= s.len()
            &&& t =~= s.take(t.len() as int)
            &&& t.len() > 0 ==> t.last() != '/'
            &&& forall|i: int| t.len() <= i < s.len() ==> s[i] == '/'
        }),
    decreases s.len(),
{
    if s.len() > 0 && s.last() == '/' {
        slashes_are_gone(s.drop_last());
        assert(forall|i: int| 0 <= i < s.len() - 1 ==> s[i] == s.drop_last()[i]);
    }
}

/// A scheme with two slashes stands before the path only where it stood before.
proof fn path_brings_no_scheme(url: Seq<char>, scheme: Seq<char>)
    requires
        !occurs_at(url, scheme, 0),
        3 <= scheme.len(),
        scheme[scheme.len() - 1] == '/',
        scheme[scheme.len() - 2] == '/',
        forall|i: int| 0 <= i < scheme.len() - 2 ==> scheme[i] != '/',
    ensures
        !occurs_at(with_socket_path(url), scheme, 0),
{
    reveal_strlit("/glue/ws");
    let path = with_socket_path(url);
    if !ends_in(url, "/glue/ws"@) && occurs_at(path, scheme, 0) {
        slashes_are_gone(url);
        let start = without_trailing(url, set!['/']);
        assert(forall|i: int| 0 <= i < scheme.len() ==> path.subrange(0, scheme.len() as int)[i]
            == path[i]);
        if start.len() >= scheme.len() {
            assert(url.subrange(0, scheme.len() as int) =~= scheme);
        } else {
            assert(path[start.len() as int] == '/');
            if start.len() == scheme.len() - 2 {
                assert(path[(start.len() + 1) as int] == 'g');
            } else {
                assert(start.last() == path[start.len() - 1]);
            }
        }
    }
}

/// An address under which a transcript is sent is not changed any more.
pub proof fn ws_url_is_found_once(url: Seq<char>)
    ensures
        live_ws_url(live_ws_url(url)) == live_ws_url(url),
{
    reveal_strlit("/glue/ws");
    reveal_strlit("https://");
    reveal_strlit("http://");
    reveal_strlit("ws://");
    reveal_strlit("wss://");
    let bare = trimmed(url);
    let head = secure_scheme(bare);
    let path = live_ws_url(url);
    ws_url_ends_with_the_path(url);
    trimmed_has_no_space_at_its_ends(url);
    slashes_are_gone(head);
    assert(path.subrange(path.len() - 8, path.len() as int)[7] == path.last());
    if head.len() > 0 {
        assert(!is_white_space(head.first()));
    }
    assert(!is_white_space(path.first()));
    assert(trimmed(path) == path);
    if head == bare && after_prefix(bare, "https://"@) is None && after_prefix(bare, "http://"@)
        is None && after_prefix(bare, "ws://"@) is None {
        path_brings_no_scheme(head, "https://"@);
        path_brings_no_scheme(head, "http://"@);
        path_brings_no_scheme(head, "ws://"@);
    } else {
        assert(head[0] == 'w' && head[1] == 's' && head[2] == 's' && head[3] == ':');
        assert(path[0] == 'w' && path[1] == 's' && path[2] == 's');
        assert(path.subrange(0, 8)[0] == 'w');
        assert(path.subrange(0, 7)[0] == 'w');
        assert(path.subrange(0, 5)[2] == 's');
    }
    assert(secure_scheme(path) == path);
}

// ---------------------------------------------------------------- finding the socket

/// Where the lectures of a course are listed with their sockets.
pub open spec fn catalogue_url(course_id: i64) -> Seq<char> {
    "https://yjapi.cmc.zju.edu.cn/courseapi/v2/course/catalogue?course_id="@ + decimal(
        course_id as int,
    )
}

/// The lectures under the nodes of a catalogue.
pub open spec fn node_lectures(nodes: Seq<JsonView>) -> Seq<JsonView>
    decreases nodes.len(),
{
    if nodes.len() == 0 {
        Seq::empty()
    } else {
        let before = node_lectures(nodes.drop_last());
        match nodes.last().at("sub"@).items() {
            Some(lectures) => before + lectures,
            None => before,
        }
    }
}

/// All lectures in a catalogue: those under its nodes, then those in a plain list.
pub open spec fn catalogue_lectures(json: JsonView) -> Seq<JsonView> {
    let nodes = match json.at("data"@).at("course"@).at("catalogue"@).items() {
        Some(nodes) => node_lectures(nodes),
        None => Seq::empty(),
    };
    match json.at("result"@).at("data"@).items() {
        Some(lectures) => nodes + lectures,
        None => nodes,
    }
}

/// The number of a lecture in a catalogue, written as a text or as a number.
pub open spec fn lecture_number(lecture: JsonView) -> Option<i64> {
    let field = match lecture.get("sub_id"@) {
        Some(field) => Some(field),
        None => lecture.get("id"@),
    };
    match field {
        None => None,
        Some(field) => match field.text() {
            Some(text) => i64_of(text),
            None => field.signed(),
        },
    }
}

/// The content of a lecture: an object, or a JSON text.
pub open spec fn lecture_content(lecture: JsonView) -> Result<JsonView, Seq<char>> {
    let content = lecture.at("content"@);
    match content.text() {
        Some(text) => json_of_text(text),
        None => Ok(content),
    }
}

/// The address of the socket in the content of a lecture.
pub open spec fn socket_in(content: JsonView) -> Option<Seq<char>> {
    content.at("trans_socket_url"@).text()
}

/// The address of the socket of the first lecture with a number that has one; a lecture with
/// that number whose content cannot be read ends the search.
pub open spec fn socket_among(lectures: Seq<JsonView>, sub_id: i64) -> Result<
    Seq<char>,
    ErrorView,
>
    decreases lectures.len(),
{
    if lectures.len() == 0 {
        Err(ErrorOf::SocketUrlNotFound(sub_id))
    } else if lecture_number(lectures.first()) != Some(sub_id) {
        socket_among(lectures.skip(1), sub_id)
    } else {
        match lecture_content(lectures.first()) {
            Err(words) => Err(ErrorOf::SubContent(words)),
            Ok(content) => match socket_in(content) {
                Some(url) => Ok(url),
                None => socket_among(lectures.skip(1), sub_id),
            },
        }
    }
}

/// The address of the socket of a lecture, in a reply with the catalogue.
pub open spec fn socket_found(reply: Result<JsonView, Seq<char>>, sub_id: i64) -> Result<
    Seq<char>,
    ErrorView,
> {
    match reply {
        Err(words) => Err(ErrorOf::NotJson(words)),
        Ok(json) => socket_among(catalogue_lectures(json), sub_id),
    }
}

fn number_of(lecture: &Json) -> (number: Option<i64>)
    ensures
        number == lecture_number(lecture@),
{
    let field = match lecture.get("sub_id") {
        Some(field) => field,
        None => match lecture.get("id") {
            Some(field) => field,
            None => {
                return None;
            },
        },
    };
    match field.as_text() {
        Some(text) => parse_i64(text),
        None => field.as_i64(),
    }
}

/// The address of the socket in the content of a lecture.
pub fn socket_of(content: &Json) -> (url: Option<String>)
    ensures
        url.deep_view() == socket_in(content@),
{
    match content.text_at("trans_socket_url") {
        Some(url) => Some(url.to_owned()),
        None => None,
    }
}

/// The address of the socket in the content of a lecture, where the content can be read.
fn socket_of_lecture(lecture: &Json) -> (url: Result<Option<String>, String>)
    ensures
        match lecture_content(lecture@) {
            Ok(content) => url matches Ok(found) && found.deep_view() == socket_in(content),
            Err(words) => url matches Err(said) && said@ == words,
        },
{
    match lecture.get("content") {
        None => Ok(None),
        Some(content) => match content.as_text() {
            Some(text) => match parse_text(text) {
                Ok(content) => Ok(socket_of(&content)),
                Err(words) => Err(words),
            },
            None => Ok(socket_of(content)),
        },
    }
}

/// Looks through lectures for the socket of one.
fn search_lectures(lectures: &Vec<Json>, sub_id: i64) -> (url: Result<String, Error>)
    ensures
        outcome(url) == socket_among(lectures.deep_view(), sub_id),
{
    let ghost all = lectures.deep_view();
    assert(all.skip(0) =~= all);
    for i in 0..lectures.len()
        invariant
            all == lectures.deep_view(),
            socket_among(all, sub_id) == socket_among(all.skip(i as int), sub_id),
    {
        assert(all[i as int] == lectures@[i as int]@);
        assert(all.skip(i as int).skip(1) =~= all.skip(i + 1));
        let lecture = &lectures[i];
        if number_of(lecture) == Some(sub_id) {
            match socket_of_lecture(lecture) {
                Err(words) => {
                    return Err(ErrorOf::SubContent(words));
                },
                Ok(Some(url)) => {
                    return Ok(url);
                },
                Ok(None) => {},
            }
        }
    }
    Err(ErrorOf::SocketUrlNotFound(sub_id))
}

/// The lectures under the nodes of a catalogue.
fn lectures_of_nodes(nodes: &Vec<Json>) -> (lectures: Vec<Json>)
    ensures
        lectures.deep_view() == node_lectures(nodes.deep_view()),
{
    let ghost all = nodes.deep_view();
    let mut lectures: Vec<Json> = Vec::new();
    assert(lectures.deep_view() =~= Seq::<JsonView>::empty());
    for i in 0..nodes.len()
        invariant
            all == nodes.deep_view(),
            lectures.deep_view() == node_lectures(all.take(i as int)),
    {
        assert(all.take(i + 1).drop_last() =~= all.take(i as int));
        assert(all[i as int] == nodes@[i as int]@);
        if let Some(items) = nodes[i].array_at("sub") {
            let ghost before = lectures.deep_view();
            let mut more = duplicate_all(items);
            lectures.append(&mut more);
            assert(lectures.deep_view() =~= before + items.deep_view());
        }
    }
    assert(all.take(all.len() as int) =~= all);
    lectures
}

impl ZjuAssist {
    /// Asks for the catalogue of a course, in which the sockets of its lectures are.
    pub fn get_trans_socket_url(&self, course_id: i64) -> (request: Result<
        ZjuRequestBuilder,
        Error,
    >)
        ensures
            !self.have_login ==> outcome(request) == Err::<RequestView, ErrorView>(
                ErrorOf::NotLogin,
            ),
            self.have_login ==> exists|cookies: Option<Seq<char>>|
                cookies_shown(*self.jar, CLASSROOM_SITE@, cookies) && outcome(request)
                    == asked_with(
                    self.deep_view(),
                    catalogue_url(course_id),
                    #[trigger] token_in(cookies),
                ),
    {
        let token = self.get_token();
        let ghost found = outcome(token);
        let request = self.ask_catalogue(course_id, token);
        proof {
            if self.have_login {
                let cookies = choose|cookies: Option<Seq<char>>|
                    cookies_shown(*self.jar, CLASSROOM_SITE@, cookies) && found
                        == #[trigger] token_in(cookies);
                assert(outcome(request) == asked_with(
                    self.deep_view(),
                    catalogue_url(course_id),
                    token_in(cookies),
                ));
            }
        }
        request
    }

    /// Asks for the catalogue of a course with a token, if there is one.
    pub fn ask_catalogue(&self, course_id: i64, token: Result<String, Error>) -> (request: Result<
        ZjuRequestBuilder,
        Error,
    >)
        ensures
            outcome(request) == asked_with(
                self.deep_view(),
                catalogue_url(course_id),
                outcome(token),
            ),
    {
        let url = with_number(
            "https://yjapi.cmc.zju.edu.cn/courseapi/v2/course/catalogue?course_id=",
            course_id,
            "",
        );
        proof {
            reveal_strlit("");
            assert(url@ =~= catalogue_url(course_id));
        }
        self.ask_showing(url.as_str(), token)
    }

    /// The address of the socket of a lecture, in a catalogue.
    pub fn trans_socket_url_in(json: &Json, sub_id: i64) -> (url: Result<String, Error>)
        ensures
            outcome(url) == socket_found(Ok(json@), sub_id),
    {
        let nodes = match json.get("data") {
            Some(data) => match data.get("course") {
                Some(course) => course.array_at("catalogue"),
                None => None,
            },
            None => None,
        };
        let mut lectures: Vec<Json> = match nodes {
            Some(nodes) => lectures_of_nodes(nodes),
            None => Vec::new(),
        };
        let ghost first = match nodes {
            Some(nodes) => node_lectures(nodes.deep_view()),
            None => Seq::empty(),
        };
        assert(lectures.deep_view() =~= first);
        if let Some(result) = json.get("result") {
            if let Some(items) = result.array_at("data") {
                let mut more = duplicate_all(items);
                lectures.append(&mut more);
                assert(lectures.deep_view() =~= first + items.deep_view());
            }
        }
        search_lectures(&lectures, sub_id)
    }

    /// The address of the socket of a lecture, in a reply with the catalogue.
    pub fn trans_socket_url(body: &[u8], sub_id: i64) -> (url: Result<String, Error>)
        ensures
            outcome(url) == socket_found(json_of_bytes(body@), sub_id),
    {
        match parse_bytes(body) {
            Ok(json) => ZjuAssist::trans_socket_url_in(&json, sub_id),
            Err(words) => Err(ErrorOf::NotJson(words)),
        }
    }
}

// ---------------------------------------------------------------- what a catalogue holds

/// An address of any of the schemes becomes one of the secure scheme for sockets, and nothing
/// behind the scheme changes.
pub proof fn every_scheme_becomes_the_secure_one(rest: Seq<char>)
    ensures
        secure_scheme("https://"@ + rest) == "wss://"@ + rest,
        secure_scheme("http://"@ + rest) == "wss://"@ + rest,
        secure_scheme("ws://"@ + rest) == "wss://"@ + rest,
        secure_scheme("wss://"@ + rest) == "wss://"@ + rest,
{
    reveal_strlit("https://");
    reveal_strlit("http://");
    reveal_strlit("ws://");
    reveal_strlit("wss://");
    let empty = Seq::<char>::empty();
    a_part_is_found_where_it_stands(empty, "https://"@, rest);
    a_part_is_found_where_it_stands(empty, "http://"@, rest);
    a_part_is_found_where_it_stands(empty, "ws://"@, rest);
    let plain = "http://"@ + rest;
    if occurs_at(plain, "https://"@, 0) {
        assert(plain.subrange(0, 8)[4] == "https://"@[4]);
        assert(plain[4] == "http://"@[4]);
    }
    let socket = "ws://"@ + rest;
    if occurs_at(socket, "https://"@, 0) {
        assert(socket.subrange(0, 8)[0] == "https://"@[0]);
        assert(socket[0] == "ws://"@[0]);
    }
    if occurs_at(socket, "http://"@, 0) {
        assert(socket.subrange(0, 7)[0] == "http://"@[0]);
        assert(socket[0] == "ws://"@[0]);
    }
    let secure = "wss://"@ + rest;
    if occurs_at(secure, "https://"@, 0) {
        assert(secure.subrange(0, 8)[0] == "https://"@[0]);
        assert(secure[0] == "wss://"@[0]);
    }
    if occurs_at(secure, "http://"@, 0) {
        assert(secure.subrange(0, 7)[0] == "http://"@[0]);
        assert(secure[0] == "wss://"@[0]);
    }
    if occurs_at(secure, "ws://"@, 0) {
        assert(secure.subrange(0, 5)[2] == "ws://"@[2]);
        assert(secure[2] == "wss://"@[2]);
    }
}

/// An address that ends in the path for sockets stays as it is; of any other the slashes at its
/// end make way for the path.
pub proof fn the_path_takes_the_place_of_slashes(base: Seq<char>, slashes: Seq<char>)
    requires
        base.len() > 0 ==> base.last() != '/',
        forall|i: int| 0 <= i < slashes.len() ==> #[trigger] slashes[i] == '/',
    ensures
        with_socket_path(base + "/glue/ws"@) == base + "/glue/ws"@,
        slashes.len() > 0 ==> with_socket_path(base + slashes) == base + "/glue/ws"@,
        (forall|start: Seq<char>| base != #[trigger] (start + "/glue/ws"@)) ==> with_socket_path(
            base,
        ) == base + "/glue/ws"@,
{
    reveal_strlit("/glue/ws");
    a_part_is_found_where_it_stands(base, "/glue/ws"@, Seq::empty());
    let all = base + slashes;
    let cs = set!['/'];
    trailing_characters_are_the_last_part(all, cs);
    let kept = without_trailing(all, cs);
    if kept.len() < base.len() {
        assert(all[base.len() - 1] == base.last());
    } else if kept.len() > base.len() {
        assert(kept.last() == all[kept.len() - 1]);
        assert(all[kept.len() - 1] == slashes[kept.len() - 1 - base.len()]);
    }
    assert(kept =~= base);
    if slashes.len() > 0 && ends_in(all, "/glue/ws"@) {
        let at = all.len() - 8;
        assert(all.subrange(at, at + 8)[7] == "/glue/ws"@[7]);
        assert(all[all.len() - 1] == slashes.last());
    }
    if ends_in(base, "/glue/ws"@) {
        let start = base.take(base.len() - 8);
        assert(base.subrange(base.len() - 8, base.len() as int) == "/glue/ws"@);
        assert(base =~= start + "/glue/ws"@);
    }
    trailing_characters_are_the_last_part(base, cs);
    let alone = without_trailing(base, cs);
    if alone.len() < base.len() {
        assert(cs.contains(base[base.len() - 1]));
    }
    assert(alone =~= base);
}

/// The lectures of one chapter more stand behind those of the others.
pub proof fn chapters_keep_their_order(nodes: Seq<JsonView>, node: JsonView)
    ensures
        node_lectures(Seq::empty()).len() == 0,
        node.at("sub"@).items() is None ==> node_lectures(nodes.push(node)) == node_lectures(nodes),
        node.at("sub"@).items() matches Some(lectures) ==> node_lectures(nodes.push(node))
            == node_lectures(nodes) + lectures,
{
    assert(nodes.push(node).drop_last() =~= nodes);
}

/// The lectures of a catalogue are those of its chapters, and behind them those of its result.
pub proof fn a_catalogue_has_two_lists(json: JsonView)
    ensures
        match (
            json.at("data"@).at("course"@).at("catalogue"@).items(),
            json.at("result"@).at("data"@).items(),
        ) {
            (Some(nodes), Some(lectures)) => catalogue_lectures(json) == node_lectures(nodes)
                + lectures,
            (Some(nodes), None) => catalogue_lectures(json) == node_lectures(nodes),
            (None, Some(lectures)) => catalogue_lectures(json) == lectures,
            (None, None) => catalogue_lectures(json).len() == 0,
        },
{
    if let Some(lectures) = json.at("result"@).at("data"@).items() {
        assert(Seq::<JsonView>::empty() + lectures =~= lectures);
    }
}

/// The number of a lecture is the one in its own field for it, or that in the other field where it
/// has none: a number, or a text that is one.
pub proof fn a_lecture_has_the_number_of_its_field(lecture: JsonView, n: i64, text: Seq<char>)
    ensures
        lecture.at("sub_id"@).signed() == Some(n) ==> lecture_number(lecture) == Some(n),
        lecture.at("sub_id"@).text() == Some(text) ==> lecture_number(lecture) == i64_of(text),
        lecture.get("sub_id"@) is None && lecture.at("id"@).signed() == Some(n)
            ==> lecture_number(lecture) == Some(n),
        lecture.get("sub_id"@) is None && lecture.at("id"@).text() == Some(text)
            ==> lecture_number(lecture) == i64_of(text),
        lecture.get("sub_id"@) is None && lecture.get("id"@) is None ==> lecture_number(lecture)
            is None,
{
}

/// A lecture does not end the search for the address of a socket: it is another lecture, or has
/// no such address.
pub open spec fn is_passed_over(lecture: JsonView, sub_id: i64) -> bool {
    lecture_number(lecture) != Some(sub_id) || match lecture.at("content"@).text() {
        Some(text) => json_of_text(text) matches Ok(content) && content.at(
            "trans_socket_url"@,
        ).text() is None,
        None => lecture.at("content"@).at("trans_socket_url"@).text() is None,
    }
}

/// The address of a socket is that of the first lecture with the number that has one, in its
/// content, or in the document that its content is the text of. A content that is no document is
/// an error where the search comes to it. Without such a lecture the number is in the error.
pub proof fn the_first_socket_of_the_lecture_is_found(
    lectures: Seq<JsonView>,
    sub_id: i64,
    k: int,
    url: Seq<char>,
    text: Seq<char>,
)
    requires
        0 <= k <= lectures.len(),
        forall|i: int| 0 <= i < k ==> is_passed_over(#[trigger] lectures[i], sub_id),
    ensures
        k == lectures.len() ==> socket_among(lectures, sub_id) == Err::<Seq<char>, ErrorView>(
            ErrorView::SocketUrlNotFound(sub_id),
        ),
        k < lectures.len() && lecture_number(lectures[k]) == Some(sub_id) ==> {
            let content = lectures[k].at("content"@);
            &&& content.text() is None && content.at("trans_socket_url"@).text() == Some(url)
                ==> socket_among(lectures, sub_id) == Ok::<Seq<char>, ErrorView>(url)
            &&& content.text() == Some(text) ==> match json_of_text(text) {
                Ok(inner) => inner.at("trans_socket_url"@).text() == Some(url) ==> socket_among(
                    lectures,
                    sub_id,
                ) == Ok::<Seq<char>, ErrorView>(url),
                Err(words) => socket_among(lectures, sub_id) == Err::<Seq<char>, ErrorView>(
                    ErrorView::SubContent(words),
                ),
            }
        },
    decreases lectures.len(),
{
    if k > 0 {
        let rest = lectures.skip(1);
        assert(is_passed_over(lectures[0], sub_id));
        assert forall|i: int| 0 <= i < k - 1 implies is_passed_over(
            #[trigger] rest[i],
            sub_id,
        ) by {
            assert(is_passed_over(lectures[i + 1], sub_id));
        }
        if k < lectures.len() {
            assert(rest[k - 1] == lectures[k]);
        }
        the_first_socket_of_the_lecture_is_found(rest, sub_id, k - 1, url, text);
    }
}

/// The catalogues of two courses have two addresses.
pub proof fn catalogues_are_asked_for_apart(one: i64, other: i64)
    requires
        one != other,
    ensures
        catalogue_url(one) != catalogue_url(other),
{
    let head = "https://yjapi.cmc.zju.edu.cn/courseapi/v2/course/catalogue?course_id="@;
    let empty = Seq::<char>::empty();
    assert(catalogue_url(one) =~= head + decimal(one as int) + empty);
    assert(catalogue_url(other) =~= head + decimal(other as int) + empty);
    if catalogue_url(one) == catalogue_url(other) {
        numbers_are_written_apart(head, one, other, empty);
    }
}

/// Whatever the scheme, and whatever white space and slashes stand around an address, its socket
/// is on the same host, under the secure scheme and the path for sockets.
pub proof fn a_socket_is_on_the_host_of_the_address(
    before: Seq<char>,
    host: Seq<char>,
    slashes: Seq<char>,
    after: Seq<char>,
)
    requires
        all_space(before),
        all_space(after),
        host.len() > 0,
        host.last() != '/',
        !is_white_space(host.last()),
        forall|i: int| 0 <= i < slashes.len() ==> #[trigger] slashes[i] == '/',
        slashes.len() == 0 ==> forall|start: Seq<char>|
            "wss://"@ + host != #[trigger] (start + "/glue/ws"@),
    ensures
        live_ws_url(before + ("https://"@ + host + slashes) + after) == "wss://"@ + host
            + "/glue/ws"@,
        live_ws_url(before + ("http://"@ + host + slashes) + after) == "wss://"@ + host
            + "/glue/ws"@,
        live_ws_url(before + ("ws://"@ + host + slashes) + after) == "wss://"@ + host + "/glue/ws"@,
        live_ws_url(before + ("wss://"@ + host + slashes) + after) == "wss://"@ + host
            + "/glue/ws"@,
{
    reveal_strlit("https://");
    reveal_strlit("http://");
    reveal_strlit("ws://");
    reveal_strlit("wss://");
    let rest = host + slashes;
    let last = if slashes.len() > 0 {
        slashes.last()
    } else {
        host.last()
    };
    assert(rest.last() == last);
    assert(!is_white_space(last));
    let a = "https://"@ + host + slashes;
    let b = "http://"@ + host + slashes;
    let c = "ws://"@ + host + slashes;
    let d = "wss://"@ + host + slashes;
    assert(a =~= "https://"@ + rest && a[0] == 'h' && a.last() == last);
    assert(b =~= "http://"@ + rest && b[0] == 'h' && b.last() == last);
    assert(c =~= "ws://"@ + rest && c[0] == 'w' && c.last() == last);
    assert(d =~= "wss://"@ + rest && d[0] == 'w' && d.last() == last);
    trimming_takes_the_space_around(before, a, after);
    trimming_takes_the_space_around(before, b, after);
    trimming_takes_the_space_around(before, c, after);
    trimming_takes_the_space_around(before, d, after);
    every_scheme_becomes_the_secure_one(rest);
    let base = "wss://"@ + host;
    assert(base.last() == host.last());
    assert(d =~= base + slashes);
    the_path_takes_the_place_of_slashes(base, slashes);
    if slashes.len() == 0 {
        assert(d =~= base);
    }
}

} // verus!
