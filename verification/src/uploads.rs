//! The files of several courses: which there are, which are missing here, and how one is
//! downloaded.
use vstd::prelude::*;
use crate::boundary::{percent_decoded, percent_decoding};
use crate::courses::{activities_url, activity_uploads, with_number};
use crate::error::{outcome, Error, ErrorOf, ErrorView};
use crate::json::{json_of_bytes, Json, JsonView};
use crate::model::{Upload, UploadView};
use crate::numeral::decimal;
use crate::request::{RequestView, ZjuRequestBuilder};
use crate::sequences::{each, each_in_place, each_step};
use crate::text::{
    before_a_character_is_the_first_part, before_char, find, first_at, from_range, occurs_at, replace_char, replaced, to_chars, up_to_char,
};
use crate::zju_assist::{AssistView, ZjuAssist};

verus! {

// ---------------------------------------------------------------- the files there are

/// A course whose files are asked for; its name can stand in a path.
pub struct ListedCourse {
    pub id: i64,
    pub name: String,
    pub request: ZjuRequestBuilder,
}

/// What a course whose files are asked for says.
pub struct ListedView {
    pub id: i64,
    pub name: Seq<char>,
    pub request: RequestView,
}

impl DeepView for ListedCourse {
    type V = ListedView;

    open spec fn deep_view(&self) -> ListedView {
        ListedView { id: self.id, name: self.name@, request: self.request.deep_view() }
    }
}

/// A course in a list, with the request for its files.
pub open spec fn listed(assist: AssistView, course: JsonView) -> Option<ListedView> {
    match (course.at("id"@).signed(), course.at("name"@).text()) {
        (Some(id), Some(name)) => Some(
            ListedView {
                id,
                name: replaced(name, '/', '-'),
                request: assist.get(activities_url(id)),
            },
        ),
        _ => None,
    }
}

/// The courses in a list; what is no list has none.
pub open spec fn listed_courses(assist: AssistView, courses: JsonView) -> Result<
    Seq<ListedView>,
    ErrorView,
> {
    match courses.items() {
        None => Ok(Seq::empty()),
        Some(items) => match each(items, |course: JsonView| listed(assist, course)) {
            None => Err(ErrorOf::Malformed),
            Some(list) => if list.len() > 0 && !assist.have_login {
                Err(ErrorOf::NotLogin)
            } else {
                Ok(list)
            },
        },
    }
}

/// A file as it will be stored, from its description.
pub open spec fn upload_in(
    upload: JsonView,
    course_name: Seq<char>,
    path: Seq<char>,
) -> Option<UploadView> {
    match (
        upload.at("id"@).signed(),
        upload.at("reference_id"@).signed(),
        upload.at("name"@).text(),
    ) {
        (Some(id), Some(reference_id), Some(file_name)) => Some(
            UploadView {
                id,
                reference_id,
                file_name,
                course_name,
                path,
                size: match upload.at("size"@).unsigned() {
                    Some(size) => size,
                    None => 1000,
                },
            },
        ),
        _ => None,
    }
}

/// The files of a course in a reply, to be stored under a path.
pub open spec fn course_uploads(
    reply: Result<JsonView, Seq<char>>,
    course_name: Seq<char>,
    path: Seq<char>,
) -> Result<Seq<UploadView>, ErrorView> {
    match activity_uploads(reply) {
        Err(error) => Err(error),
        Ok(uploads) => match each(
            uploads,
            |upload: JsonView| upload_in(upload, course_name, path),
        ) {
            None => Err(ErrorOf::Malformed),
            Some(list) => Ok(list),
        },
    }
}

fn listed_course(assist: &ZjuAssist, course: &Json) -> (found: Option<ListedCourse>)
    ensures
        found.deep_view() == listed(assist.deep_view(), course@),
{
    match (course.i64_at("id"), course.text_at("name")) {
        (Some(id), Some(name)) => {
            let url = with_number(
                "https://courses.zju.edu.cn/api/courses/",
                id,
                "/activities",
            );
            Some(
                ListedCourse {
                    id,
                    name: replace_char(name, '/', '-'),
                    request: assist.get(url.as_str()),
                },
            )
        },
        _ => None,
    }
}

/// Starts to list the files of courses: each course with the request for its files.
pub fn get_uploads_list_core(assist: &ZjuAssist, courses: &Json) -> (list: Result<
    Vec<ListedCourse>,
    Error,
>)
    ensures
        outcome(list) == listed_courses(assist.deep_view(), courses@),
{
    let mut list: Vec<ListedCourse> = Vec::new();
    assert(list.deep_view() =~= Seq::<ListedView>::empty());
    let items = match courses.as_array() {
        Some(items) => items,
        None => {
            return Ok(list);
        },
    };
    let ghost all = items.deep_view();
    let ghost view = assist.deep_view();
    let ghost f = |course: JsonView| listed(view, course);
    for i in 0..items.len()
        invariant
            all == items.deep_view(),
            view == assist.deep_view(),
            f == (|course: JsonView| listed(view, course)),
            courses@.items() == Some(all),
            each(all.take(i as int), f) == Some(list.deep_view()),
    {
        proof {
            each_step(all, f, i as int);
        }
        assert(all[i as int] == items@[i as int]@);
        match listed_course(assist, &items[i]) {
            Some(course) => {
                let ghost before = list.deep_view();
                list.push(course);
                assert(list.deep_view() =~= before.push(course.deep_view()));
            },
            None => {
                return Err(ErrorOf::Malformed);
            },
        }
    }
    assert(all.take(all.len() as int) =~= all);
    assert(list.deep_view().len() == list@.len());
    if list.len() > 0 && !assist.have_login {
        return Err(ErrorOf::NotLogin);
    }
    Ok(list)
}

fn upload_of(upload: &Json, course_name: &str, path: &str) -> (found: Option<Upload>)
    ensures
        found.deep_view() == upload_in(upload@, course_name@, path@),
{
    match (upload.i64_at("id"), upload.i64_at("reference_id"), upload.text_at("name")) {
        (Some(id), Some(reference_id), Some(file_name)) => Some(
            Upload {
                id,
                reference_id,
                file_name: file_name.to_owned(),
                course_name: course_name.to_owned(),
                path: path.to_owned(),
                size: match upload.u64_at("size") {
                    Some(size) => size,
                    None => 1000,
                },
            },
        ),
        _ => None,
    }
}

/// The files that descriptions describe, to be stored under a path.
pub fn uploads_described(uploads: &Vec<Json>, course_name: &str, path: &str) -> (list: Option<
    Vec<Upload>,
>)
    ensures
        list.deep_view() == each(
            uploads.deep_view(),
            |upload: JsonView| upload_in(upload, course_name@, path@),
        ),
{
    let ghost all = uploads.deep_view();
    let ghost f = |upload: JsonView| upload_in(upload, course_name@, path@);
    let mut list: Vec<Upload> = Vec::new();
    assert(list.deep_view() =~= Seq::<UploadView>::empty());
    for i in 0..uploads.len()
        invariant
            all == uploads.deep_view(),
            f == (|upload: JsonView| upload_in(upload, course_name@, path@)),
            each(all.take(i as int), f) == Some(list.deep_view()),
    {
        proof {
            each_step(all, f, i as int);
        }
        assert(all[i as int] == uploads@[i as int]@);
        match upload_of(&uploads[i], course_name, path) {
            Some(upload) => {
                let ghost before = list.deep_view();
                list.push(upload);
                assert(list.deep_view() =~= before.push(upload.deep_view()));
            },
            None => {
                return None;
            },
        }
    }
    assert(all.take(all.len() as int) =~= all);
    Some(list)
}

/// The files of a course in a reply, to be stored under a path.
pub fn course_uploads_reply(body: &[u8], course_name: &str, path: &str) -> (list: Result<
    Vec<Upload>,
    Error,
>)
    ensures
        outcome(list) == course_uploads(json_of_bytes(body@), course_name@, path@),
{
    match ZjuAssist::activities_uploads(body) {
        Err(error) => Err(error),
        Ok(uploads) => match uploads_described(&uploads, course_name, path) {
            Some(list) => Ok(list),
            None => Err(ErrorOf::Malformed),
        },
    }
}

/// The lists of all courses as one; the first failure stands for all.
pub open spec fn all_uploads(lists: Seq<Result<Seq<UploadView>, ErrorView>>) -> Result<
    Seq<UploadView>,
    ErrorView,
>
    decreases lists.len(),
{
    if lists.len() == 0 {
        Ok(Seq::empty())
    } else {
        match (all_uploads(lists.drop_last()), lists.last()) {
            (Err(error), _) => Err(error),
            (Ok(_), Err(error)) => Err(error),
            (Ok(before), Ok(more)) => Ok(before + more),
        }
    }
}

/// What lists of files say.
pub open spec fn outcomes(lists: Seq<Result<Vec<Upload>, Error>>) -> Seq<
    Result<Seq<UploadView>, ErrorView>,
> {
    lists.map_values(|list: Result<Vec<Upload>, Error>| outcome(list))
}

proof fn first_failure_stands(lists: Seq<Result<Seq<UploadView>, ErrorView>>, k: int)
    requires
        0 <= k <= lists.len(),
        all_uploads(lists.take(k)) is Err,
    ensures
        all_uploads(lists) == all_uploads(lists.take(k)),
    decreases lists.len(),
{
    if k < lists.len() {
        assert(lists.drop_last().take(k) =~= lists.take(k));
        first_failure_stands(lists.drop_last(), k);
    } else {
        assert(lists.take(k) =~= lists);
    }
}

/// The lists of all courses as one; the first failure stands for all.
pub fn uploads_of_courses(lists: Vec<Result<Vec<Upload>, Error>>) -> (list: Result<
    Vec<Upload>,
    Error,
>)
    ensures
        outcome(list) == all_uploads(outcomes(lists@)),
{
    let ghost all = outcomes(lists@);
    let mut list: Vec<Upload> = Vec::new();
    assert(list.deep_view() =~= Seq::<UploadView>::empty());
    let ghost given = lists@;
    let count: usize = lists.len();
    let mut rest = lists;
    for i in 0..count
        invariant
            given == lists@,
            count == given.len(),
            rest@ == given.skip(i as int),
            all == outcomes(given),
            all_uploads(all.take(i as int)) == Ok::<Seq<UploadView>, ErrorView>(list.deep_view()),
    {
        assert(all.take(i + 1).drop_last() =~= all.take(i as int));
        assert(given.skip(i as int).skip(1) =~= given.skip(i + 1));
        let next = rest.remove(0);
        assert(rest@ =~= given.skip(i + 1));
        assert(all[i as int] == outcome(next));
        match next {
            Ok(more) => {
                let mut more = more;
                let ghost added = more.deep_view();
                let ghost before = list.deep_view();
                list.append(&mut more);
                assert(list.deep_view() =~= before + added);
            },
            Err(error) => {
                proof {
                    first_failure_stands(all, i + 1);
                }
                return Err(error);
            },
        }
    }
    assert(all.take(all.len() as int) =~= all);
    Ok(list)
}

// ---------------------------------------------------------------- the files that are missing

/// A file is missing: there is none here, or one of another length.
pub open spec fn is_missing(size: u64, local: Option<u64>) -> bool {
    local != Some(size)
}

/// The files that are missing, where the lengths of those that are here are known.
pub open spec fn missing_uploads(uploads: Seq<UploadView>, local: Seq<Option<u64>>) -> Seq<
    UploadView,
>
    decreases uploads.len(),
{
    if uploads.len() == 0 {
        Seq::empty()
    } else {
        let before = missing_uploads(uploads.drop_last(), local);
        if is_missing(uploads.last().size, local[uploads.len() - 1]) {
            before.push(uploads.last())
        } else {
            before
        }
    }
}

/// The files that are missing; `local` has the length of each file that is here.
pub fn uploads_to_sync(uploads: &Vec<Upload>, local: &Vec<Option<u64>>) -> (missing: Vec<Upload>)
    requires
        local@.len() == uploads@.len(),
    ensures
        missing.deep_view() == missing_uploads(uploads.deep_view(), local@),
{
    let ghost all = uploads.deep_view();
    let mut missing: Vec<Upload> = Vec::new();
    assert(missing.deep_view() =~= Seq::<UploadView>::empty());
    for i in 0..uploads.len()
        invariant
            all == uploads.deep_view(),
            local@.len() == uploads@.len(),
            missing.deep_view() == missing_uploads(all.take(i as int), local@),
    {
        assert(all.take(i + 1).drop_last() =~= all.take(i as int));
        assert(all[i as int] == uploads@[i as int].deep_view());
        let here = match local[i] {
            Some(length) => length == uploads[i].size,
            None => false,
        };
        if !here {
            let ghost before = missing.deep_view();
            let copy = uploads[i].duplicate();
            missing.push(copy);
            assert(missing.deep_view() =~= before.push(copy.deep_view()));
        }
    }
    assert(all.take(all.len() as int) =~= all);
    missing
}

/// A file of the list is missing.
pub open spec fn misses(
    uploads: Seq<UploadView>,
    local: Seq<Option<u64>>,
    file: UploadView,
) -> bool {
    exists|i: int|
        0 <= i < uploads.len() && (#[trigger] uploads[i]) == file && is_missing(
            uploads[i].size,
            local[i],
        )
}

/// Exactly the files that are missing are downloaded: every file of which there is none here, or
/// one of another length, is among them, and no other.
pub proof fn exactly_the_missing_are_downloaded(uploads: Seq<UploadView>, local: Seq<Option<u64>>)
    requires
        local.len() >= uploads.len(),
    ensures
        forall|i: int|
            0 <= i < uploads.len() && is_missing((#[trigger] uploads[i]).size, local[i])
                ==> missing_uploads(uploads, local).contains(uploads[i]),
        forall|k: int|
            0 <= k < missing_uploads(uploads, local).len() ==> misses(
                uploads,
                local,
                #[trigger] missing_uploads(uploads, local)[k],
            ),
    decreases uploads.len(),
{
    if uploads.len() > 0 {
        let head = uploads.drop_last();
        let last = uploads.len() - 1;
        exactly_the_missing_are_downloaded(head, local);
        let before = missing_uploads(head, local);
        let all = missing_uploads(uploads, local);
        assert forall|i: int|
            0 <= i < uploads.len() && is_missing(
                (#[trigger] uploads[i]).size,
                local[i],
            ) implies all.contains(uploads[i]) by {
            if i < last {
                assert(head[i] == uploads[i]);
                let k = choose|k: int| 0 <= k < before.len() && before[k] == uploads[i];
                assert(all[k] == uploads[i]);
            } else {
                assert(all[before.len() as int] == uploads[i]);
            }
        }
        assert forall|k: int| 0 <= k < all.len() implies misses(
            uploads,
            local,
            #[trigger] all[k],
        ) by {
            if k < before.len() {
                assert(all[k] == before[k]);
                assert(misses(head, local, before[k]));
                let i = choose|i: int|
                    0 <= i < head.len() && (#[trigger] head[i]) == before[k] && is_missing(
                        head[i].size,
                        local[i],
                    );
                assert(uploads[i] == head[i]);
            } else {
                assert(uploads[last] == all[k]);
            }
        }
    }
}

/// Where every file is here with its length, none is missing.
pub proof fn nothing_is_missing_after_a_download(uploads: Seq<UploadView>, local: Seq<Option<u64>>)
    requires
        local.len() == uploads.len(),
        forall|i: int| 0 <= i < uploads.len() ==> #[trigger] local[i] == Some(uploads[i].size),
    ensures
        missing_uploads(uploads, local) == Seq::<UploadView>::empty(),
{
    exactly_the_missing_are_downloaded(uploads, local);
    let missing = missing_uploads(uploads, local);
    if missing.len() > 0 {
        assert(misses(uploads, local, missing[0]));
        let i = choose|i: int|
            0 <= i < uploads.len() && (#[trigger] uploads[i]) == missing[0] && is_missing(
                uploads[i].size,
                local[i],
            );
        assert(local[i] == Some(uploads[i].size));
    }
    assert(missing =~= Seq::<UploadView>::empty());
}

/// A file of the list that is to be fetched: there is none here, or one that is shorter or longer.
pub open spec fn is_to_fetch(
    uploads: Seq<UploadView>,
    local: Seq<Option<u64>>,
    file: UploadView,
) -> bool {
    exists|i: int|
        0 <= i < uploads.len() && (#[trigger] uploads[i]) == file && match local[i] {
            None => true,
            Some(length) => length < uploads[i].size || length > uploads[i].size,
        }
}

/// A file is fetched where there is none here, and where the one that is here is shorter or
/// longer than the file. Whatever is fetched is such a file.
pub proof fn a_file_of_another_length_is_fetched(
    uploads: Seq<UploadView>,
    local: Seq<Option<u64>>,
)
    requires
        local.len() == uploads.len(),
    ensures
        forall|i: int|
            0 <= i < uploads.len() && local[i] is None ==> missing_uploads(uploads, local).contains(
                #[trigger] uploads[i],
            ),
        forall|i: int|
            0 <= i < uploads.len() && local[i] is Some && (local[i]->0 < uploads[i].size
                || local[i]->0 > uploads[i].size) ==> missing_uploads(uploads, local).contains(
                #[trigger] uploads[i],
            ),
        forall|k: int|
            0 <= k < missing_uploads(uploads, local).len() ==> is_to_fetch(
                uploads,
                local,
                #[trigger] missing_uploads(uploads, local)[k],
            ),
{
    exactly_the_missing_are_downloaded(uploads, local);
    let missing = missing_uploads(uploads, local);
    assert forall|i: int| 0 <= i < uploads.len() && local[i] is None implies missing.contains(
        #[trigger] uploads[i],
    ) by {
        assert(is_missing(uploads[i].size, local[i]));
    }
    assert forall|i: int|
        0 <= i < uploads.len() && local[i] is Some && (local[i]->0 < uploads[i].size || local[i]->0
            > uploads[i].size) implies missing.contains(#[trigger] uploads[i]) by {
        assert(is_missing(uploads[i].size, local[i]));
    }
    assert forall|k: int| 0 <= k < missing.len() implies is_to_fetch(
        uploads,
        local,
        #[trigger] missing[k],
    ) by {
        assert(misses(uploads, local, missing[k]));
        let i = choose|i: int|
            0 <= i < uploads.len() && (#[trigger] uploads[i]) == missing[k] && is_missing(
                uploads[i].size,
                local[i],
            );
        assert(uploads[i] == missing[k]);
    }
}

proof fn lengths_behind_do_not_matter(
    uploads: Seq<UploadView>,
    local: Seq<Option<u64>>,
    length: Option<u64>,
)
    requires
        uploads.len() <= local.len(),
    ensures
        missing_uploads(uploads, local.push(length)) == missing_uploads(uploads, local),
    decreases uploads.len(),
{
    if uploads.len() > 0 {
        lengths_behind_do_not_matter(uploads.drop_last(), local, length);
    }
}

/// One file more is fetched behind the others, unless the one that is here has exactly its
/// length: then what is fetched stays the same.
pub proof fn one_file_more_is_fetched_last(
    uploads: Seq<UploadView>,
    local: Seq<Option<u64>>,
    upload: UploadView,
    length: Option<u64>,
)
    requires
        local.len() == uploads.len(),
    ensures
        missing_uploads(Seq::empty(), local).len() == 0,
        length == Some(upload.size) ==> missing_uploads(uploads.push(upload), local.push(length))
            == missing_uploads(uploads, local),
        length != Some(upload.size) ==> missing_uploads(uploads.push(upload), local.push(length))
            == missing_uploads(uploads, local).push(upload),
{
    lengths_behind_do_not_matter(uploads, local, length);
    assert(uploads.push(upload).drop_last() =~= uploads);
}

// ---------------------------------------------------------------- what files say

/// A file is the one that a description describes: its own numbers, its name and its length, or
/// a length of 1000 where none is given.
pub open spec fn is_file_of(description: JsonView, file: UploadView) -> bool {
    &&& description.at("id"@).signed() == Some(file.id)
    &&& description.at("reference_id"@).signed() == Some(file.reference_id)
    &&& description.at("name"@).text() == Some(file.file_name)
    &&& description.at("size"@).unsigned() is Some ==> description.at("size"@).unsigned() == Some(
        file.size,
    )
    &&& description.at("size"@).unsigned() is None ==> file.size == 1000
}

/// A description has all that a file needs.
pub open spec fn describes_a_file(description: JsonView) -> bool {
    &&& description.at("id"@).signed() is Some
    &&& description.at("reference_id"@).signed() is Some
    &&& description.at("name"@).text() is Some
}

/// The files of a course are those that the activities of the reply hold, each as it is described
/// and in their order, under the name and the path of the course.
pub proof fn the_files_of_a_course_are_those_described(
    json: JsonView,
    course_name: Seq<char>,
    path: Seq<char>,
)
    ensures
        match (activity_uploads(Ok(json)), course_uploads(Ok(json), course_name, path)) {
            (Ok(descriptions), Ok(files)) => {
                &&& files.len() == descriptions.len()
                &&& forall|i: int|
                    0 <= i < files.len() ==> {
                        &&& is_file_of(descriptions[i], #[trigger] files[i])
                        &&& files[i].course_name == course_name
                        &&& files[i].path == path
                    }
            },
            (Ok(descriptions), Err(error)) => {
                &&& error == ErrorView::Malformed
                &&& exists|i: int|
                    0 <= i < descriptions.len() && !describes_a_file(#[trigger] descriptions[i])
            },
            (Err(error), result) => result == Err::<Seq<UploadView>, ErrorView>(error),
        },
        json.at("activities"@).items() is None ==> course_uploads(Ok(json), course_name, path)
            == Err::<Seq<UploadView>, ErrorView>(ErrorView::Malformed),
{
    if let Ok(descriptions) = activity_uploads(Ok(json)) {
        let read = |upload: JsonView| upload_in(upload, course_name, path);
        each_in_place(descriptions, read);
        if let Some(files) = each(descriptions, read) {
            assert forall|i: int| 0 <= i < files.len() implies {
                &&& is_file_of(descriptions[i], #[trigger] files[i])
                &&& files[i].course_name == course_name
                &&& files[i].path == path
            } by {
                assert(read(descriptions[i]) == Some(files[i]));
            }
        } else {
            let i = choose|i: int|
                0 <= i < descriptions.len() && read(#[trigger] descriptions[i]) is None;
            assert(!describes_a_file(descriptions[i]));
        }
    }
}

/// The courses whose files are asked for are those of the list, in their order: each with its
/// number, its name without slashes, and a request that names the number. Without a login none
/// is asked for.
pub proof fn every_listed_course_is_asked_for(assist: AssistView, courses: Seq<JsonView>)
    ensures
        match listed_courses(assist, JsonView::Array(courses)) {
            Ok(list) => {
                &&& list.len() == courses.len()
                &&& list.len() > 0 ==> assist.have_login
                &&& forall|i: int|
                    0 <= i < list.len() ==> {
                        &&& courses[i].at("id"@).signed() == Some((#[trigger] list[i]).id)
                        &&& courses[i].at("name"@).text() matches Some(name) && list[i].name.len()
                            == name.len() && forall|k: int|
                            0 <= k < name.len() ==> #[trigger] list[i].name[k] == if name[k] == '/' {
                                '-'
                            } else {
                                name[k]
                            }
                        &&& list[i].request == assist.get(
                            "https://courses.zju.edu.cn/api/courses/"@ + decimal(list[i].id as int)
                                + "/activities"@,
                        )
                    }
            },
            Err(ErrorOf::NotLogin) => !assist.have_login && courses.len() > 0,
            Err(ErrorOf::Malformed) => exists|i: int|
                0 <= i < courses.len() && ((#[trigger] courses[i]).at("id"@).signed() is None
                    || courses[i].at("name"@).text() is None),
            Err(_) => false,
        },
{
    let read = |course: JsonView| listed(assist, course);
    each_in_place(courses, read);
    if let Some(list) = each(courses, read) {
        assert forall|i: int| 0 <= i < list.len() implies {
            &&& courses[i].at("id"@).signed() == Some((#[trigger] list[i]).id)
            &&& courses[i].at("name"@).text() matches Some(name) && list[i].name.len()
                == name.len() && forall|k: int|
                0 <= k < name.len() ==> #[trigger] list[i].name[k] == if name[k] == '/' {
                    '-'
                } else {
                    name[k]
                }
            &&& list[i].request == assist.get(
                "https://courses.zju.edu.cn/api/courses/"@ + decimal(list[i].id as int)
                    + "/activities"@,
            )
        } by {
            assert(read(courses[i]) == Some(list[i]));
        }
    } else {
        let i = choose|i: int| 0 <= i < courses.len() && read(#[trigger] courses[i]) is None;
        assert(courses[i].at("id"@).signed() is None || courses[i].at("name"@).text() is None);
    }
}

/// The files of one course more stand behind those of the others, and a failure is kept: the
/// first one, whatever comes after it.
pub proof fn lists_are_put_behind_each_other(
    lists: Seq<Result<Seq<UploadView>, ErrorView>>,
    list: Result<Seq<UploadView>, ErrorView>,
)
    ensures
        all_uploads(Seq::empty()) == Ok::<Seq<UploadView>, ErrorView>(Seq::empty()),
        all_uploads(lists) is Err ==> all_uploads(lists.push(list)) == all_uploads(lists),
        all_uploads(lists) is Ok && list is Err ==> all_uploads(lists.push(list)) == list,
        all_uploads(lists) is Ok && list is Ok ==> all_uploads(lists.push(list)) == Ok::<
            Seq<UploadView>,
            ErrorView,
        >(all_uploads(lists)->Ok_0 + list->Ok_0),
{
    assert(lists.push(list).drop_last() =~= lists);
}

/// Where all lists have come but for one, and no failure stands before it, that failure is the
/// result.
pub proof fn the_first_failure_is_the_result(
    lists: Seq<Result<Seq<UploadView>, ErrorView>>,
    k: int,
)
    requires
        0 <= k < lists.len(),
        forall|i: int| 0 <= i < k ==> (#[trigger] lists[i]) is Ok,
        lists[k] is Err,
    ensures
        all_uploads(lists) == lists[k],
    decreases lists.len(),
{
    if k < lists.len() - 1 {
        let head = lists.drop_last();
        assert(forall|i: int| 0 <= i < head.len() ==> head[i] == #[trigger] lists[i]);
        the_first_failure_is_the_result(head, k);
    } else {
        lists_that_came_make_one(lists.drop_last());
    }
}

proof fn lists_that_came_make_one(lists: Seq<Result<Seq<UploadView>, ErrorView>>)
    requires
        forall|i: int| 0 <= i < lists.len() ==> (#[trigger] lists[i]) is Ok,
    ensures
        all_uploads(lists) is Ok,
    decreases lists.len(),
{
    if lists.len() > 0 {
        let head = lists.drop_last();
        assert(forall|i: int| 0 <= i < head.len() ==> head[i] == #[trigger] lists[i]);
        lists_that_came_make_one(head);
        assert(lists[lists.len() - 1] is Ok);
    }
}

// ---------------------------------------------------------------- a download

/// The encoded name of a file in the address it came from.
pub open spec fn encoded_name(url: Seq<char>) -> Option<Seq<char>> {
    if exists|at: int| first_at(url, "name="@, at) {
        let at = choose|at: int| first_at(url, "name="@, at);
        Some(before_char(url.skip(at + 5), '&'))
    } else {
        None
    }
}

/// The name under which a file is stored: the one in the address it came from, or its own.
pub open spec fn stored_name(url: Seq<char>, file_name: Seq<char>) -> Seq<char> {
    match encoded_name(url) {
        Some(name) => percent_decoding(name),
        None => file_name,
    }
}

/// The encoded name of a file in the address it came from.
pub fn name_in_url(url: &str) -> (name: Option<String>)
    ensures
        name.deep_view() == encoded_name(url@),
{
    let chars = to_chars(url);
    let mark = to_chars("name=");
    proof {
        reveal_strlit("name=");
        assert("name="@.len() == 5);
    }
    match find(&chars, &mark) {
        Some(at) => {
            let ghost found = choose|i: int| first_at(url@, "name="@, i);
            assert(first_at(url@, "name="@, at as int));
            assert(found == at) by {
                if found < at {
                    assert(occurs_at(url@, "name="@, found));
                } else if at < found {
                    assert(occurs_at(url@, "name="@, at as int));
                }
            }
            let end: usize = chars.len();
            assert(at + 5 <= end);
            let rest = from_range(&chars, at + 5, end);
            assert(rest@ =~= url@.skip(at + 5));
            Some(up_to_char(rest.as_str(), '&'))
        },
        None => None,
    }
}

/// What is downloaded: the name under which it is stored, and its length.
pub struct DownloadPlan {
    pub file_name: String,
    pub content_length: u64,
}

/// What a plan says.
pub struct PlanView {
    pub file_name: Seq<char>,
    pub content_length: u64,
}

impl DeepView for DownloadPlan {
    type V = PlanView;

    open spec fn deep_view(&self) -> PlanView {
        PlanView { file_name: self.file_name@, content_length: self.content_length }
    }
}

/// What is downloaded, from a reply with a file: whether it was a success, the address it came
/// from, and its length if that is known.
pub open spec fn download_plan(
    upload: UploadView,
    success: bool,
    url: Seq<char>,
    content_length: Option<u64>,
) -> Result<PlanView, ErrorView> {
    if !success {
        Err(ErrorOf::DownloadFailed)
    } else {
        Ok(
            PlanView {
                file_name: stored_name(url, upload.file_name),
                content_length: match content_length {
                    Some(length) => length,
                    None => upload.size,
                },
            },
        )
    }
}

/// Takes up a reply with a file.
pub fn download_upload_core(
    upload: &Upload,
    success: bool,
    url: &str,
    content_length: Option<u64>,
) -> (plan: Result<DownloadPlan, Error>)
    ensures
        outcome(plan) == download_plan(upload.deep_view(), success, url@, content_length),
{
    if !success {
        return Err(ErrorOf::DownloadFailed);
    }
    let file_name = match name_in_url(url) {
        Some(name) => percent_decoded(name.as_str()),
        None => upload.file_name.clone(),
    };
    let content_length: u64 = match content_length {
        Some(length) => length,
        None => upload.size,
    };
    Ok(DownloadPlan { file_name, content_length })
}

/// A download is over before it starts: files are only kept up to date, and the one that is here
/// has the length.
pub open spec fn is_here(sync_upload: bool, local: Option<u64>, content_length: u64) -> bool {
    sync_upload && local == Some(content_length)
}

/// A download under way: what has come, and what will.
#[derive(Clone, Copy, PartialEq, Eq, Structural, Debug)]
pub struct DownloadProgress {
    pub current: u64,
    pub total: u64,
}

impl DownloadPlan {
    /// The progress of a download that starts, or that has nothing to do.
    pub fn start(&self, sync_upload: bool, local: Option<u64>) -> (start: (bool, DownloadProgress))
        ensures
            start.0 == is_here(sync_upload, local, self.content_length),
            start.1.total == self.content_length,
            start.1.current == if start.0 {
                self.content_length
            } else {
                0
            },
    {
        let here = sync_upload && match local {
            Some(length) => length == self.content_length,
            None => false,
        };
        let current: u64 = if here {
            self.content_length
        } else {
            0
        };
        (here, DownloadProgress { current, total: self.content_length })
    }
}

impl DownloadProgress {
    /// The progress after some bytes more.
    pub fn advance(&mut self, length: u64)
        requires
            old(self).current + length <= u64::MAX,
        ensures
            final(self).current == old(self).current + length,
            final(self).total == old(self).total,
    {
        self.current = self.current + length;
    }
}

/// The name in an address is what stands between the first `name=` and the next ampersand, or the
/// end.
pub proof fn the_name_stands_behind_its_mark(before: Seq<char>, name: Seq<char>, rest: Seq<char>)
    requires
        forall|i: int|
            0 <= i < before.len() ==> #[trigger] (before + "name="@ + name + rest).subrange(
                i,
                i + 5,
            ) != "name="@,
        forall|i: int| 0 <= i < name.len() ==> #[trigger] name[i] != '&',
        rest.len() > 0 ==> rest[0] == '&',
    ensures
        encoded_name(before + "name="@ + name + rest) == Some(name),
{
    let url = before + "name="@ + name + rest;
    let at = before.len() as int;
    reveal_strlit("name=");
    assert("name="@.len() == 5);
    assert(url.subrange(at, at + 5) =~= "name="@);
    assert(occurs_at(url, "name="@, at));
    assert forall|j: int| 0 <= j < at implies !occurs_at(url, "name="@, j) by {
        assert(url.subrange(j, j + 5) != "name="@);
    }
    assert(first_at(url, "name="@, at));
    let found = choose|i: int| first_at(url, "name="@, i);
    assert(found == at) by {
        if found < at {
            assert(occurs_at(url, "name="@, found));
        } else if at < found {
            assert(occurs_at(url, "name="@, at));
        }
    }
    let tail = url.skip(at + 5);
    assert(tail =~= name + rest);
    before_a_character_is_the_first_part(tail, '&');
    let part = before_char(tail, '&');
    if part.len() < name.len() {
        assert(tail[part.len() as int] == name[part.len() as int]);
    } else if part.len() > name.len() {
        assert(part[name.len() as int] == tail[name.len() as int]);
        assert(tail[name.len() as int] == rest[0]);
    }
    assert(part =~= name);
}

/// An address without `name=` has no name in it, so a file is stored under its own.
pub proof fn a_file_keeps_its_name_without_a_mark(url: Seq<char>, file_name: Seq<char>)
    requires
        forall|i: int| 0 <= i <= url.len() - 5 ==> #[trigger] url.subrange(i, i + 5) != "name="@,
    ensures
        encoded_name(url) is None,
        stored_name(url, file_name) == file_name,
{
    reveal_strlit("name=");
    assert("name="@.len() == 5);
    if exists|at: int| first_at(url, "name="@, at) {
        let at = choose|at: int| first_at(url, "name="@, at);
        assert(occurs_at(url, "name="@, at));
        assert(url.subrange(at, at + 5) == "name="@);
    }
}

/// A reply that is no success is no download. Of one that is, the length that it gives is the
/// length of the download, and that of the file where it gives none; the name is the decoded one
/// of the address, and that of the file where it has none.
pub proof fn a_download_goes_by_its_reply(
    upload: UploadView,
    url: Seq<char>,
    length: u64,
    content_length: Option<u64>,
)
    ensures
        download_plan(upload, false, url, content_length) == Err::<PlanView, ErrorView>(
            ErrorView::DownloadFailed,
        ),
        download_plan(upload, true, url, content_length) is Ok,
        download_plan(upload, true, url, Some(length))->Ok_0.content_length == length,
        download_plan(upload, true, url, None)->Ok_0.content_length == upload.size,
        encoded_name(url) matches Some(name) ==> download_plan(
            upload,
            true,
            url,
            content_length,
        )->Ok_0.file_name == percent_decoding(name),
        encoded_name(url) is None ==> download_plan(
            upload,
            true,
            url,
            content_length,
        )->Ok_0.file_name == upload.file_name,
{
}

/// Nothing is downloaded only where files are kept up to date and the one that is here has
/// exactly the length: one that is shorter or longer is fetched again, as is one that is not here.
pub proof fn only_a_file_of_the_length_is_kept(length: u64, content_length: u64, local: Option<u64>)
    ensures
        !is_here(false, local, content_length),
        !is_here(true, None, content_length),
        length < content_length ==> !is_here(true, Some(length), content_length),
        length > content_length ==> !is_here(true, Some(length), content_length),
        is_here(true, Some(content_length), content_length),
{
}

} // verus!
