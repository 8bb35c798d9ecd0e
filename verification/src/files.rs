//! The files of one course, and the choice of one of them.
use vstd::prelude::*;
use crate::boundary::{lower_case, to_lower_case};
use crate::error::{outcome, Error, ErrorOf, ErrorView};
use crate::json::{Json, JsonView};
use crate::model::{Upload, UploadView};
use crate::numeral::{decimal, i64_text};
use crate::sorting::{in_order, put_in_order, Placed};
use crate::text::{
    contains, contains_text, join, joined, less, replace_char, replaced, same, text_less,
    text_order_is_total,
};

verus! {

// ---------------------------------------------------------------- the files of a course

/// The name of a course as it can stand in a path.
pub open spec fn path_name(course: JsonView) -> Seq<char> {
    replaced(course.text_or("name"@, "Unknown"@), '/', '-')
}

/// The name of the first course with a number, as it can stand in a path.
pub open spec fn course_found(courses: Seq<JsonView>, course_id: i64) -> Result<
    Seq<char>,
    ErrorView,
>
    decreases courses.len(),
{
    if courses.len() == 0 {
        Err(ErrorOf::CourseNotFound(course_id))
    } else if courses.first().at("id"@).signed() == Some(course_id) {
        Ok(path_name(courses.first()))
    } else {
        course_found(courses.skip(1), course_id)
    }
}

/// The name of the first course with a number, as it can stand in a path.
pub fn find_course(courses: &Vec<Json>, course_id: i64) -> (name: Result<String, Error>)
    ensures
        outcome(name) == course_found(courses.deep_view(), course_id),
{
    let ghost all = courses.deep_view();
    assert(all.skip(0) =~= all);
    for i in 0..courses.len()
        invariant
            all == courses.deep_view(),
            course_found(all, course_id) == course_found(all.skip(i as int), course_id),
    {
        assert(all[i as int] == courses@[i as int]@);
        assert(all.skip(i as int).skip(1) =~= all.skip(i + 1));
        let course = &courses[i];
        if course.i64_at("id") == Some(course_id) {
            let name = course.text_or("name", "Unknown");
            return Ok(replace_char(name.as_str(), '/', '-'));
        }
    }
    Err(ErrorOf::CourseNotFound(course_id))
}

/// A file of a course, from its description; one without its two numbers is none.
pub open spec fn file_in(
    upload: JsonView,
    course_name: Seq<char>,
    path: Seq<char>,
) -> Option<UploadView> {
    match (upload.at("id"@).signed(), upload.at("reference_id"@).signed()) {
        (Some(id), Some(reference_id)) => Some(
            UploadView {
                id,
                reference_id,
                file_name: upload.text_or("name"@, "Unnamed"@),
                course_name,
                path,
                size: match upload.at("size"@).unsigned() {
                    Some(size) => size,
                    None => 0,
                },
            },
        ),
        _ => None,
    }
}

/// A file with these two numbers is in the list.
pub open spec fn has_file(list: Seq<UploadView>, id: i64, reference_id: i64) -> bool {
    exists|i: int|
        0 <= i < list.len() && (#[trigger] list[i]).id == id && list[i].reference_id
            == reference_id
}

/// The files that descriptions describe; of those with the same numbers, the first.
pub open spec fn files_in(
    uploads: Seq<JsonView>,
    course_name: Seq<char>,
    path: Seq<char>,
) -> Seq<UploadView>
    decreases uploads.len(),
{
    if uploads.len() == 0 {
        Seq::empty()
    } else {
        let before = files_in(uploads.drop_last(), course_name, path);
        match file_in(uploads.last(), course_name, path) {
            Some(file) => if has_file(before, file.id, file.reference_id) {
                before
            } else {
                before.push(file)
            },
            None => before,
        }
    }
}

fn file_of(upload: &Json, course_name: &str, path: &str) -> (file: Option<Upload>)
    ensures
        file.deep_view() == file_in(upload@, course_name@, path@),
{
    match (upload.i64_at("id"), upload.i64_at("reference_id")) {
        (Some(id), Some(reference_id)) => Some(
            Upload {
                id,
                reference_id,
                file_name: upload.text_or("name", "Unnamed"),
                course_name: course_name.to_owned(),
                path: path.to_owned(),
                size: match upload.u64_at("size") {
                    Some(size) => size,
                    None => 0,
                },
            },
        ),
        _ => None,
    }
}

fn listed(list: &Vec<Upload>, id: i64, reference_id: i64) -> (yes: bool)
    ensures
        yes == has_file(list.deep_view(), id, reference_id),
{
    let ghost all = list.deep_view();
    for i in 0..list.len()
        invariant
            all == list.deep_view(),
            forall|j: int|
                0 <= j < i ==> !((#[trigger] all[j]).id == id && all[j].reference_id
                    == reference_id),
    {
        assert(all[i as int] == list@[i as int].deep_view());
        if list[i].id == id && list[i].reference_id == reference_id {
            return true;
        }
    }
    false
}

impl Placed for Upload {
    open spec fn precedes(a: UploadView, b: UploadView) -> bool {
        ||| text_less(a.file_name, b.file_name)
        ||| a.file_name == b.file_name && a.id < b.id
        ||| a.file_name == b.file_name && a.id == b.id && a.reference_id < b.reference_id
    }

    fn before(&self, other: &Self) -> (yes: bool) {
        if less(self.file_name.as_str(), other.file_name.as_str()) {
            return true;
        }
        if !same(self.file_name.as_str(), other.file_name.as_str()) {
            return false;
        }
        self.id < other.id || (self.id == other.id && self.reference_id < other.reference_id)
    }

    proof fn order(a: UploadView, b: UploadView, c: UploadView) {
        text_order_is_total(a.file_name, b.file_name, a.file_name);
        text_order_is_total(a.file_name, b.file_name, c.file_name);
        text_order_is_total(b.file_name, c.file_name, a.file_name);
        text_order_is_total(c.file_name, b.file_name, a.file_name);
        text_order_is_total(a.file_name, c.file_name, b.file_name);
        text_order_is_total(b.file_name, a.file_name, c.file_name);
    }
}

/// The files of a course by their names, each once.
pub fn get_course_uploads(uploads: &Vec<Json>, course_name: &str, path: &str) -> (files: Vec<
    Upload,
>)
    ensures
        in_order::<Upload>(files.deep_view()),
        files.deep_view().to_multiset() == files_in(
            uploads.deep_view(),
            course_name@,
            path@,
        ).to_multiset(),
{
    let ghost all = uploads.deep_view();
    let mut files: Vec<Upload> = Vec::new();
    assert(files.deep_view() =~= Seq::<UploadView>::empty());
    for i in 0..uploads.len()
        invariant
            all == uploads.deep_view(),
            files.deep_view() == files_in(all.take(i as int), course_name@, path@),
    {
        assert(all.take(i + 1).drop_last() =~= all.take(i as int));
        assert(all[i as int] == uploads@[i as int]@);
        if let Some(file) = file_of(&uploads[i], course_name, path) {
            if !listed(&files, file.id, file.reference_id) {
                let ghost before = files.deep_view();
                files.push(file);
                assert(files.deep_view() =~= before.push(file.deep_view()));
            }
        }
    }
    assert(all.take(all.len() as int) =~= all);
    put_in_order(files)
}

/// No two files of a course have the same numbers, so that their order leaves nothing open.
pub proof fn no_file_is_listed_twice(
    uploads: Seq<JsonView>,
    course_name: Seq<char>,
    path: Seq<char>,
)
    ensures
        ({
            let files = files_in(uploads, course_name, path);
            forall|i: int, j: int|
                0 <= i < j < files.len() ==> !((#[trigger] files[i]).id == (
                #[trigger] files[j]).id && files[i].reference_id == files[j].reference_id)
        }),
    decreases uploads.len(),
{
    if uploads.len() > 0 {
        no_file_is_listed_twice(uploads.drop_last(), course_name, path);
        let before = files_in(uploads.drop_last(), course_name, path);
        let files = files_in(uploads, course_name, path);
        assert forall|i: int, j: int| 0 <= i < j < files.len() implies !((
        #[trigger] files[i]).id == (#[trigger] files[j]).id && files[i].reference_id
            == files[j].reference_id) by {
            assert(files[i] == before[i]);
            if j < before.len() {
                assert(files[j] == before[j]);
            }
        }
    }
}

/// Of two different files of a course, one stands before the other.
pub proof fn files_have_one_order(a: UploadView, b: UploadView)
    requires
        a.id != b.id || a.reference_id != b.reference_id,
    ensures
        Upload::precedes(a, b) || Upload::precedes(b, a),
{
    text_order_is_total(a.file_name, b.file_name, a.file_name);
}

// ---------------------------------------------------------------- the choice of a file

/// The files with a number.
pub open spec fn with_id(uploads: Seq<UploadView>, id: i64) -> Seq<UploadView> {
    uploads.filter(|upload: UploadView| upload.id == id)
}

/// The files with a name.
pub open spec fn with_name(uploads: Seq<UploadView>, name: Seq<char>) -> Seq<UploadView> {
    uploads.filter(|upload: UploadView| upload.file_name == name)
}

/// The files in whose lower case names, given in the same order, a key occurs.
pub open spec fn with_key(
    uploads: Seq<UploadView>,
    lowered: Seq<Seq<char>>,
    key: Seq<char>,
) -> Seq<UploadView>
    decreases uploads.len(),
{
    if uploads.len() == 0 {
        Seq::empty()
    } else {
        let before = with_key(uploads.drop_last(), lowered, key);
        if contains_text(lowered[uploads.len() - 1], key) {
            before.push(uploads.last())
        } else {
            before
        }
    }
}

/// The names of files in lower case.
pub open spec fn lower_names(uploads: Seq<UploadView>) -> Seq<Seq<char>> {
    uploads.map_values(|upload: UploadView| lower_case(upload.file_name))
}

/// The files in whose names a text occurs, whatever the case of the letters.
pub open spec fn with_part(uploads: Seq<UploadView>, part: Seq<char>) -> Seq<UploadView> {
    with_key(uploads, lower_names(uploads), lower_case(part))
}

/// The files that a name stands for: those that have it, or else those in whose names it occurs.
pub open spec fn named(uploads: Seq<UploadView>, name: Seq<char>) -> Seq<UploadView> {
    if with_name(uploads, name).len() > 0 {
        with_name(uploads, name)
    } else {
        with_part(uploads, name)
    }
}

/// A file in a list to choose from.
pub open spec fn candidate(upload: UploadView) -> Seq<char> {
    "id="@ + decimal(upload.id as int) + " ref="@ + decimal(upload.reference_id as int) + " name="@
        + upload.file_name
}

/// Files to choose from, one on each line.
pub open spec fn candidates(uploads: Seq<UploadView>) -> Seq<char> {
    joined(uploads.map_values(|upload: UploadView| candidate(upload)), "\n"@)
}

/// The file that is chosen by its number or by its name; the choice must leave one.
pub open spec fn chosen(
    uploads: Seq<UploadView>,
    file_id: Option<i64>,
    name: Option<Seq<char>>,
) -> Result<UploadView, ErrorView> {
    match (file_id, name) {
        (Some(_), Some(_)) => Err(ErrorOf::FileChoiceTwice),
        (None, None) => Err(ErrorOf::FileChoiceMissing),
        (Some(id), None) => {
            let found = with_id(uploads, id);
            if found.len() == 0 {
                Err(ErrorOf::FileIdNotFound(id))
            } else if found.len() > 1 {
                Err(ErrorOf::FileIdNotUnique { id, details: candidates(found) })
            } else {
                Ok(found[0])
            }
        },
        (None, Some(name)) => {
            let found = named(uploads, name);
            if found.len() == 0 {
                Err(ErrorOf::FileNameNotFound(name))
            } else if found.len() > 1 {
                Err(ErrorOf::FileNameNotUnique { name, details: candidates(found) })
            } else {
                Ok(found[0])
            }
        },
    }
}

fn candidate_text(upload: &Upload) -> (text: String)
    ensures
        text@ == candidate(upload.deep_view()),
{
    let mut text = "id=".to_owned();
    text.append(i64_text(upload.id).as_str());
    text.append(" ref=");
    text.append(i64_text(upload.reference_id).as_str());
    text.append(" name=");
    text.append(upload.file_name.as_str());
    text
}

fn candidates_text(uploads: &Vec<Upload>) -> (text: String)
    ensures
        text@ == candidates(uploads.deep_view()),
{
    let ghost all = uploads.deep_view();
    let ghost f = |upload: UploadView| candidate(upload);
    let mut lines: Vec<String> = Vec::new();
    for i in 0..uploads.len()
        invariant
            all == uploads.deep_view(),
            f == (|upload: UploadView| candidate(upload)),
            lines.deep_view() =~= all.take(i as int).map_values(f),
    {
        assert(all[i as int] == uploads@[i as int].deep_view());
        let ghost before = lines.deep_view();
        let line = candidate_text(&uploads[i]);
        lines.push(line);
        assert(lines.deep_view() =~= before.push(line@));
    }
    assert(all.take(all.len() as int) =~= all);
    join(&lines, "\n")
}

/// One item more.
proof fn filter_step(uploads: Seq<UploadView>, keep: spec_fn(UploadView) -> bool, i: int)
    requires
        0 <= i < uploads.len(),
    ensures
        uploads.take(i + 1).filter(keep) == if keep(uploads[i]) {
            uploads.take(i).filter(keep).push(uploads[i])
        } else {
            uploads.take(i).filter(keep)
        },
{
    reveal(Seq::filter);
    assert(uploads.take(i + 1).drop_last() =~= uploads.take(i));
}

fn find_by_id(uploads: &[Upload], id: i64) -> (found: Vec<Upload>)
    ensures
        found.deep_view() == with_id(uploads.deep_view(), id),
{
    let ghost all = uploads.deep_view();
    let ghost keep = |upload: UploadView| upload.id == id;
    let mut found: Vec<Upload> = Vec::new();
    assert(found.deep_view() =~= all.take(0).filter(keep)) by {
        reveal(Seq::filter);
    }
    for i in 0..uploads.len()
        invariant
            all == uploads.deep_view(),
            keep == (|upload: UploadView| upload.id == id),
            found.deep_view() == all.take(i as int).filter(keep),
    {
        proof {
            filter_step(all, keep, i as int);
        }
        assert(all[i as int] == uploads@[i as int].deep_view());
        if uploads[i].id == id {
            let ghost before = found.deep_view();
            let copy = uploads[i].duplicate();
            found.push(copy);
            assert(found.deep_view() =~= before.push(copy.deep_view()));
        }
    }
    assert(all.take(all.len() as int) =~= all);
    found
}

fn find_by_name(uploads: &[Upload], name: &str) -> (found: Vec<Upload>)
    ensures
        found.deep_view() == with_name(uploads.deep_view(), name@),
{
    let ghost all = uploads.deep_view();
    let ghost keep = |upload: UploadView| upload.file_name == name@;
    let mut found: Vec<Upload> = Vec::new();
    assert(found.deep_view() =~= all.take(0).filter(keep)) by {
        reveal(Seq::filter);
    }
    for i in 0..uploads.len()
        invariant
            all == uploads.deep_view(),
            keep == (|upload: UploadView| upload.file_name == name@),
            found.deep_view() == all.take(i as int).filter(keep),
    {
        proof {
            filter_step(all, keep, i as int);
        }
        assert(all[i as int] == uploads@[i as int].deep_view());
        if same(uploads[i].file_name.as_str(), name) {
            let ghost before = found.deep_view();
            let copy = uploads[i].duplicate();
            found.push(copy);
            assert(found.deep_view() =~= before.push(copy.deep_view()));
        }
    }
    assert(all.take(all.len() as int) =~= all);
    found
}

/// The files in whose lower case names, given in the same order, a key occurs.
pub fn find_by_key(uploads: &[Upload], lowered: &Vec<String>, key: &str) -> (found: Vec<Upload>)
    requires
        lowered@.len() == uploads@.len(),
    ensures
        found.deep_view() == with_key(uploads.deep_view(), lowered.deep_view(), key@),
{
    let ghost all = uploads.deep_view();
    let ghost names = lowered.deep_view();
    let mut found: Vec<Upload> = Vec::new();
    assert(found.deep_view() =~= Seq::<UploadView>::empty());
    for i in 0..uploads.len()
        invariant
            all == uploads.deep_view(),
            names == lowered.deep_view(),
            lowered@.len() == uploads@.len(),
            found.deep_view() == with_key(all.take(i as int), names, key@),
    {
        assert(all.take(i + 1).drop_last() =~= all.take(i as int));
        assert(all[i as int] == uploads@[i as int].deep_view());
        if contains(lowered[i].as_str(), key) {
            let ghost before = found.deep_view();
            let copy = uploads[i].duplicate();
            found.push(copy);
            assert(found.deep_view() =~= before.push(copy.deep_view()));
        }
    }
    assert(all.take(all.len() as int) =~= all);
    found
}

fn find_by_part(uploads: &[Upload], part: &str) -> (found: Vec<Upload>)
    ensures
        found.deep_view() == with_part(uploads.deep_view(), part@),
{
    let ghost all = uploads.deep_view();
    let mut lowered: Vec<String> = Vec::new();
    for i in 0..uploads.len()
        invariant
            all == uploads.deep_view(),
            lowered@.len() == i,
            lowered.deep_view() =~= lower_names(all.take(i as int)),
    {
        assert(all[i as int] == uploads@[i as int].deep_view());
        let ghost before = lowered.deep_view();
        let name = to_lower_case(uploads[i].file_name.as_str());
        lowered.push(name);
        assert(lowered.deep_view() =~= before.push(name@));
    }
    assert(all.take(all.len() as int) =~= all);
    find_by_key(uploads, &lowered, to_lower_case(part).as_str())
}

/// Chooses a file by its number or by its name.
pub fn select_upload(uploads: &[Upload], file_id: Option<i64>, name: Option<String>) -> (selected:
    Result<Upload, Error>)
    ensures
        outcome(selected) == chosen(uploads.deep_view(), file_id, name.deep_view()),
{
    match (file_id, name) {
        (Some(_), Some(_)) => Err(ErrorOf::FileChoiceTwice),
        (None, None) => Err(ErrorOf::FileChoiceMissing),
        (Some(id), None) => {
            let found = find_by_id(uploads, id);
            assert(found.deep_view().len() == found@.len());
            if found.len() == 0 {
                Err(ErrorOf::FileIdNotFound(id))
            } else if found.len() > 1 {
                Err(ErrorOf::FileIdNotUnique { id, details: candidates_text(&found) })
            } else {
                assert(found.deep_view()[0] == found@[0].deep_view());
                Ok(found[0].duplicate())
            }
        },
        (None, Some(name)) => {
            let exact = find_by_name(uploads, name.as_str());
            assert(exact.deep_view().len() == exact@.len());
            let found = if exact.len() == 0 {
                find_by_part(uploads, name.as_str())
            } else {
                exact
            };
            assert(found.deep_view().len() == found@.len());
            if found.len() == 0 {
                Err(ErrorOf::FileNameNotFound(name))
            } else if found.len() > 1 {
                Err(ErrorOf::FileNameNotUnique { name, details: candidates_text(&found) })
            } else {
                assert(found.deep_view()[0] == found@[0].deep_view());
                Ok(found[0].duplicate())
            }
        },
    }
}

/// A choice by number that succeeds gives a file of the list with that number, and the only one.
pub proof fn a_choice_by_number_is_unique(uploads: Seq<UploadView>, id: i64)
    ensures
        chosen(uploads, Some(id), None) matches Ok(file) ==> {
            &&& uploads.contains(file)
            &&& file.id == id
            &&& forall|i: int, j: int|
                0 <= i < uploads.len() && 0 <= j < uploads.len() && (#[trigger] uploads[i]).id
                    == id && (#[trigger] uploads[j]).id == id ==> i == j
        },
{
    let keep = |upload: UploadView| upload.id == id;
    filtered_once(uploads, keep);
    if chosen(uploads, Some(id), None) is Ok {
        let found = with_id(uploads, id);
        assert(uploads.filter(keep)[0] == found[0]);
    }
}

/// A choice by name that succeeds gives a file of the list that has the name; or else no file has
/// it, and the name occurs in that of the file, whatever the case of the letters.
pub proof fn a_choice_by_name_fits(uploads: Seq<UploadView>, name: Seq<char>)
    ensures
        chosen(uploads, None, Some(name)) matches Ok(file) ==> {
            &&& uploads.contains(file)
            &&& file.file_name == name || {
                &&& forall|i: int|
                    0 <= i < uploads.len() ==> (#[trigger] uploads[i]).file_name != name
                &&& contains_text(lower_case(file.file_name), lower_case(name))
            }
        },
{
    let keep = |upload: UploadView| upload.file_name == name;
    filtered_once(uploads, keep);
    if chosen(uploads, None, Some(name)) is Ok {
        let found = named(uploads, name);
        if with_name(uploads, name).len() > 0 {
            assert(uploads.filter(keep)[0] == found[0]);
        } else {
            keyed_fit(uploads, lower_names(uploads), lower_case(name));
            assert(fits(uploads, lower_names(uploads), lower_case(name), found[0]));
            let i = choose|i: int|
                0 <= i < uploads.len() && (#[trigger] uploads[i]) == found[0] && contains_text(
                    lower_names(uploads)[i],
                    lower_case(name),
                );
            assert(uploads.contains(uploads[i]));
        }
    }
}

spec fn fits(
    uploads: Seq<UploadView>,
    lowered: Seq<Seq<char>>,
    key: Seq<char>,
    file: UploadView,
) -> bool {
    exists|i: int|
        0 <= i < uploads.len() && (#[trigger] uploads[i]) == file && contains_text(lowered[i], key)
}

proof fn keyed_fit(uploads: Seq<UploadView>, lowered: Seq<Seq<char>>, key: Seq<char>)
    requires
        lowered.len() >= uploads.len(),
    ensures
        forall|k: int|
            0 <= k < with_key(uploads, lowered, key).len() ==> fits(
                uploads,
                lowered,
                key,
                #[trigger] with_key(uploads, lowered, key)[k],
            ),
    decreases uploads.len(),
{
    if uploads.len() > 0 {
        let head = uploads.drop_last();
        let last = uploads.len() - 1;
        keyed_fit(head, lowered, key);
        let before = with_key(head, lowered, key);
        let all = with_key(uploads, lowered, key);
        assert forall|k: int| 0 <= k < all.len() implies fits(
            uploads,
            lowered,
            key,
            #[trigger] all[k],
        ) by {
            if k < before.len() {
                assert(all[k] == before[k]);
                assert(fits(head, lowered, key, before[k]));
                let i = choose|i: int|
                    0 <= i < head.len() && (#[trigger] head[i]) == before[k] && contains_text(
                        lowered[i],
                        key,
                    );
                assert(uploads[i] == head[i]);
            } else {
                assert(uploads[last] == all[k]);
            }
        }
    }
}

/// A filter leaves items of the list; where it leaves one, only one place holds such an item.
proof fn filtered_once(uploads: Seq<UploadView>, keep: spec_fn(UploadView) -> bool)
    ensures
        uploads.filter(keep).len() <= 1 ==> forall|i: int, j: int|
            0 <= i < uploads.len() && 0 <= j < uploads.len() && keep(#[trigger] uploads[i])
                && keep(#[trigger] uploads[j]) ==> i == j,
        uploads.filter(keep).len() == 0 ==> forall|i: int|
            0 <= i < uploads.len() ==> !keep(#[trigger] uploads[i]),
        forall|k: int|
            0 <= k < uploads.filter(keep).len() ==> keep(#[trigger] uploads.filter(keep)[k])
                && uploads.contains(uploads.filter(keep)[k]),
    decreases uploads.len(),
{
    reveal(Seq::filter);
    if uploads.len() > 0 {
        let before = uploads.drop_last();
        filtered_once(before, keep);
        assert(forall|i: int| 0 <= i < before.len() ==> before[i] == #[trigger] uploads[i]);
        assert forall|k: int| 0 <= k < uploads.filter(keep).len() implies keep(
            #[trigger] uploads.filter(keep)[k],
        ) && uploads.contains(uploads.filter(keep)[k]) by {
            if k < before.filter(keep).len() {
                assert(uploads.filter(keep)[k] == before.filter(keep)[k]);
                let i = choose|i: int|
                    0 <= i < before.len() && before[i] == before.filter(keep)[k];
                assert(uploads[i] == uploads.filter(keep)[k]);
            } else {
                assert(uploads[uploads.len() - 1] == uploads.filter(keep)[k]);
            }
        }
    }
}

// ---------------------------------------------------------------- what files say

/// The course with a number is the first one that has it, and its name has no slash any more.
pub proof fn the_first_course_with_the_number_is_found(
    courses: Seq<JsonView>,
    course_id: i64,
    k: int,
)
    requires
        0 <= k <= courses.len(),
        forall|i: int|
            0 <= i < k ==> (#[trigger] courses[i]).at("id"@).signed() != Some(course_id),
    ensures
        k == courses.len() ==> course_found(courses, course_id) == Err::<Seq<char>, ErrorView>(
            ErrorView::CourseNotFound(course_id),
        ),
        k < courses.len() && courses[k].at("id"@).signed() == Some(course_id) ==> {
            let name = match courses[k].at("name"@).text() {
                Some(name) => name,
                None => "Unknown"@,
            };
            &&& course_found(courses, course_id) matches Ok(found)
            &&& found.len() == name.len()
            &&& forall|i: int|
                0 <= i < name.len() ==> #[trigger] found[i] == if name[i] == '/' {
                    '-'
                } else {
                    name[i]
                }
        },
    decreases courses.len(),
{
    if k > 0 {
        let rest = courses.skip(1);
        assert(courses[0].at("id"@).signed() != Some(course_id));
        assert forall|i: int| 0 <= i < k - 1 implies (#[trigger] rest[i]).at("id"@).signed()
            != Some(course_id) by {
            assert(courses[i + 1].at("id"@).signed() != Some(course_id));
        }
        if k < courses.len() {
            assert(rest[k - 1] == courses[k]);
        }
        the_first_course_with_the_number_is_found(rest, course_id, k - 1);
    }
}

/// A file is the one that a description says: its own numbers, its name and its length, or what
/// stands for them where they are not there.
pub open spec fn is_file_said(
    description: JsonView,
    course_name: Seq<char>,
    path: Seq<char>,
    file: UploadView,
) -> bool {
    &&& description.at("id"@).signed() == Some(file.id)
    &&& description.at("reference_id"@).signed() == Some(file.reference_id)
    &&& match description.at("name"@).text() {
        Some(name) => file.file_name == name,
        None => file.file_name == "Unnamed"@,
    }
    &&& match description.at("size"@).unsigned() {
        Some(size) => file.size == size,
        None => file.size == 0,
    }
    &&& file.course_name == course_name
    &&& file.path == path
}

/// One description more is one file more, as it says, where it has both numbers and no file before
/// it has the same two. Otherwise nothing changes.
pub proof fn one_description_more_is_a_new_file(
    uploads: Seq<JsonView>,
    upload: JsonView,
    course_name: Seq<char>,
    path: Seq<char>,
)
    ensures
        files_in(Seq::empty(), course_name, path).len() == 0,
        ({
            let before = files_in(uploads, course_name, path);
            let after = files_in(uploads.push(upload), course_name, path);
            match (upload.at("id"@).signed(), upload.at("reference_id"@).signed()) {
                (Some(id), Some(reference_id)) => if exists|i: int|
                    0 <= i < before.len() && (#[trigger] before[i]).id == id
                        && before[i].reference_id == reference_id {
                    after == before
                } else {
                    &&& after.len() == before.len() + 1
                    &&& after.drop_last() == before
                    &&& is_file_said(upload, course_name, path, after.last())
                },
                _ => after == before,
            }
        }),
{
    assert(uploads.push(upload).drop_last() =~= uploads);
    let before = files_in(uploads, course_name, path);
    let after = files_in(uploads.push(upload), course_name, path);
    if after.len() > before.len() {
        assert(after.drop_last() =~= before);
    }
}

/// Files in order stand by their names, those of one name by their numbers, and those of one name
/// and number by their references.
pub proof fn files_stand_by_their_names(list: Seq<UploadView>, i: int, j: int)
    requires
        in_order::<Upload>(list),
        0 <= i < j < list.len(),
    ensures
        list[i].file_name == list[j].file_name || text_less(list[i].file_name, list[j].file_name),
        list[i].file_name == list[j].file_name ==> list[i].id <= list[j].id,
        list[i].file_name == list[j].file_name && list[i].id == list[j].id
            ==> list[i].reference_id <= list[j].reference_id,
{
    assert(!Upload::precedes(list[j], list[i]));
    text_order_is_total(list[i].file_name, list[j].file_name, list[i].file_name);
}

/// What is chosen by a number or a name is chosen by one of the two, and not by both or by none.
pub proof fn a_choice_is_by_number_or_by_name(
    uploads: Seq<UploadView>,
    id: i64,
    name: Seq<char>,
)
    ensures
        chosen(uploads, Some(id), Some(name)) == Err::<UploadView, ErrorView>(
            ErrorView::FileChoiceTwice,
        ),
        chosen(uploads, None, None) == Err::<UploadView, ErrorView>(ErrorView::FileChoiceMissing),
{
}

proof fn filtered_of_one(uploads: Seq<UploadView>, keep: spec_fn(UploadView) -> bool, k: int)
    requires
        0 <= k < uploads.len(),
        keep(uploads[k]),
        forall|i: int| 0 <= i < uploads.len() && i != k ==> !keep(#[trigger] uploads[i]),
    ensures
        uploads.filter(keep) == seq![uploads[k]],
    decreases uploads.len(),
{
    let head = uploads.drop_last();
    let last = uploads.len() - 1;
    reveal(Seq::filter);
    assert(forall|i: int| 0 <= i < head.len() ==> head[i] == #[trigger] uploads[i]);
    if k < last {
        filtered_of_one(head, keep, k);
        assert(!keep(uploads[last]));
    } else {
        filtered_of_none(head, keep);
        assert(Seq::<UploadView>::empty().push(uploads[k]) =~= seq![uploads[k]]);
    }
}

proof fn filtered_of_none(uploads: Seq<UploadView>, keep: spec_fn(UploadView) -> bool)
    requires
        forall|i: int| 0 <= i < uploads.len() ==> !keep(#[trigger] uploads[i]),
    ensures
        uploads.filter(keep) == Seq::<UploadView>::empty(),
    decreases uploads.len(),
{
    reveal(Seq::filter);
    if uploads.len() > 0 {
        let head = uploads.drop_last();
        assert(forall|i: int| 0 <= i < head.len() ==> head[i] == #[trigger] uploads[i]);
        filtered_of_none(head, keep);
        assert(!keep(uploads[uploads.len() - 1]));
    }
}

/// A file is chosen by its number exactly where it is the only one that has it. Where none has it,
/// or more than one, the error says so.
pub proof fn the_only_file_with_the_number_is_chosen(
    uploads: Seq<UploadView>,
    id: i64,
    k: int,
    l: int,
)
    ensures
        0 <= k < uploads.len() && uploads[k].id == id && (forall|i: int|
            0 <= i < uploads.len() && i != k ==> (#[trigger] uploads[i]).id != id) ==> chosen(
            uploads,
            Some(id),
            None,
        ) == Ok::<UploadView, ErrorView>(uploads[k]),
        (forall|i: int| 0 <= i < uploads.len() ==> (#[trigger] uploads[i]).id != id) ==> chosen(
            uploads,
            Some(id),
            None,
        ) == Err::<UploadView, ErrorView>(ErrorView::FileIdNotFound(id)),
        0 <= k < l < uploads.len() && uploads[k].id == id && uploads[l].id == id ==> (chosen(
            uploads,
            Some(id),
            None,
        ) matches Err(ErrorView::FileIdNotUnique { id: told, .. }) && told == id),
{
    let keep = |upload: UploadView| upload.id == id;
    let found = with_id(uploads, id);
    assert(found == uploads.filter(keep));
    filtered_once(uploads, keep);
    if 0 <= k < uploads.len() && uploads[k].id == id && (forall|i: int|
        0 <= i < uploads.len() && i != k ==> (#[trigger] uploads[i]).id != id) {
        filtered_of_one(uploads, keep, k);
    }
    if forall|i: int| 0 <= i < uploads.len() ==> (#[trigger] uploads[i]).id != id {
        filtered_of_none(uploads, keep);
    }
    if 0 <= k < l < uploads.len() && uploads[k].id == id && uploads[l].id == id {
        assert(keep(uploads[k]) && keep(uploads[l]));
    }
}

/// A file is chosen by its name where it is the only one of that name, whatever other names the
/// name is a part of. Where more than one has it, the error says so.
pub proof fn the_only_file_of_the_name_is_chosen(
    uploads: Seq<UploadView>,
    name: Seq<char>,
    k: int,
    l: int,
)
    ensures
        0 <= k < uploads.len() && uploads[k].file_name == name && (forall|i: int|
            0 <= i < uploads.len() && i != k ==> (#[trigger] uploads[i]).file_name != name)
            ==> chosen(uploads, None, Some(name)) == Ok::<UploadView, ErrorView>(uploads[k]),
        0 <= k < l < uploads.len() && uploads[k].file_name == name && uploads[l].file_name == name
            ==> (chosen(uploads, None, Some(name)) matches Err(
            ErrorView::FileNameNotUnique { name: told, .. },
        ) && told == name),
{
    let keep = |upload: UploadView| upload.file_name == name;
    assert(with_name(uploads, name) == uploads.filter(keep));
    filtered_once(uploads, keep);
    if 0 <= k < uploads.len() && uploads[k].file_name == name && (forall|i: int|
        0 <= i < uploads.len() && i != k ==> (#[trigger] uploads[i]).file_name != name) {
        filtered_of_one(uploads, keep, k);
    }
    if 0 <= k < l < uploads.len() && uploads[k].file_name == name && uploads[l].file_name == name {
        assert(keep(uploads[k]) && keep(uploads[l]));
    }
}

/// One file more is found by a part of its name behind the others, in small letters on both sides,
/// and is not found where the part is not in it.
pub proof fn one_file_more_is_found_last(
    uploads: Seq<UploadView>,
    upload: UploadView,
    part: Seq<char>,
)
    ensures
        with_part(Seq::empty(), part).len() == 0,
        contains_text(lower_case(upload.file_name), lower_case(part)) ==> with_part(
            uploads.push(upload),
            part,
        ) == with_part(uploads, part).push(upload),
        !contains_text(lower_case(upload.file_name), lower_case(part)) ==> with_part(
            uploads.push(upload),
            part,
        ) == with_part(uploads, part),
{
    let all = uploads.push(upload);
    assert(all.drop_last() =~= uploads);
    assert(lower_names(all) =~= lower_names(uploads).push(lower_case(upload.file_name)));
    names_behind_do_not_matter(
        uploads,
        lower_names(uploads),
        lower_case(upload.file_name),
        lower_case(part),
    );
}

proof fn names_behind_do_not_matter(
    uploads: Seq<UploadView>,
    lowered: Seq<Seq<char>>,
    name: Seq<char>,
    key: Seq<char>,
)
    requires
        uploads.len() <= lowered.len(),
    ensures
        with_key(uploads, lowered.push(name), key) == with_key(uploads, lowered, key),
    decreases uploads.len(),
{
    if uploads.len() > 0 {
        names_behind_do_not_matter(uploads.drop_last(), lowered, name, key);
    }
}

/// Where no file has the name, what is chosen is the only file whose name it is a part of, and
/// the error says where there is none, or more than one.
pub proof fn a_part_of_a_name_chooses_the_only_file(uploads: Seq<UploadView>, name: Seq<char>)
    requires
        forall|i: int| 0 <= i < uploads.len() ==> (#[trigger] uploads[i]).file_name != name,
    ensures
        with_part(uploads, name).len() == 0 ==> chosen(uploads, None, Some(name)) == Err::<
            UploadView,
            ErrorView,
        >(ErrorView::FileNameNotFound(name)),
        with_part(uploads, name).len() == 1 ==> chosen(uploads, None, Some(name)) == Ok::<
            UploadView,
            ErrorView,
        >(with_part(uploads, name)[0]),
        with_part(uploads, name).len() > 1 ==> (chosen(uploads, None, Some(name)) matches Err(
            ErrorView::FileNameNotUnique { name: told, .. },
        ) && told == name),
{
    let keep = |upload: UploadView| upload.file_name == name;
    assert(with_name(uploads, name) == uploads.filter(keep));
    filtered_of_none(uploads, keep);
}

/// The candidates are told line by line, each with its number, its reference and its name.
pub proof fn candidates_are_told_line_by_line(uploads: Seq<UploadView>, upload: UploadView)
    ensures
        candidates(Seq::empty()).len() == 0,
        candidate(upload) == "id="@ + decimal(upload.id as int) + " ref="@ + decimal(
            upload.reference_id as int,
        ) + " name="@ + upload.file_name,
        candidates(seq![upload]) == candidate(upload),
        uploads.len() > 0 ==> candidates(uploads.push(upload)) == candidates(uploads) + "\n"@
            + candidate(upload),
{
    let tell = |upload: UploadView| candidate(upload);
    assert(seq![upload].map_values(tell) =~= seq![candidate(upload)]);
    assert(uploads.push(upload).map_values(tell).drop_last() =~= uploads.map_values(tell));
}

} // verus!
