//! The classroom courses that searches find, each once and in order.
use vstd::prelude::*;
use crate::error::{outcome, Error, ErrorView};
use crate::json::{duplicate_all, Json, JsonView};
use crate::sorting::{in_order, put_in_order, Placed};
use crate::text::{is_blank, less, same, text_less, text_order_is_total, trimmed};

verus! {

/// A classroom course.
pub struct ClassroomCourse {
    pub course_id: i64,
    pub title: String,
    pub teacher: String,
    pub term: String,
}

/// What a classroom course says.
pub struct ClassroomCourseView {
    pub course_id: i64,
    pub title: Seq<char>,
    pub teacher: Seq<char>,
    pub term: Seq<char>,
}

impl DeepView for ClassroomCourse {
    type V = ClassroomCourseView;

    open spec fn deep_view(&self) -> ClassroomCourseView {
        ClassroomCourseView {
            course_id: self.course_id,
            title: self.title@,
            teacher: self.teacher@,
            term: self.term@,
        }
    }
}

impl Placed for ClassroomCourse {
    open spec fn precedes(a: ClassroomCourseView, b: ClassroomCourseView) -> bool {
        text_less(a.title, b.title) || (a.title == b.title && a.course_id < b.course_id)
    }

    fn before(&self, other: &Self) -> (yes: bool) {
        if less(self.title.as_str(), other.title.as_str()) {
            return true;
        }
        same(self.title.as_str(), other.title.as_str()) && self.course_id < other.course_id
    }

    proof fn order(a: ClassroomCourseView, b: ClassroomCourseView, c: ClassroomCourseView) {
        text_order_is_total(a.title, b.title, a.title);
        text_order_is_total(a.title, b.title, c.title);
        text_order_is_total(b.title, c.title, a.title);
        text_order_is_total(c.title, b.title, a.title);
        text_order_is_total(a.title, c.title, b.title);
        text_order_is_total(b.title, a.title, c.title);
    }
}

/// How classroom courses are looked for.
#[derive(Clone, Copy, PartialEq, Eq, Structural, Debug)]
pub enum ClassroomQuery {
    /// By the words that are given.
    Search,
    /// By the names of the courses of the account.
    Infer,
}

/// How classroom courses are looked for: by words only where some are given.
pub fn classroom_query(keyword: &str, teacher: &str) -> (query: ClassroomQuery)
    ensures
        query is Search <==> trimmed(keyword@).len() > 0 || trimmed(teacher@).len() > 0,
{
    if !is_blank(keyword) || !is_blank(teacher) {
        ClassroomQuery::Search
    } else {
        ClassroomQuery::Infer
    }
}

/// The names of courses that are not blank.
pub open spec fn names_in(courses: Seq<JsonView>) -> Seq<Seq<char>>
    decreases courses.len(),
{
    if courses.len() == 0 {
        Seq::empty()
    } else {
        let before = names_in(courses.drop_last());
        match courses.last().at("name"@).text() {
            Some(name) => if trimmed(name).len() > 0 {
                before.push(name)
            } else {
                before
            },
            None => before,
        }
    }
}

/// The names of courses that are not blank: the words of as many searches.
pub fn names_to_search(courses: &Vec<Json>) -> (names: Vec<String>)
    ensures
        names.deep_view() == names_in(courses.deep_view()),
{
    let ghost all = courses.deep_view();
    let mut names: Vec<String> = Vec::new();
    assert(names.deep_view() =~= Seq::<Seq<char>>::empty());
    for i in 0..courses.len()
        invariant
            all == courses.deep_view(),
            names.deep_view() == names_in(all.take(i as int)),
    {
        assert(all.take(i + 1).drop_last() =~= all.take(i as int));
        assert(all[i as int] == courses@[i as int]@);
        if let Some(name) = courses[i].text_at("name") {
            if !is_blank(name) {
                let ghost before = names.deep_view();
                names.push(name.to_owned());
                assert(names.deep_view() =~= before.push(name@));
            }
        }
    }
    assert(all.take(all.len() as int) =~= all);
    names
}

/// What the searches that succeeded have found, one after the other.
pub open spec fn found_in(searches: Seq<Result<Seq<JsonView>, ErrorView>>) -> Seq<JsonView>
    decreases searches.len(),
{
    if searches.len() == 0 {
        Seq::empty()
    } else {
        let before = found_in(searches.drop_last());
        match searches.last() {
            Ok(found) => before + found,
            Err(_) => before,
        }
    }
}

/// What searches say.
pub open spec fn outcomes(searches: Seq<Result<Vec<Json>, Error>>) -> Seq<
    Result<Seq<JsonView>, ErrorView>,
> {
    searches.map_values(|search: Result<Vec<Json>, Error>| outcome(search))
}

/// What the searches that succeeded have found, one after the other.
pub fn found_by(searches: &Vec<Result<Vec<Json>, Error>>) -> (found: Vec<Json>)
    ensures
        found.deep_view() == found_in(outcomes(searches@)),
{
    let ghost all = outcomes(searches@);
    let mut found: Vec<Json> = Vec::new();
    assert(found.deep_view() =~= Seq::<JsonView>::empty());
    for i in 0..searches.len()
        invariant
            all == outcomes(searches@),
            found.deep_view() == found_in(all.take(i as int)),
    {
        assert(all.take(i + 1).drop_last() =~= all.take(i as int));
        if let Ok(items) = &searches[i] {
            let ghost before = found.deep_view();
            let mut more = duplicate_all(items);
            found.append(&mut more);
            assert(found.deep_view() =~= before + items.deep_view());
        }
    }
    assert(all.take(all.len() as int) =~= all);
    found
}

/// The classroom course that an item describes; one without a number is none.
pub open spec fn course_in(item: JsonView) -> Option<ClassroomCourseView> {
    match item.at("course_id"@).signed() {
        None => None,
        Some(course_id) => Some(
            ClassroomCourseView {
                course_id,
                title: item.text_or("title"@, "Unknown"@),
                teacher: item.text_or("realname"@, ""@),
                term: item.text_or("term_name"@, ""@),
            },
        ),
    }
}

/// A course with this number is in the list.
pub open spec fn has_course(list: Seq<ClassroomCourseView>, course_id: i64) -> bool {
    exists|i: int| 0 <= i < list.len() && (#[trigger] list[i]).course_id == course_id
}

/// The courses that items describe; of those with the same number, the first.
pub open spec fn courses_in(items: Seq<JsonView>) -> Seq<ClassroomCourseView>
    decreases items.len(),
{
    if items.len() == 0 {
        Seq::empty()
    } else {
        let before = courses_in(items.drop_last());
        match course_in(items.last()) {
            Some(course) => if has_course(before, course.course_id) {
                before
            } else {
                before.push(course)
            },
            None => before,
        }
    }
}

fn listed(list: &Vec<ClassroomCourse>, course_id: i64) -> (yes: bool)
    ensures
        yes == has_course(list.deep_view(), course_id),
{
    let ghost all = list.deep_view();
    for i in 0..list.len()
        invariant
            all == list.deep_view(),
            forall|j: int| 0 <= j < i ==> (#[trigger] all[j]).course_id != course_id,
    {
        assert(all[i as int] == list@[i as int].deep_view());
        if list[i].course_id == course_id {
            return true;
        }
    }
    false
}

/// The classroom courses that searches have found: by their titles, each once.
pub fn get_classroom_courses(found: &Vec<Json>) -> (courses: Vec<ClassroomCourse>)
    ensures
        in_order::<ClassroomCourse>(courses.deep_view()),
        courses.deep_view().to_multiset() == courses_in(found.deep_view()).to_multiset(),
{
    let ghost all = found.deep_view();
    let mut courses: Vec<ClassroomCourse> = Vec::new();
    assert(courses.deep_view() =~= Seq::<ClassroomCourseView>::empty());
    for i in 0..found.len()
        invariant
            all == found.deep_view(),
            courses.deep_view() == courses_in(all.take(i as int)),
    {
        assert(all.take(i + 1).drop_last() =~= all.take(i as int));
        assert(all[i as int] == found@[i as int]@);
        let item = &found[i];
        if let Some(course_id) = item.i64_at("course_id") {
            if !listed(&courses, course_id) {
                let course = ClassroomCourse {
                    course_id,
                    title: item.text_or("title", "Unknown"),
                    teacher: item.text_or("realname", ""),
                    term: item.text_or("term_name", ""),
                };
                let ghost before = courses.deep_view();
                courses.push(course);
                assert(courses.deep_view() =~= before.push(course.deep_view()));
            }
        }
    }
    assert(all.take(all.len() as int) =~= all);
    put_in_order(courses)
}

/// No two courses have the same number, so that their order leaves nothing open.
pub proof fn no_course_is_listed_twice(items: Seq<JsonView>)
    ensures
        ({
            let courses = courses_in(items);
            forall|i: int, j: int|
                0 <= i < j < courses.len() ==> (#[trigger] courses[i]).course_id != (
                #[trigger] courses[j]).course_id
        }),
    decreases items.len(),
{
    if items.len() > 0 {
        no_course_is_listed_twice(items.drop_last());
        let before = courses_in(items.drop_last());
        let courses = courses_in(items);
        assert forall|i: int, j: int| 0 <= i < j < courses.len() implies (
        #[trigger] courses[i]).course_id != (#[trigger] courses[j]).course_id by {
            assert(courses[i] == before[i]);
            if j < before.len() {
                assert(courses[j] == before[j]);
            }
        }
    }
}

/// One course more has its name searched for behind the others, unless it has none or a blank one.
pub proof fn one_course_more_is_searched_for_last(courses: Seq<JsonView>, course: JsonView)
    ensures
        names_in(Seq::empty()).len() == 0,
        course.at("name"@).text() is None ==> names_in(courses.push(course)) == names_in(courses),
        course.at("name"@).text() matches Some(name) ==> if trimmed(name).len() == 0 {
            names_in(courses.push(course)) == names_in(courses)
        } else {
            names_in(courses.push(course)) == names_in(courses).push(name)
        },
{
    assert(courses.push(course).drop_last() =~= courses);
}

/// What one search more finds stands behind what the others found, and a search that failed finds
/// nothing.
pub proof fn searches_are_put_behind_each_other(
    searches: Seq<Result<Seq<JsonView>, ErrorView>>,
    found: Seq<JsonView>,
    error: ErrorView,
)
    ensures
        found_in(Seq::empty()).len() == 0,
        found_in(searches.push(Ok(found))) == found_in(searches) + found,
        found_in(searches.push(Err(error))) == found_in(searches),
{
    assert(searches.push(Ok(found)).drop_last() =~= searches);
    assert(searches.push(Err(error)).drop_last() =~= searches);
}

/// A course is the one that an item says: its own number, and its title, its teacher and its term
/// where they are there.
pub open spec fn is_course_of(item: JsonView, course: ClassroomCourseView) -> bool {
    &&& item.at("course_id"@).signed() == Some(course.course_id)
    &&& match item.at("title"@).text() {
        Some(title) => course.title == title,
        None => course.title == "Unknown"@,
    }
    &&& match item.at("realname"@).text() {
        Some(teacher) => course.teacher == teacher,
        None => course.teacher == ""@,
    }
    &&& match item.at("term_name"@).text() {
        Some(term) => course.term == term,
        None => course.term == ""@,
    }
}

/// One item more is one course more, behind the others and as the item says, where it has a number
/// that none of them has. Otherwise nothing changes.
pub proof fn one_item_more_is_a_new_course(items: Seq<JsonView>, item: JsonView)
    ensures
        courses_in(Seq::empty()).len() == 0,
        ({
            let before = courses_in(items);
            let after = courses_in(items.push(item));
            match item.at("course_id"@).signed() {
                None => after == before,
                Some(number) => if exists|i: int|
                    0 <= i < before.len() && (#[trigger] before[i]).course_id == number {
                    after == before
                } else {
                    &&& after.len() == before.len() + 1
                    &&& after.drop_last() == before
                    &&& is_course_of(item, after.last())
                },
            }
        }),
{
    assert(items.push(item).drop_last() =~= items);
    let before = courses_in(items);
    let after = courses_in(items.push(item));
    if after.len() > before.len() {
        assert(after.drop_last() =~= before);
    }
}

/// Courses in order stand by their titles, and those of one title by their numbers.
pub proof fn courses_stand_by_their_titles(list: Seq<ClassroomCourseView>, i: int, j: int)
    requires
        in_order::<ClassroomCourse>(list),
        0 <= i < j < list.len(),
    ensures
        list[i].title == list[j].title || text_less(list[i].title, list[j].title),
        list[i].title == list[j].title ==> list[i].course_id <= list[j].course_id,
{
    assert(!ClassroomCourse::precedes(list[j], list[i]));
    text_order_is_total(list[i].title, list[j].title, list[i].title);
}

} // verus!
