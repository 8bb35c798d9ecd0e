//! The lines of a live transcript: how they are read, told apart, merged and written out.
use vstd::prelude::*;
use crate::json::{json_of_text, parse_text, Json, JsonView};
use crate::model::{
    LineView, LiveTranscriptLine, SubtitleContent, SubtitleView,
};
use crate::numeral::{decimal, i64_text, numbers_are_written_apart, numbers_are_written_in_digits};
use crate::text::{
    a_part_is_found_where_it_stands, after_prefix, is_blank, join, joined, same, strip_prefix, trim,
    trimmed,
};
use crate::zju_assist::ZjuAssist;

verus! {

// ---------------------------------------------------------------- reading a line

/// The text in the first of two fields that is there, without the space around it; an empty
/// text if there is none.
pub open spec fn text_in(value: JsonView, key: Seq<char>, other: Seq<char>) -> Seq<char> {
    let field = match value.get(key) {
        Some(field) => Some(field),
        None => value.get(other),
    };
    match field {
        Some(field) => match field.text() {
            Some(text) => trimmed(text),
            None => Seq::empty(),
        },
        None => Seq::empty(),
    }
}

/// The line that a value describes, received at a time; one without any text is none.
pub open spec fn line_in(value: JsonView, received_at_ms: u64) -> Option<LineView> {
    let source_text = text_in(value, "sourcetext"@, "source_text"@);
    let trans_text = text_in(value, "transtext"@, "trans_text"@);
    if source_text.len() == 0 && trans_text.len() == 0 {
        None
    } else {
        Some(
            LineView {
                source_text,
                trans_text,
                text_begin_time: value.at("text_begin_time"@).signed(),
                text_end_time: value.at("text_end_time"@).signed(),
                end_time: value.at("end_time"@).signed(),
                received_at_ms,
            },
        )
    }
}

fn text_of(value: &Json, key: &str, other: &str) -> (text: String)
    ensures
        text@ == text_in(value@, key@, other@),
{
    let field = match value.get(key) {
        Some(field) => Some(field),
        None => value.get(other),
    };
    match field {
        Some(field) => match field.as_text() {
            Some(text) => trim(text),
            None => String::new(),
        },
        None => String::new(),
    }
}

impl ZjuAssist {
    /// The line that a value describes, received at a time; one without any text is none.
    pub fn parse_live_line(value: &Json, received_at_ms: u64) -> (line: Option<LiveTranscriptLine>)
        ensures
            line.deep_view() == line_in(value@, received_at_ms),
    {
        let source_text = text_of(value, "sourcetext", "source_text");
        let trans_text = text_of(value, "transtext", "trans_text");
        if source_text.as_str().is_empty() && trans_text.as_str().is_empty() {
            return None;
        }
        Some(
            LiveTranscriptLine {
                source_text,
                trans_text,
                text_begin_time: value.i64_at("text_begin_time"),
                text_end_time: value.i64_at("text_end_time"),
                end_time: value.i64_at("end_time"),
                received_at_ms,
            },
        )
    }
}

// ---------------------------------------------------------------- telling lines apart

/// A time as it stands in the key of a line.
pub open spec fn time_key(time: Option<i64>) -> Seq<char> {
    match time {
        None => "None"@,
        Some(time) => "Some("@ + decimal(time as int) + ")"@,
    }
}

/// The key of a line: two lines with the same key are the same line.
pub open spec fn line_key(line: LineView) -> Seq<char> {
    time_key(line.text_begin_time) + "|"@ + time_key(line.text_end_time) + "|"@ + line.source_text
        + "|"@ + line.trans_text
}

/// The keys of lines.
pub open spec fn keys_of(lines: Seq<LineView>) -> Seq<Seq<char>> {
    lines.map_values(|line: LineView| line_key(line))
}

/// Lines and the keys that are taken, after one line more: a line whose key is taken is left
/// out.
pub open spec fn with_line(
    lines: Seq<LineView>,
    keys: Seq<Seq<char>>,
    line: LineView,
) -> (Seq<LineView>, Seq<Seq<char>>) {
    if keys.contains(line_key(line)) {
        (lines, keys)
    } else {
        (lines.push(line), keys.push(line_key(line)))
    }
}

/// Lines and the keys that are taken, after more lines, one by one.
pub open spec fn merged(
    lines: Seq<LineView>,
    keys: Seq<Seq<char>>,
    more: Seq<LineView>,
) -> (Seq<LineView>, Seq<Seq<char>>)
    decreases more.len(),
{
    if more.len() == 0 {
        (lines, keys)
    } else {
        let before = merged(lines, keys, more.drop_last());
        with_line(before.0, before.1, more.last())
    }
}

fn time_text(time: Option<i64>) -> (text: String)
    ensures
        text@ == time_key(time),
{
    match time {
        None => "None".to_owned(),
        Some(time) => {
            let mut text = "Some(".to_owned();
            text.append(i64_text(time).as_str());
            text.append(")");
            text
        },
    }
}

fn key_text(line: &LiveTranscriptLine) -> (key: String)
    ensures
        key@ == line_key(line.deep_view()),
{
    let mut key = time_text(line.text_begin_time);
    key.append("|");
    key.append(time_text(line.text_end_time).as_str());
    key.append("|");
    key.append(line.source_text.as_str());
    key.append("|");
    key.append(line.trans_text.as_str());
    key
}

/// The keys of lines.
pub fn line_keys(lines: &Vec<LiveTranscriptLine>) -> (keys: Vec<String>)
    ensures
        keys.deep_view() == keys_of(lines.deep_view()),
{
    let ghost all = lines.deep_view();
    let mut keys: Vec<String> = Vec::new();
    for i in 0..lines.len()
        invariant
            all == lines.deep_view(),
            keys.deep_view() =~= keys_of(all.take(i as int)),
    {
        let ghost before = keys.deep_view();
        let key = key_text(&lines[i]);
        keys.push(key);
        assert(keys.deep_view() =~= before.push(key@));
        assert(all[i as int] == lines@[i as int].deep_view());
    }
    assert(all.take(all.len() as int) =~= all);
    keys
}

fn has_key(keys: &Vec<String>, key: &str) -> (yes: bool)
    ensures
        yes == keys.deep_view().contains(key@),
{
    let ghost all = keys.deep_view();
    for i in 0..keys.len()
        invariant
            all == keys.deep_view(),
            forall|j: int| 0 <= j < i ==> all[j] != key@,
    {
        if same(keys[i].as_str(), key) {
            assert(all[i as int] == key@);
            return true;
        }
    }
    false
}

/// Adds a line, unless its key is taken.
pub fn add_line(
    lines: &mut Vec<LiveTranscriptLine>,
    keys: &mut Vec<String>,
    line: LiveTranscriptLine,
)
    ensures
        (final(lines).deep_view(), final(keys).deep_view()) == with_line(
            old(lines).deep_view(),
            old(keys).deep_view(),
            line.deep_view(),
        ),
{
    let key = key_text(&line);
    if has_key(&*keys, key.as_str()) {
        return;
    }
    let ghost lines_before = lines.deep_view();
    let ghost keys_before = keys.deep_view();
    keys.push(key);
    lines.push(line);
    assert(keys.deep_view() =~= keys_before.push(key@));
    assert(lines.deep_view() =~= lines_before.push(line.deep_view()));
}

/// Merging only adds: the lines and keys that were there stay, in their places; with every
/// line added, its key is added too.
pub proof fn merging_only_adds(
    lines: Seq<LineView>,
    keys: Seq<Seq<char>>,
    more: Seq<LineView>,
)
    ensures
        ({
            let (after, taken) = merged(lines, keys, more);
            &&& lines.len() <= after.len() <= lines.len() + more.len()
            &&& after.take(lines.len() as int) =~= lines
            &&& taken =~= keys + keys_of(after.skip(lines.len() as int))
            &&& forall|i: int| lines.len() <= i < after.len() ==> more.contains(#[trigger] after[i])
        }),
    decreases more.len(),
{
    if more.len() > 0 {
        merging_only_adds(lines, keys, more.drop_last());
        let (before, taken) = merged(lines, keys, more.drop_last());
        let (after, _) = merged(lines, keys, more);
        if !taken.contains(line_key(more.last())) {
            assert(after.skip(lines.len() as int) =~= before.skip(lines.len() as int).push(
                more.last(),
            ));
            assert(keys_of(after.skip(lines.len() as int)) =~= keys_of(
                before.skip(lines.len() as int),
            ).push(line_key(more.last())));
        }
        assert forall|i: int| lines.len() <= i < after.len() implies more.contains(
            #[trigger] after[i],
        ) by {
            if i < before.len() {
                assert(more.drop_last().contains(before[i]));
                let j = choose|j: int| 0 <= j < more.len() - 1 && more.drop_last()[j] == before[i];
                assert(more[j] == after[i]);
            } else {
                assert(more[more.len() - 1] == after[i]);
            }
        }
    } else {
        assert(keys_of(lines.skip(lines.len() as int)) =~= Seq::<Seq<char>>::empty());
    }
}

/// Merging loses nothing: afterwards the key of every line that was offered is taken.
pub proof fn merging_takes_every_key(
    lines: Seq<LineView>,
    keys: Seq<Seq<char>>,
    more: Seq<LineView>,
)
    ensures
        forall|i: int|
            0 <= i < more.len() ==> merged(lines, keys, more).1.contains(
                line_key(#[trigger] more[i]),
            ),
        forall|key: Seq<char>| #[trigger]
            keys.contains(key) ==> merged(lines, keys, more).1.contains(key),
    decreases more.len(),
{
    if more.len() > 0 {
        let before = merged(lines, keys, more.drop_last()).1;
        let after = merged(lines, keys, more).1;
        merging_takes_every_key(lines, keys, more.drop_last());
        assert forall|key: Seq<char>| before.contains(key) implies after.contains(key) by {
            let j = choose|j: int| 0 <= j < before.len() && before[j] == key;
            assert(after[j] == key);
        }
        assert forall|i: int| 0 <= i < more.len() implies after.contains(
            line_key(#[trigger] more[i]),
        ) by {
            if i < more.len() - 1 {
                assert(more.drop_last()[i] == more[i]);
            } else if !before.contains(line_key(more.last())) {
                assert(after[before.len() as int] == line_key(more.last()));
            }
        }
    }
}

/// Merging brings no key twice: where the keys that are taken are all different, they are so
/// afterwards.
pub proof fn merging_keeps_keys_apart(
    lines: Seq<LineView>,
    keys: Seq<Seq<char>>,
    more: Seq<LineView>,
)
    requires
        keys.no_duplicates(),
    ensures
        merged(lines, keys, more).1.no_duplicates(),
    decreases more.len(),
{
    if more.len() > 0 {
        merging_keeps_keys_apart(lines, keys, more.drop_last());
    }
}

/// Lines whose keys are all taken change nothing.
proof fn taken_lines_change_nothing(
    lines: Seq<LineView>,
    keys: Seq<Seq<char>>,
    more: Seq<LineView>,
)
    requires
        forall|i: int| 0 <= i < more.len() ==> keys.contains(line_key(#[trigger] more[i])),
    ensures
        merged(lines, keys, more) == (lines, keys),
    decreases more.len(),
{
    if more.len() > 0 {
        assert forall|i: int| 0 <= i < more.drop_last().len() implies keys.contains(
            line_key(#[trigger] more.drop_last()[i]),
        ) by {
            assert(more.drop_last()[i] == more[i]);
        }
        taken_lines_change_nothing(lines, keys, more.drop_last());
        assert(keys.contains(line_key(more[more.len() - 1])));
    }
}

/// Merging the same lines a second time changes nothing.
pub proof fn merging_twice_is_merging_once(
    lines: Seq<LineView>,
    keys: Seq<Seq<char>>,
    more: Seq<LineView>,
)
    ensures
        ({
            let (after, taken) = merged(lines, keys, more);
            merged(after, taken, more) == (after, taken)
        }),
{
    let (after, taken) = merged(lines, keys, more);
    merging_takes_every_key(lines, keys, more);
    taken_lines_change_nothing(after, taken, more);
}

// ---------------------------------------------------------------- messages

/// The mark before the lines in a message.
pub const MESSAGE_MARK: &'static str = "cd1&m";

/// The values in a message that may be lines: the message itself, then those in its list.
pub open spec fn line_candidates(json: JsonView) -> Seq<JsonView> {
    let own = if json.fields() is Some {
        seq![json]
    } else {
        Seq::empty()
    };
    match json.at("list"@).items() {
        Some(items) => own + items,
        None => own,
    }
}

/// The lines among values.
pub open spec fn lines_in(values: Seq<JsonView>, received_at_ms: u64) -> Seq<LineView>
    decreases values.len(),
{
    if values.len() == 0 {
        Seq::empty()
    } else {
        let before = lines_in(values.drop_last(), received_at_ms);
        match line_in(values.last(), received_at_ms) {
            Some(line) => before.push(line),
            None => before,
        }
    }
}

/// The lines in a message: none, unless it carries the mark and JSON after it.
pub open spec fn message_lines(text: Seq<char>, received_at_ms: u64) -> Seq<LineView> {
    match after_prefix(text, MESSAGE_MARK@) {
        Some(payload) => match json_of_text(payload) {
            Ok(json) => lines_in(line_candidates(json), received_at_ms),
            Err(_) => Seq::empty(),
        },
        None => Seq::empty(),
    }
}

/// Adds the lines among values.
fn add_values(
    lines: &mut Vec<LiveTranscriptLine>,
    keys: &mut Vec<String>,
    values: &Vec<Json>,
    received_at_ms: u64,
)
    ensures
        (final(lines).deep_view(), final(keys).deep_view()) == merged(
            old(lines).deep_view(),
            old(keys).deep_view(),
            lines_in(values.deep_view(), received_at_ms),
        ),
{
    let ghost all = values.deep_view();
    for i in 0..values.len()
        invariant
            all == values.deep_view(),
            (lines.deep_view(), keys.deep_view()) == merged(
                old(lines).deep_view(),
                old(keys).deep_view(),
                lines_in(all.take(i as int), received_at_ms),
            ),
    {
        assert(all.take(i + 1).drop_last() =~= all.take(i as int));
        assert(all[i as int] == values@[i as int]@);
        let ghost read = lines_in(all.take(i as int), received_at_ms);
        if let Some(line) = ZjuAssist::parse_live_line(&values[i], received_at_ms) {
            assert(read.push(line.deep_view()).drop_last() =~= read);
            add_line(lines, keys, line);
        }
    }
    assert(all.take(all.len() as int) =~= all);
}

proof fn merging_in_turn(
    lines: Seq<LineView>,
    keys: Seq<Seq<char>>,
    more: Seq<LineView>,
    rest: Seq<LineView>,
)
    ensures
        merged(lines, keys, more + rest) == merged(
            merged(lines, keys, more).0,
            merged(lines, keys, more).1,
            rest,
        ),
    decreases rest.len(),
{
    if rest.len() > 0 {
        merging_in_turn(lines, keys, more, rest.drop_last());
        assert((more + rest).drop_last() =~= more + rest.drop_last());
    } else {
        assert(more + rest =~= more);
    }
}

proof fn lines_in_turn(values: Seq<JsonView>, rest: Seq<JsonView>, received_at_ms: u64)
    ensures
        lines_in(values + rest, received_at_ms) == lines_in(values, received_at_ms) + lines_in(
            rest,
            received_at_ms,
        ),
    decreases rest.len(),
{
    let read = lines_in(values, received_at_ms);
    if rest.len() > 0 {
        lines_in_turn(values, rest.drop_last(), received_at_ms);
        assert((values + rest).drop_last() =~= values + rest.drop_last());
        assert(lines_in(values + rest, received_at_ms) =~= read + lines_in(rest, received_at_ms));
    } else {
        assert(values + rest =~= values);
        assert(read + Seq::<LineView>::empty() =~= read);
    }
}

impl ZjuAssist {
    /// Adds the lines of a message whose content is read.
    pub fn take_live_lines(
        lines: &mut Vec<LiveTranscriptLine>,
        keys: &mut Vec<String>,
        json: &Json,
        received_at_ms: u64,
    )
        ensures
            (final(lines).deep_view(), final(keys).deep_view()) == merged(
                old(lines).deep_view(),
                old(keys).deep_view(),
                lines_in(line_candidates(json@), received_at_ms),
            ),
    {
        let ghost own = if json@.fields() is Some {
            seq![json@]
        } else {
            Seq::empty()
        };
        let ghost first = lines_in(own, received_at_ms);
        if json.as_object().is_some() {
            assert(own.drop_last() =~= Seq::<JsonView>::empty());
            assert(lines_in(own.drop_last(), received_at_ms) == Seq::<LineView>::empty());
            let ghost none = Seq::<LineView>::empty();
            if let Some(line) = ZjuAssist::parse_live_line(json, received_at_ms) {
                assert(none.push(line.deep_view()).drop_last() =~= none);
                assert(first =~= none.push(line.deep_view()));
                assert(merged(old(lines).deep_view(), old(keys).deep_view(), none) == (
                    old(lines).deep_view(),
                    old(keys).deep_view(),
                ));
                add_line(lines, keys, line);
            }
        }
        assert((lines.deep_view(), keys.deep_view()) == merged(
            old(lines).deep_view(),
            old(keys).deep_view(),
            first,
        ));
        if let Some(items) = json.array_at("list") {
            add_values(lines, keys, items, received_at_ms);
            proof {
                lines_in_turn(own, items.deep_view(), received_at_ms);
                merging_in_turn(
                    old(lines).deep_view(),
                    old(keys).deep_view(),
                    first,
                    lines_in(items.deep_view(), received_at_ms),
                );
            }
        }
    }

    /// Adds the lines of a message; a message that carries none is passed over.
    pub fn parse_live_ws_message(
        lines: &mut Vec<LiveTranscriptLine>,
        keys: &mut Vec<String>,
        text: &str,
        received_at_ms: u64,
    )
        ensures
            (final(lines).deep_view(), final(keys).deep_view()) == merged(
                old(lines).deep_view(),
                old(keys).deep_view(),
                message_lines(text@, received_at_ms),
            ),
    {
        if let Some(payload) = strip_prefix(text, MESSAGE_MARK) {
            if let Ok(json) = parse_text(payload.as_str()) {
                ZjuAssist::take_live_lines(lines, keys, &json, received_at_ms);
            }
        }
    }
}

proof fn keys_are_timeless(values: Seq<JsonView>, one: u64, other: u64)
    ensures
        keys_of(lines_in(values, one)) == keys_of(lines_in(values, other)),
        lines_in(values, one).len() == lines_in(values, other).len(),
    decreases values.len(),
{
    if values.len() > 0 {
        keys_are_timeless(values.drop_last(), one, other);
        let (a, b) = (lines_in(values.drop_last(), one), lines_in(values.drop_last(), other));
        if let Some(x) = line_in(values.last(), one) {
            let y = line_in(values.last(), other)->0;
            assert(keys_of(a.push(x)) =~= keys_of(a).push(line_key(x)));
            assert(keys_of(b.push(y)) =~= keys_of(b).push(line_key(y)));
        }
    } else {
        assert(keys_of(lines_in(values, one)) =~= keys_of(lines_in(values, other)));
    }
}

/// The same message a second time, at whatever time, adds nothing.
pub proof fn a_message_heard_twice_adds_nothing(
    lines: Seq<LineView>,
    keys: Seq<Seq<char>>,
    text: Seq<char>,
    first_at_ms: u64,
    second_at_ms: u64,
)
    ensures
        ({
            let (after, taken) = merged(lines, keys, message_lines(text, first_at_ms));
            merged(after, taken, message_lines(text, second_at_ms)) == (after, taken)
        }),
{
    let first = message_lines(text, first_at_ms);
    let second = message_lines(text, second_at_ms);
    let (after, taken) = merged(lines, keys, first);
    if let Some(payload) = after_prefix(text, MESSAGE_MARK@) {
        if let Ok(json) = json_of_text(payload) {
            keys_are_timeless(line_candidates(json), first_at_ms, second_at_ms);
        }
    }
    assert(keys_of(first) == keys_of(second) && first.len() == second.len());
    merging_takes_every_key(lines, keys, first);
    assert forall|i: int| 0 <= i < second.len() implies taken.contains(
        line_key(#[trigger] second[i]),
    ) by {
        assert(keys_of(first)[i] == line_key(first[i]));
        assert(keys_of(second)[i] == line_key(second[i]));
        assert(taken.contains(line_key(first[i])));
    }
    taken_lines_change_nothing(after, taken, second);
}

// ---------------------------------------------------------------- recorded transcripts

/// An unsigned number read as a signed one of the same bits.
pub open spec fn reread(n: u64) -> i64 {
    if n <= i64::MAX {
        n as i64
    } else {
        (n - 0x1_0000_0000_0000_0000) as i64
    }
}

fn to_signed(n: u64) -> (m: i64)
    ensures
        m == reread(n),
{
    if n <= i64::MAX as u64 {
        n as i64
    } else {
        let distance: i64 = (u64::MAX - n) as i64;
        -distance - 1
    }
}

/// The line of a live transcript that a line of a recorded one corresponds to.
pub open spec fn recorded_line(item: SubtitleView, received_at_ms: u64) -> LineView {
    LineView {
        source_text: trimmed(item.text),
        trans_text: trimmed(item.trans_text),
        text_begin_time: Some(reread(item.begin_sec)),
        text_end_time: Some(reread(item.end_sec)),
        end_time: Some(reread(item.end_sec)),
        received_at_ms,
    }
}

/// The lines of a recorded transcript that have any text.
pub open spec fn recorded_lines(items: Seq<SubtitleView>, received_at_ms: u64) -> Seq<LineView>
    decreases items.len(),
{
    if items.len() == 0 {
        Seq::empty()
    } else {
        let before = recorded_lines(items.drop_last(), received_at_ms);
        let line = recorded_line(items.last(), received_at_ms);
        if line.source_text.len() == 0 && line.trans_text.len() == 0 {
            before
        } else {
            before.push(line)
        }
    }
}

/// Lines after those of a recorded transcript are merged in.
pub open spec fn backfilled(
    lines: Seq<LineView>,
    items: Seq<SubtitleView>,
    received_at_ms: u64,
) -> Seq<LineView> {
    merged(lines, keys_of(lines), recorded_lines(items, received_at_ms)).0
}

/// Merges the lines of a recorded transcript in.
pub fn backfill(
    lines: &mut Vec<LiveTranscriptLine>,
    items: &Vec<SubtitleContent>,
    received_at_ms: u64,
) -> (inserted: usize)
    ensures
        final(lines).deep_view() == backfilled(
            old(lines).deep_view(),
            items.deep_view(),
            received_at_ms,
        ),
        inserted == final(lines)@.len() - old(lines)@.len(),
{
    let ghost start = lines.deep_view();
    let ghost all = items.deep_view();
    let count: usize = lines.len();
    let mut keys = line_keys(lines);
    for i in 0..items.len()
        invariant
            all == items.deep_view(),
            (lines.deep_view(), keys.deep_view()) == merged(
                start,
                keys_of(start),
                recorded_lines(all.take(i as int), received_at_ms),
            ),
    {
        assert(all.take(i + 1).drop_last() =~= all.take(i as int));
        let item = &items[i];
        assert(all[i as int] == item.deep_view());
        let ghost read = recorded_lines(all.take(i as int), received_at_ms);
        let line = LiveTranscriptLine {
            source_text: trim(item.text.as_str()),
            trans_text: trim(item.trans_text.as_str()),
            text_begin_time: Some(to_signed(item.begin_sec)),
            text_end_time: Some(to_signed(item.end_sec)),
            end_time: Some(to_signed(item.end_sec)),
            received_at_ms,
        };
        if !line.source_text.as_str().is_empty() || !line.trans_text.as_str().is_empty() {
            assert(read.push(line.deep_view()).drop_last() =~= read);
            add_line(lines, &mut keys, line);
        }
    }
    assert(all.take(all.len() as int) =~= all);
    proof {
        merging_only_adds(start, keys_of(start), recorded_lines(all, received_at_ms));
    }
    assert(lines.deep_view().len() == lines@.len());
    assert(start.len() == count);
    lines.len() - count
}

proof fn recorded_keys_are_timeless(items: Seq<SubtitleView>, one: u64, other: u64)
    ensures
        keys_of(recorded_lines(items, one)) == keys_of(recorded_lines(items, other)),
        recorded_lines(items, one).len() == recorded_lines(items, other).len(),
    decreases items.len(),
{
    if items.len() > 0 {
        recorded_keys_are_timeless(items.drop_last(), one, other);
        let (a, b) = (
            recorded_lines(items.drop_last(), one),
            recorded_lines(items.drop_last(), other),
        );
        let (x, y) = (recorded_line(items.last(), one), recorded_line(items.last(), other));
        assert(keys_of(a.push(x)) =~= keys_of(a).push(line_key(x)));
        assert(keys_of(b.push(y)) =~= keys_of(b).push(line_key(y)));
    } else {
        assert(keys_of(recorded_lines(items, one)) =~= keys_of(recorded_lines(items, other)));
    }
}

/// Merging the same recorded transcript in a second time, at whatever time, adds nothing.
pub proof fn backfilling_twice_is_backfilling_once(
    lines: Seq<LineView>,
    items: Seq<SubtitleView>,
    first_at_ms: u64,
    second_at_ms: u64,
)
    ensures
        backfilled(backfilled(lines, items, first_at_ms), items, second_at_ms) == backfilled(
            lines,
            items,
            first_at_ms,
        ),
{
    let first = recorded_lines(items, first_at_ms);
    let second = recorded_lines(items, second_at_ms);
    let after = backfilled(lines, items, first_at_ms);
    merging_only_adds(lines, keys_of(lines), first);
    merging_takes_every_key(lines, keys_of(lines), first);
    recorded_keys_are_timeless(items, first_at_ms, second_at_ms);
    let taken = merged(lines, keys_of(lines), first).1;
    assert(taken =~= keys_of(after)) by {
        assert(after =~= lines + after.skip(lines.len() as int));
    }
    assert forall|i: int| 0 <= i < second.len() implies keys_of(after).contains(
        line_key(#[trigger] second[i]),
    ) by {
        assert(keys_of(first)[i] == line_key(first[i]));
        assert(keys_of(second)[i] == line_key(second[i]));
        assert(taken.contains(line_key(first[i])));
    }
    taken_lines_change_nothing(after, keys_of(after), second);
}

// ---------------------------------------------------------------- writing lines out

/// A time as it is written out.
pub open spec fn time_shown(time: Option<i64>) -> Seq<char> {
    match time {
        Some(time) => decimal(time as int),
        None => "?"@,
    }
}

/// The end of a line: the end of its text, or else the end that the line has.
pub open spec fn end_of(line: LineView) -> Option<i64> {
    match line.text_end_time {
        Some(time) => Some(time),
        None => line.end_time,
    }
}

/// A line as it is written out, with or without the original and the times.
pub open spec fn row_of(
    line: LineView,
    include_original: bool,
    with_timestamps: bool,
) -> Seq<char> {
    let times = if with_timestamps {
        "["@ + time_shown(line.text_begin_time) + "-"@ + time_shown(end_of(line)) + "] "@
    } else {
        Seq::empty()
    };
    let original = if include_original && line.source_text.len() > 0 {
        line.source_text + "\n"@
    } else {
        Seq::empty()
    };
    times + original + line.trans_text
}

/// The rows of lines; blank ones are left out.
pub open spec fn rows_of(
    lines: Seq<LineView>,
    include_original: bool,
    with_timestamps: bool,
) -> Seq<Seq<char>>
    decreases lines.len(),
{
    if lines.len() == 0 {
        Seq::empty()
    } else {
        let before = rows_of(lines.drop_last(), include_original, with_timestamps);
        let row = row_of(lines.last(), include_original, with_timestamps);
        if trimmed(row).len() == 0 {
            before
        } else {
            before.push(row)
        }
    }
}

/// Lines as they are written out.
pub open spec fn transcript_text(
    lines: Seq<LineView>,
    include_original: bool,
    with_timestamps: bool,
) -> Seq<char> {
    joined(rows_of(lines, include_original, with_timestamps), "\n"@)
}

fn show_time(time: Option<i64>) -> (text: String)
    ensures
        text@ == time_shown(time),
{
    match time {
        Some(time) => i64_text(time),
        None => "?".to_owned(),
    }
}

fn row_text(line: &LiveTranscriptLine, include_original: bool, with_timestamps: bool) -> (row:
    String)
    ensures
        row@ == row_of(line.deep_view(), include_original, with_timestamps),
{
    let mut row = String::new();
    if with_timestamps {
        let end = match line.text_end_time {
            Some(time) => Some(time),
            None => line.end_time,
        };
        row.append("[");
        row.append(show_time(line.text_begin_time).as_str());
        row.append("-");
        row.append(show_time(end).as_str());
        row.append("] ");
        assert(row@ =~= "["@ + time_shown(line.text_begin_time) + "-"@ + time_shown(end) + "] "@);
    }
    let ghost times = row@;
    if include_original && !line.source_text.as_str().is_empty() {
        row.append(line.source_text.as_str());
        row.append("\n");
        assert(row@ =~= times + (line.source_text@ + "\n"@));
    } else {
        assert(row@ =~= times + Seq::<char>::empty());
    }
    row.append(line.trans_text.as_str());
    row
}

/// Lines as they are written out.
pub fn write_transcript(
    lines: &Vec<LiveTranscriptLine>,
    include_original: bool,
    with_timestamps: bool,
) -> (text: String)
    ensures
        text@ == transcript_text(lines.deep_view(), include_original, with_timestamps),
{
    let ghost all = lines.deep_view();
    let mut rows: Vec<String> = Vec::new();
    assert(rows.deep_view() =~= Seq::<Seq<char>>::empty());
    for i in 0..lines.len()
        invariant
            all == lines.deep_view(),
            rows.deep_view() == rows_of(all.take(i as int), include_original, with_timestamps),
    {
        assert(all.take(i + 1).drop_last() =~= all.take(i as int));
        assert(all[i as int] == lines@[i as int].deep_view());
        let row = row_text(&lines[i], include_original, with_timestamps);
        if !is_blank(row.as_str()) {
            let ghost before = rows.deep_view();
            rows.push(row);
            assert(rows.deep_view() =~= before.push(row@));
        }
    }
    assert(all.take(all.len() as int) =~= all);
    join(&rows, "\n")
}

// ---------------------------------------------------------------- what lines say

/// A text is the one that a field says, or another field where the first is not there: without
/// the space around it, and empty where there is none.
pub open spec fn is_said_in(
    value: JsonView,
    key: Seq<char>,
    other: Seq<char>,
    text: Seq<char>,
) -> bool {
    match (value.get(key), value.get(other)) {
        (Some(field), _) => if field.text() is Some {
            text == trimmed(field.text()->0)
        } else {
            text.len() == 0
        },
        (None, Some(field)) => if field.text() is Some {
            text == trimmed(field.text()->0)
        } else {
            text.len() == 0
        },
        (None, None) => text.len() == 0,
    }
}

/// A line is what a value says: its texts, and each of its times in its own field.
pub open spec fn is_line_said(value: JsonView, received_at_ms: u64, line: LineView) -> bool {
    &&& is_said_in(value, "sourcetext"@, "source_text"@, line.source_text)
    &&& is_said_in(value, "transtext"@, "trans_text"@, line.trans_text)
    &&& line.text_begin_time == value.at("text_begin_time"@).signed()
    &&& line.text_end_time == value.at("text_end_time"@).signed()
    &&& line.end_time == value.at("end_time"@).signed()
    &&& line.received_at_ms == received_at_ms
}

/// A value has a text in one of the fields for texts.
pub open spec fn has_text(value: JsonView) -> bool {
    !(is_said_in(value, "sourcetext"@, "source_text"@, Seq::empty()) && is_said_in(
        value,
        "transtext"@,
        "trans_text"@,
        Seq::empty(),
    ))
}

/// A value with a text is a line, with the texts and the times that its fields say, and a value
/// without one is none.
pub proof fn a_line_says_what_its_fields_say(value: JsonView, received_at_ms: u64)
    ensures
        match line_in(value, received_at_ms) {
            Some(line) => {
                &&& has_text(value)
                &&& line.source_text.len() > 0 || line.trans_text.len() > 0
                &&& is_line_said(value, received_at_ms, line)
            },
            None => !has_text(value),
        },
{
    let empty = Seq::<char>::empty();
    let source = text_in(value, "sourcetext"@, "source_text"@);
    let trans = text_in(value, "transtext"@, "trans_text"@);
    assert(source.len() == 0 ==> source =~= empty);
    assert(trans.len() == 0 ==> trans =~= empty);
}

/// For a number in a field for a time, the line has the number in the place of that field.
pub proof fn a_line_has_the_times_of_its_fields(
    value: JsonView,
    received_at_ms: u64,
    begin: i64,
    end: i64,
    late: i64,
)
    requires
        has_text(value),
    ensures
        line_in(value, received_at_ms) matches Some(line) && {
            &&& value.at("text_begin_time"@).signed() == Some(begin) ==> line.text_begin_time
                == Some(begin)
            &&& value.at("text_end_time"@).signed() == Some(end) ==> line.text_end_time == Some(end)
            &&& value.at("end_time"@).signed() == Some(late) ==> line.end_time == Some(late)
        },
{
    a_line_says_what_its_fields_say(value, received_at_ms);
}

proof fn times_are_written_apart(one: Option<i64>, other: Option<i64>)
    ensures
        time_key(one) == time_key(other) ==> one == other,
        forall|i: int| 0 <= i < time_key(one).len() ==> #[trigger] time_key(one)[i] != '|',
{
    reveal_strlit("None");
    reveal_strlit("Some(");
    reveal_strlit(")");
    if let Some(a) = one {
        assert(time_key(one)[0] == 'S');
        let n: int = a as int;
        numbers_are_written_in_digits((if n < 0 { -n } else { n }) as nat);
        let text = decimal(n);
        let digits = decimal(if n < 0 { -n } else { n });
        assert forall|i: int| 0 <= i < text.len() implies #[trigger] text[i] != '|' by {
            if n < 0 {
                assert(text == seq!['-'] + digits);
                if i > 0 {
                    assert(text[i] == digits[i - 1]);
                }
            }
        }
        let key = time_key(one);
        assert forall|i: int| 0 <= i < key.len() implies #[trigger] key[i] != '|' by {
            if i >= 5 && i < 5 + text.len() {
                assert(key[i] == text[i - 5]);
            } else if i < 5 {
                assert(key[i] == "Some("@[i]);
            } else {
                assert(key[i] == ")"@[i - 5 - text.len()]);
            }
        }
        if let Some(b) = other {
            if time_key(one) == time_key(other) {
                numbers_are_written_apart("Some("@, a, b, ")"@);
            }
        } else {
            assert(time_key(other)[0] == 'N');
        }
    } else if let Some(b) = other {
        assert(time_key(one)[0] == 'N');
        assert(time_key(other)[0] == 'S');
    }
}

proof fn parts_before_a_bar_are_told(
    one: Seq<char>,
    rest: Seq<char>,
    other: Seq<char>,
    others_rest: Seq<char>,
)
    requires
        one + seq!['|'] + rest == other + seq!['|'] + others_rest,
        forall|i: int| 0 <= i < one.len() ==> #[trigger] one[i] != '|',
        forall|i: int| 0 <= i < other.len() ==> #[trigger] other[i] != '|',
    ensures
        one == other,
        rest == others_rest,
{
    let all = one + seq!['|'] + rest;
    let again = other + seq!['|'] + others_rest;
    assert(all.len() == again.len());
    assert(all[one.len() as int] == '|');
    assert(again[other.len() as int] == '|');
    if one.len() < other.len() {
        assert(again[one.len() as int] == other[one.len() as int]);
    } else if other.len() < one.len() {
        assert(all[other.len() as int] == one[other.len() as int]);
    }
    assert forall|i: int| 0 <= i < one.len() implies one[i] == #[trigger] other[i] by {
        assert(all[i] == one[i]);
        assert(again[i] == other[i]);
    }
    assert(one =~= other);
    assert(rest =~= all.skip(one.len() as int + 1));
    assert(others_rest =~= again.skip(one.len() as int + 1));
}

/// The key of a line tells when it begins and when it ends, and its two texts with a bar between
/// them: lines that differ in one of these have different keys, and lines that do not have the
/// same.
pub proof fn a_key_tells_times_and_texts(one: LineView, other: LineView)
    ensures
        line_key(one) == line_key(other) <==> {
            &&& one.text_begin_time == other.text_begin_time
            &&& one.text_end_time == other.text_end_time
            &&& one.source_text + "|"@ + one.trans_text == other.source_text + "|"@
                + other.trans_text
        },
{
    reveal_strlit("|");
    let bar = seq!['|'];
    assert("|"@ =~= bar);
    times_are_written_apart(one.text_begin_time, other.text_begin_time);
    times_are_written_apart(other.text_begin_time, one.text_begin_time);
    times_are_written_apart(one.text_end_time, other.text_end_time);
    times_are_written_apart(other.text_end_time, one.text_end_time);
    let texts = one.source_text + bar + one.trans_text;
    let others_texts = other.source_text + bar + other.trans_text;
    let tail = time_key(one.text_end_time) + bar + texts;
    let others_tail = time_key(other.text_end_time) + bar + others_texts;
    assert(line_key(one) =~= time_key(one.text_begin_time) + bar + tail);
    assert(line_key(other) =~= time_key(other.text_begin_time) + bar + others_tail);
    if line_key(one) == line_key(other) {
        parts_before_a_bar_are_told(
            time_key(one.text_begin_time),
            tail,
            time_key(other.text_begin_time),
            others_tail,
        );
        parts_before_a_bar_are_told(
            time_key(one.text_end_time),
            texts,
            time_key(other.text_end_time),
            others_texts,
        );
    }
}

/// Lines of one time that differ in one of their texts have different keys.
pub proof fn other_words_make_another_key(one: LineView, other: LineView)
    requires
        one.source_text == other.source_text && one.trans_text != other.trans_text
            || one.source_text != other.source_text && one.trans_text == other.trans_text,
    ensures
        line_key(one) != line_key(other),
{
    a_key_tells_times_and_texts(one, other);
    let all = one.source_text + "|"@ + one.trans_text;
    let again = other.source_text + "|"@ + other.trans_text;
    reveal_strlit("|");
    if all == again {
        assert(all.len() == again.len());
        assert(one.source_text =~= all.take(one.source_text.len() as int));
        assert(other.source_text =~= again.take(other.source_text.len() as int));
        assert(one.trans_text =~= all.skip(one.source_text.len() as int + 1));
        assert(other.trans_text =~= again.skip(other.source_text.len() as int + 1));
    }
}

/// Messages with a text that tell different times in the field for the begin, or in the field
/// for the end, are lines with different keys: neither takes the place of the other.
pub proof fn messages_of_different_times_are_told_apart(
    one: JsonView,
    other: JsonView,
    one_at_ms: u64,
    other_at_ms: u64,
)
    requires
        has_text(one),
        has_text(other),
        one.at("text_begin_time"@).signed() != other.at("text_begin_time"@).signed() || one.at(
            "text_end_time"@,
        ).signed() != other.at("text_end_time"@).signed(),
    ensures
        line_in(one, one_at_ms) is Some,
        line_in(other, other_at_ms) is Some,
        line_key(line_in(one, one_at_ms)->0) != line_key(line_in(other, other_at_ms)->0),
{
    a_line_says_what_its_fields_say(one, one_at_ms);
    a_line_says_what_its_fields_say(other, other_at_ms);
    a_key_tells_times_and_texts(line_in(one, one_at_ms)->0, line_in(other, other_at_ms)->0);
}

/// One line more is put behind the others with its key, unless its key is taken: then nothing
/// changes.
pub proof fn one_line_more_is_put_last(
    lines: Seq<LineView>,
    keys: Seq<Seq<char>>,
    more: Seq<LineView>,
    line: LineView,
)
    ensures
        merged(lines, keys, Seq::empty()) == (lines, keys),
        merged(lines, keys, more).1.contains(line_key(line)) ==> merged(
            lines,
            keys,
            more.push(line),
        ) == merged(lines, keys, more),
        !merged(lines, keys, more).1.contains(line_key(line)) ==> {
            &&& merged(lines, keys, more.push(line)).0 == merged(lines, keys, more).0.push(line)
            &&& merged(lines, keys, more.push(line)).1 == merged(lines, keys, more).1.push(
                line_key(line),
            )
        },
{
    assert(more.push(line).drop_last() =~= more);
}

/// One value more is one line more, behind the others, with what its fields say, and none where
/// it has no text.
pub proof fn one_value_more_is_one_line_more(
    values: Seq<JsonView>,
    value: JsonView,
    received_at_ms: u64,
)
    ensures
        lines_in(Seq::empty(), received_at_ms).len() == 0,
        !has_text(value) ==> lines_in(values.push(value), received_at_ms) == lines_in(
            values,
            received_at_ms,
        ),
        has_text(value) ==> {
            let before = lines_in(values, received_at_ms);
            let after = lines_in(values.push(value), received_at_ms);
            &&& after.len() == before.len() + 1
            &&& after.drop_last() == before
            &&& is_line_said(value, received_at_ms, after.last())
        },
{
    assert(values.push(value).drop_last() =~= values);
    a_line_says_what_its_fields_say(value, received_at_ms);
    if has_text(value) {
        let before = lines_in(values, received_at_ms);
        let after = lines_in(values.push(value), received_at_ms);
        assert(after.drop_last() =~= before);
    }
}

/// A message with the mark holds the lines of its object, and behind them those of its list. What
/// has no mark, or no document behind it, holds none.
pub proof fn a_message_holds_its_object_and_its_list(
    text: Seq<char>,
    payload: Seq<char>,
    received_at_ms: u64,
)
    ensures
        !MESSAGE_MARK@.is_prefix_of(text) ==> message_lines(text, received_at_ms).len() == 0,
        json_of_text(payload) is Err ==> message_lines(
            MESSAGE_MARK@ + payload,
            received_at_ms,
        ).len() == 0,
        json_of_text(payload) matches Ok(json) ==> {
            let lines = message_lines(MESSAGE_MARK@ + payload, received_at_ms);
            match (json.fields(), json.at("list"@).items()) {
                (Some(_), Some(items)) => lines == lines_in(seq![json] + items, received_at_ms),
                (Some(_), None) => lines == lines_in(seq![json], received_at_ms),
                (None, Some(items)) => lines == lines_in(items, received_at_ms),
                (None, None) => lines.len() == 0,
            }
        },
{
    a_part_is_found_where_it_stands(Seq::empty(), MESSAGE_MARK@, payload);
    if let Some(rest) = after_prefix(text, MESSAGE_MARK@) {
        assert(text.subrange(0, MESSAGE_MARK@.len() as int) == MESSAGE_MARK@);
        assert(MESSAGE_MARK@.is_prefix_of(text));
    }
    if let Ok(json) = json_of_text(payload) {
        if json.fields() is None {
            if let Some(items) = json.at("list"@).items() {
                assert(Seq::<JsonView>::empty() + items =~= items);
            }
        }
    }
}

// ---------------------------------------------------------------- what a backfill adds

/// A time of a record as a line has it: the number itself, where it is one that a line can hold.
pub open spec fn is_time_of(seconds: u64, time: Option<i64>) -> bool {
    time matches Some(n) && if seconds <= i64::MAX {
        n == seconds
    } else {
        n + 0x1_0000_0000_0000_0000 == seconds
    }
}

/// A line is the one of a record: its texts without the space around them, its begin, and its end
/// in both places for an end.
pub open spec fn is_line_of(item: SubtitleView, received_at_ms: u64, line: LineView) -> bool {
    &&& line.source_text == trimmed(item.text)
    &&& line.trans_text == trimmed(item.trans_text)
    &&& is_time_of(item.begin_sec, line.text_begin_time)
    &&& is_time_of(item.end_sec, line.text_end_time)
    &&& is_time_of(item.end_sec, line.end_time)
    &&& line.received_at_ms == received_at_ms
}

/// A record has a text.
pub open spec fn is_spoken(item: SubtitleView) -> bool {
    trimmed(item.text).len() > 0 || trimmed(item.trans_text).len() > 0
}

/// A line is that of one of the records.
pub open spec fn is_recorded(
    items: Seq<SubtitleView>,
    received_at_ms: u64,
    line: LineView,
) -> bool {
    exists|k: int|
        0 <= k < items.len() && is_spoken(#[trigger] items[k]) && is_line_of(
            items[k],
            received_at_ms,
            line,
        )
}

/// One record more is one line more behind the others, where it has a text.
pub proof fn one_record_more_is_one_line_more(
    items: Seq<SubtitleView>,
    item: SubtitleView,
    received_at_ms: u64,
)
    ensures
        recorded_lines(Seq::empty(), received_at_ms).len() == 0,
        !is_spoken(item) ==> recorded_lines(items.push(item), received_at_ms) == recorded_lines(
            items,
            received_at_ms,
        ),
        is_spoken(item) ==> {
            let before = recorded_lines(items, received_at_ms);
            let after = recorded_lines(items.push(item), received_at_ms);
            &&& after.len() == before.len() + 1
            &&& after.drop_last() == before
            &&& is_line_of(item, received_at_ms, after.last())
        },
{
    assert(items.push(item).drop_last() =~= items);
    if is_spoken(item) {
        let before = recorded_lines(items, received_at_ms);
        let after = recorded_lines(items.push(item), received_at_ms);
        assert(after.drop_last() =~= before);
    }
}

proof fn recorded_lines_are_of_records(items: Seq<SubtitleView>, received_at_ms: u64)
    ensures
        forall|i: int|
            0 <= i < recorded_lines(items, received_at_ms).len() ==> is_recorded(
                items,
                received_at_ms,
                #[trigger] recorded_lines(items, received_at_ms)[i],
            ),
    decreases items.len(),
{
    if items.len() > 0 {
        let head = items.drop_last();
        let all = recorded_lines(items, received_at_ms);
        let before = recorded_lines(head, received_at_ms);
        recorded_lines_are_of_records(head, received_at_ms);
        assert(items =~= head.push(items.last()));
        one_record_more_is_one_line_more(head, items.last(), received_at_ms);
        assert forall|i: int| 0 <= i < all.len() implies is_recorded(
            items,
            received_at_ms,
            #[trigger] all[i],
        ) by {
            if i < before.len() {
                assert(all[i] == before[i]);
                assert(is_recorded(head, received_at_ms, before[i]));
                let k = choose|k: int|
                    0 <= k < head.len() && is_spoken(#[trigger] head[k]) && is_line_of(
                        head[k],
                        received_at_ms,
                        before[i],
                    );
                assert(items[k] == head[k]);
            } else {
                assert(is_spoken(items[items.len() - 1]));
            }
        }
    }
}

/// A backfill keeps the lines that are there, and every line that it adds is that of a record:
/// it begins when the record begins and ends when the record ends, so of a record that takes some
/// time the line takes as long.
pub proof fn a_backfill_adds_lines_of_records(
    lines: Seq<LineView>,
    items: Seq<SubtitleView>,
    received_at_ms: u64,
)
    ensures
        lines.len() <= backfilled(lines, items, received_at_ms).len(),
        forall|i: int|
            0 <= i < lines.len() ==> #[trigger] backfilled(lines, items, received_at_ms)[i]
                == lines[i],
        forall|i: int|
            lines.len() <= i < backfilled(lines, items, received_at_ms).len() ==> is_recorded(
                items,
                received_at_ms,
                #[trigger] backfilled(lines, items, received_at_ms)[i],
            ),
        (forall|k: int|
            0 <= k < items.len() ==> (#[trigger] items[k]).begin_sec < items[k].end_sec
                <= i64::MAX) ==> forall|i: int|
            lines.len() <= i < backfilled(lines, items, received_at_ms).len() ==> {
                let line = #[trigger] backfilled(lines, items, received_at_ms)[i];
                &&& line.text_begin_time is Some && line.text_end_time is Some
                &&& line.text_begin_time->0 < line.text_end_time->0
                &&& line.end_time == line.text_end_time
            },
{
    let more = recorded_lines(items, received_at_ms);
    let after = backfilled(lines, items, received_at_ms);
    merging_only_adds(lines, keys_of(lines), more);
    recorded_lines_are_of_records(items, received_at_ms);
    assert forall|i: int| 0 <= i < lines.len() implies #[trigger] after[i] == lines[i] by {
        assert(after.take(lines.len() as int)[i] == after[i]);
    }
    assert forall|i: int| lines.len() <= i < after.len() implies is_recorded(
        items,
        received_at_ms,
        #[trigger] after[i],
    ) by {
        assert(more.contains(after[i]));
        let k = choose|k: int| 0 <= k < more.len() && more[k] == after[i];
        assert(is_recorded(items, received_at_ms, more[k]));
    }
    if forall|k: int|
        0 <= k < items.len() ==> (#[trigger] items[k]).begin_sec < items[k].end_sec <= i64::MAX {
        assert forall|i: int| lines.len() <= i < after.len() implies {
            let line = #[trigger] after[i];
            &&& line.text_begin_time is Some && line.text_end_time is Some
            &&& line.text_begin_time->0 < line.text_end_time->0
            &&& line.end_time == line.text_end_time
        } by {
            assert(is_recorded(items, received_at_ms, after[i]));
            let k = choose|k: int|
                0 <= k < items.len() && is_spoken(#[trigger] items[k]) && is_line_of(
                    items[k],
                    received_at_ms,
                    after[i],
                );
            assert(items[k].begin_sec < items[k].end_sec <= i64::MAX);
        }
    }
}

/// A line stands for a record: it has its times, and its texts with a bar between them.
pub open spec fn stands_for(line: LineView, item: SubtitleView) -> bool {
    &&& is_time_of(item.begin_sec, line.text_begin_time)
    &&& is_time_of(item.end_sec, line.text_end_time)
    &&& line.source_text + "|"@ + line.trans_text == trimmed(item.text) + "|"@ + trimmed(
        item.trans_text,
    )
}

proof fn a_spoken_record_is_among_the_lines(
    items: Seq<SubtitleView>,
    received_at_ms: u64,
    k: int,
) -> (line: LineView)
    requires
        0 <= k < items.len(),
        is_spoken(items[k]),
    ensures
        recorded_lines(items, received_at_ms).contains(line),
        is_line_of(items[k], received_at_ms, line),
    decreases items.len(),
{
    let head = items.drop_last();
    let all = recorded_lines(items, received_at_ms);
    let before = recorded_lines(head, received_at_ms);
    assert(items =~= head.push(items.last()));
    one_record_more_is_one_line_more(head, items.last(), received_at_ms);
    if k < head.len() {
        let line = a_spoken_record_is_among_the_lines(head, received_at_ms, k);
        let i = choose|i: int| 0 <= i < before.len() && before[i] == line;
        assert(all[i] == line);
        line
    } else {
        assert(all[all.len() - 1] == all.last());
        all.last()
    }
}

/// After a backfill, for every record with a text there is a line that stands for it.
pub proof fn a_backfill_leaves_no_record_out(
    lines: Seq<LineView>,
    items: Seq<SubtitleView>,
    received_at_ms: u64,
    k: int,
)
    requires
        0 <= k < items.len(),
        is_spoken(items[k]),
    ensures
        exists|i: int|
            0 <= i < backfilled(lines, items, received_at_ms).len() && stands_for(
                #[trigger] backfilled(lines, items, received_at_ms)[i],
                items[k],
            ),
{
    let more = recorded_lines(items, received_at_ms);
    let keys = keys_of(lines);
    let after = backfilled(lines, items, received_at_ms);
    let taken = merged(lines, keys, more).1;
    let line = a_spoken_record_is_among_the_lines(items, received_at_ms, k);
    let j = choose|j: int| 0 <= j < more.len() && more[j] == line;
    merging_takes_every_key(lines, keys, more);
    merging_only_adds(lines, keys, more);
    assert(taken.contains(line_key(more[j])));
    let i = choose|i: int| 0 <= i < taken.len() && taken[i] == line_key(line);
    let added = after.skip(lines.len() as int);
    assert(line_key(after[i]) == line_key(line)) by {
        if i < lines.len() {
            assert(after.take(lines.len() as int)[i] == lines[i]);
            assert(taken[i] == keys[i]);
        } else {
            assert(taken[i] == keys_of(added)[i - lines.len()]);
            assert(added[i - lines.len()] == after[i]);
        }
    }
    a_key_tells_times_and_texts(after[i], line);
    assert(stands_for(after[i], items[k]));
}

// ---------------------------------------------------------------- what rows say

/// A row is the words of its line: the translation, behind the original and a new line where
/// that is wanted and there is one, and behind the times where they are wanted.
pub proof fn a_row_is_the_words_of_its_line(line: LineView, include_original: bool)
    ensures
        row_of(line, false, false) == line.trans_text,
        line.source_text.len() == 0 ==> row_of(line, true, false) == line.trans_text,
        line.source_text.len() > 0 ==> row_of(line, true, false) == line.source_text + "\n"@
            + line.trans_text,
        match (line.text_begin_time, line.text_end_time, line.end_time) {
            (Some(begin), Some(end), _) => row_of(line, include_original, true) == "["@ + decimal(
                begin as int,
            ) + "-"@ + decimal(end as int) + "] "@ + row_of(line, include_original, false),
            (Some(begin), None, Some(end)) => row_of(line, include_original, true) == "["@
                + decimal(begin as int) + "-"@ + decimal(end as int) + "] "@ + row_of(
                line,
                include_original,
                false,
            ),
            (Some(begin), None, None) => row_of(line, include_original, true) == "["@ + decimal(
                begin as int,
            ) + "-"@ + "?"@ + "] "@ + row_of(line, include_original, false),
            (None, Some(end), _) => row_of(line, include_original, true) == "["@ + "?"@ + "-"@
                + decimal(end as int) + "] "@ + row_of(line, include_original, false),
            (None, None, Some(end)) => row_of(line, include_original, true) == "["@ + "?"@ + "-"@
                + decimal(end as int) + "] "@ + row_of(line, include_original, false),
            (None, None, None) => row_of(line, include_original, true) == "["@ + "?"@ + "-"@
                + "?"@ + "] "@ + row_of(line, include_original, false),
        },
{
    assert(row_of(line, false, false) =~= line.trans_text);
    assert(row_of(line, true, false) =~= if line.source_text.len() > 0 {
        line.source_text + "\n"@ + line.trans_text
    } else {
        line.trans_text
    });
    let times = "["@ + time_shown(line.text_begin_time) + "-"@ + time_shown(end_of(line)) + "] "@;
    assert(row_of(line, include_original, true) =~= times + row_of(line, include_original, false));
}

/// One line more is one row more, behind the others and on a line of its own, unless nothing but
/// white space would stand in it.
pub proof fn one_line_more_is_one_row_more(
    lines: Seq<LineView>,
    line: LineView,
    include_original: bool,
    with_timestamps: bool,
)
    ensures
        transcript_text(Seq::empty(), include_original, with_timestamps).len() == 0,
        ({
            let row = row_of(line, include_original, with_timestamps);
            let before = transcript_text(lines, include_original, with_timestamps);
            let after = transcript_text(lines.push(line), include_original, with_timestamps);
            let first = forall|i: int|
                0 <= i < lines.len() ==> trimmed(
                    row_of(#[trigger] lines[i], include_original, with_timestamps),
                ).len() == 0;
            if trimmed(row).len() == 0 {
                after == before
            } else if first {
                after == row
            } else {
                after == before + "\n"@ + row
            }
        }),
{
    let all = rows_of(lines, include_original, with_timestamps);
    let row = row_of(line, include_original, with_timestamps);
    assert(lines.push(line).drop_last() =~= lines);
    rows_are_left_out_where_blank(lines, include_original, with_timestamps);
    assert(all.push(row).drop_last() =~= all);
}

proof fn rows_are_left_out_where_blank(
    lines: Seq<LineView>,
    include_original: bool,
    with_timestamps: bool,
)
    ensures
        rows_of(lines, include_original, with_timestamps).len() == 0 <==> forall|i: int|
            0 <= i < lines.len() ==> trimmed(
                row_of(#[trigger] lines[i], include_original, with_timestamps),
            ).len() == 0,
    decreases lines.len(),
{
    if lines.len() > 0 {
        let head = lines.drop_last();
        rows_are_left_out_where_blank(head, include_original, with_timestamps);
        assert(forall|i: int| 0 <= i < head.len() ==> head[i] == #[trigger] lines[i]);
        if rows_of(lines, include_original, with_timestamps).len() == 0 {
            assert forall|i: int| 0 <= i < lines.len() implies trimmed(
                row_of(#[trigger] lines[i], include_original, with_timestamps),
            ).len() == 0 by {
                if i < head.len() {
                    assert(trimmed(row_of(head[i], include_original, with_timestamps)).len() == 0);
                }
            }
        } else if forall|i: int|
            0 <= i < lines.len() ==> trimmed(
                row_of(#[trigger] lines[i], include_original, with_timestamps),
            ).len() == 0 {
            assert forall|i: int| 0 <= i < head.len() implies trimmed(
                row_of(#[trigger] head[i], include_original, with_timestamps),
            ).len() == 0 by {
                assert(trimmed(row_of(lines[i], include_original, with_timestamps)).len() == 0);
            }
            assert(trimmed(
                row_of(lines[lines.len() - 1], include_original, with_timestamps),
            ).len() == 0);
        }
    }
}

} // verus!
