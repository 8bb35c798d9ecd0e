//! Operations on text, each with what it returns stated over the characters.
use vstd::prelude::*;

verus! {

/// `String::push`: one more character at the end.
pub assume_specification[ String::push ](s: &mut String, c: char)
    ensures
        final(s)@ == old(s)@.push(c),
;

/// The characters of a text.
pub fn to_chars(s: &str) -> (chars: Vec<char>)
    ensures
        chars@ == s@,
{
    let mut chars: Vec<char> = Vec::new();
    for c in it: s.chars()
        invariant
            chars@ == it.seq().take(it.index()),
            it.seq() == s@,
    {
        chars.push(c);
    }
    chars
}

/// The text made of a range of characters.
pub fn from_range(chars: &Vec<char>, from: usize, to: usize) -> (s: String)
    requires
        from <= to <= chars@.len(),
    ensures
        s@ == chars@.subrange(from as int, to as int),
{
    let mut s = String::new();
    let mut i: usize = from;
    while i < to
        invariant
            from <= i <= to <= chars@.len(),
            s@ == chars@.subrange(from as int, i as int),
        decreases to - i,
    {
        s.push(chars[i]);
        i = i + 1;
    }
    s
}

/// Whether two texts are the same.
pub fn same(a: &str, b: &str) -> (yes: bool)
    ensures
        yes == (a@ == b@),
{
    a.to_owned() == b.to_owned()
}

// ---------------------------------------------------------------- white space

/// The characters with Unicode's `White_Space` property.
pub open spec fn is_white_space(c: char) -> bool {
    ||| '\u{9}' <= c <= '\u{d}'
    ||| c == '\u{20}'
    ||| c == '\u{85}'
    ||| c == '\u{a0}'
    ||| c == '\u{1680}'
    ||| '\u{2000}' <= c <= '\u{200a}'
    ||| c == '\u{2028}'
    ||| c == '\u{2029}'
    ||| c == '\u{202f}'
    ||| c == '\u{205f}'
    ||| c == '\u{3000}'
}

/// Whether a character is white space.
pub fn white_space(c: char) -> (yes: bool)
    ensures
        yes == is_white_space(c),
{
    ('\u{9}' <= c && c <= '\u{d}') || c == '\u{20}' || c == '\u{85}' || c == '\u{a0}' || c
        == '\u{1680}' || ('\u{2000}' <= c && c <= '\u{200a}') || c == '\u{2028}' || c == '\u{2029}'
        || c == '\u{202f}' || c == '\u{205f}' || c == '\u{3000}'
}

/// `s` without the white space it starts with.
pub open spec fn without_leading_space(s: Seq<char>) -> Seq<char>
    decreases s.len(),
{
    if s.len() > 0 && is_white_space(s[0]) {
        without_leading_space(s.skip(1))
    } else {
        s
    }
}

/// `s` without the white space it ends with.
pub open spec fn without_trailing_space(s: Seq<char>) -> Seq<char>
    decreases s.len(),
{
    if s.len() > 0 && is_white_space(s.last()) {
        without_trailing_space(s.drop_last())
    } else {
        s
    }
}

/// `s` without white space at either end.
pub open spec fn trimmed(s: Seq<char>) -> Seq<char> {
    without_trailing_space(without_leading_space(s))
}

/// The text without white space at either end.
pub fn trim(s: &str) -> (t: String)
    ensures
        t@ == trimmed(s@),
{
    let chars = to_chars(s);
    let mut from: usize = 0;
    assert(chars@.skip(0) =~= chars@);
    while from < chars.len() && white_space(chars[from])
        invariant
            from <= chars@.len(),
            without_leading_space(chars@) == without_leading_space(chars@.skip(from as int)),
        decreases chars@.len() - from,
    {
        assert(chars@.skip(from as int).skip(1) =~= chars@.skip(from as int + 1));
        from = from + 1;
    }
    let ghost rest = chars@.skip(from as int);
    let mut to: usize = chars.len();
    assert(chars@.subrange(from as int, to as int) =~= rest);
    while to > from && white_space(chars[to - 1])
        invariant
            from <= to <= chars@.len(),
            without_trailing_space(rest) == without_trailing_space(
                chars@.subrange(from as int, to as int),
            ),
        decreases to - from,
    {
        assert(chars@.subrange(from as int, to as int).drop_last() =~= chars@.subrange(
            from as int,
            to - 1,
        ));
        to = to - 1;
    }
    from_range(&chars, from, to)
}

/// Whether the text holds nothing but white space.
pub fn is_blank(s: &str) -> (yes: bool)
    ensures
        yes == (trimmed(s@).len() == 0),
{
    trim(s).as_str().is_empty()
}

/// `s` without the characters of `cs` that it ends with.
pub open spec fn without_trailing(s: Seq<char>, cs: Set<char>) -> Seq<char>
    decreases s.len(),
{
    if s.len() > 0 && cs.contains(s.last()) {
        without_trailing(s.drop_last(), cs)
    } else {
        s
    }
}

/// The text without the line ends it ends with.
pub fn trim_line_ends(s: &str) -> (t: String)
    ensures
        t@ == without_trailing(s@, set!['\r', '\n']),
{
    let chars = to_chars(s);
    let mut to: usize = chars.len();
    assert(chars@.subrange(0, to as int) =~= chars@);
    while to > 0 && (chars[to - 1] == '\r' || chars[to - 1] == '\n')
        invariant
            to <= chars@.len(),
            without_trailing(chars@, set!['\r', '\n']) == without_trailing(
                chars@.subrange(0, to as int),
                set!['\r', '\n'],
            ),
        decreases to,
    {
        assert(chars@.subrange(0, to as int).drop_last() =~= chars@.subrange(0, to - 1));
        to = to - 1;
    }
    from_range(&chars, 0, to)
}

/// The text without the slashes it ends with.
pub fn trim_slashes(s: &str) -> (t: String)
    ensures
        t@ == without_trailing(s@, set!['/']),
{
    let chars = to_chars(s);
    let mut to: usize = chars.len();
    assert(chars@.subrange(0, to as int) =~= chars@);
    while to > 0 && chars[to - 1] == '/'
        invariant
            to <= chars@.len(),
            without_trailing(chars@, set!['/']) == without_trailing(
                chars@.subrange(0, to as int),
                set!['/'],
            ),
        decreases to,
    {
        assert(chars@.subrange(0, to as int).drop_last() =~= chars@.subrange(0, to - 1));
        to = to - 1;
    }
    from_range(&chars, 0, to)
}

// ---------------------------------------------------------------- search

/// `part` stands in `s` at position `i`.
pub open spec fn occurs_at(s: Seq<char>, part: Seq<char>, i: int) -> bool {
    0 <= i <= s.len() - part.len() && s.subrange(i, i + part.len()) == part
}

/// `part` stands somewhere in `s`.
pub open spec fn contains_text(s: Seq<char>, part: Seq<char>) -> bool {
    exists|i: int| occurs_at(s, part, i)
}

/// `i` is the first position at which `part` stands in `s`.
pub open spec fn first_at(s: Seq<char>, part: Seq<char>, i: int) -> bool {
    occurs_at(s, part, i) && forall|j: int| 0 <= j < i ==> !occurs_at(s, part, j)
}

fn stands_at(s: &Vec<char>, part: &Vec<char>, at: usize) -> (yes: bool)
    requires
        at <= s@.len(),
    ensures
        yes == occurs_at(s@, part@, at as int),
{
    if part.len() > s.len() - at {
        return false;
    }
    assert(s.len() <= usize::MAX);
    let mut k: usize = 0;
    while k < part.len()
        invariant
            k <= part@.len() <= s@.len() - at,
            s@.len() <= usize::MAX,
            forall|j: int| 0 <= j < k ==> s@[at + j] == part@[j],
        decreases part@.len() - k,
    {
        if s[at + k] != part[k] {
            assert(s@.subrange(at as int, at + part@.len())[k as int] != part@[k as int]);
            return false;
        }
        k = k + 1;
    }
    assert(s@.subrange(at as int, at + part@.len()) =~= part@);
    true
}

/// The first position of `part` in `s`.
pub fn find(s: &Vec<char>, part: &Vec<char>) -> (at: Option<usize>)
    ensures
        match at {
            Some(i) => first_at(s@, part@, i as int),
            None => !contains_text(s@, part@),
        },
{
    let mut i: usize = 0;
    while i <= s.len()
        invariant
            i <= s@.len() + 1,
            forall|j: int| 0 <= j < i ==> !occurs_at(s@, part@, j),
        decreases s@.len() + 1 - i,
    {
        if stands_at(s, part, i) {
            return Some(i);
        }
        if i == s.len() {
            return None;
        }
        i = i + 1;
    }
    None
}

/// Whether `part` stands somewhere in `s`.
pub fn contains(s: &str, part: &str) -> (yes: bool)
    ensures
        yes == contains_text(s@, part@),
{
    find(&to_chars(s), &to_chars(part)).is_some()
}

/// `s` ends with `part`.
pub open spec fn ends_in(s: Seq<char>, part: Seq<char>) -> bool {
    occurs_at(s, part, s.len() - part.len())
}

/// Whether `s` ends with `part`.
pub fn ends_with(s: &str, part: &str) -> (yes: bool)
    ensures
        yes == ends_in(s@, part@),
{
    let chars = to_chars(s);
    let tail = to_chars(part);
    if tail.len() > chars.len() {
        false
    } else {
        stands_at(&chars, &tail, chars.len() - tail.len())
    }
}

/// What follows `part` in a text that starts with it.
pub open spec fn after_prefix(s: Seq<char>, part: Seq<char>) -> Option<Seq<char>> {
    if occurs_at(s, part, 0) {
        Some(s.skip(part.len() as int))
    } else {
        None
    }
}

/// The rest of `s` after `part`, if `s` starts with it.
pub fn strip_prefix(s: &str, part: &str) -> (rest: Option<String>)
    ensures
        match rest {
            Some(r) => after_prefix(s@, part@) == Some(r@),
            None => after_prefix(s@, part@) is None,
        },
{
    let chars = to_chars(s);
    let head = to_chars(part);
    if stands_at(&chars, &head, 0) {
        let rest = from_range(&chars, head.len(), chars.len());
        assert(rest@ =~= s@.skip(part@.len() as int));
        Some(rest)
    } else {
        None
    }
}

/// The part of `s` before the first `c`, or all of it.
pub open spec fn before_char(s: Seq<char>, c: char) -> Seq<char>
    decreases s.len(),
{
    if s.len() == 0 || s[0] == c {
        Seq::empty()
    } else {
        seq![s[0]] + before_char(s.skip(1), c)
    }
}

/// The part of `s` after the last `c`, or all of it.
pub open spec fn after_last(s: Seq<char>, c: char) -> Seq<char>
    decreases s.len(),
{
    if s.len() == 0 || s.last() == c {
        Seq::empty()
    } else {
        after_last(s.drop_last(), c).push(s.last())
    }
}

/// The text before the first `c`, or all of it.
pub fn up_to_char(s: &str, c: char) -> (head: String)
    ensures
        head@ == before_char(s@, c),
{
    let chars = to_chars(s);
    let mut to: usize = 0;
    assert(chars@.skip(0) =~= chars@);
    assert(chars@.subrange(0, 0) + before_char(chars@, c) =~= before_char(chars@, c));
    while to < chars.len() && chars[to] != c
        invariant
            to <= chars@.len(),
            before_char(chars@, c) == chars@.subrange(0, to as int) + before_char(
                chars@.skip(to as int),
                c,
            ),
        decreases chars@.len() - to,
    {
        assert(chars@.skip(to as int).skip(1) =~= chars@.skip(to + 1));
        assert(chars@.subrange(0, to + 1) =~= chars@.subrange(0, to as int) + seq![
            chars@[to as int],
        ]);
        assert(chars@.subrange(0, to as int) + (seq![chars@[to as int]] + before_char(
            chars@.skip(to + 1),
            c,
        )) =~= (chars@.subrange(0, to as int) + seq![chars@[to as int]]) + before_char(
            chars@.skip(to + 1),
            c,
        ));
        to = to + 1;
    }
    let head = from_range(&chars, 0, to);
    assert(head@ + Seq::<char>::empty() =~= head@);
    head
}

/// The text after the last `c`, or all of it.
pub fn from_last_char(s: &str, c: char) -> (tail: String)
    ensures
        tail@ == after_last(s@, c),
{
    let chars = to_chars(s);
    let mut from: usize = chars.len();
    assert(chars@.subrange(0, from as int) =~= chars@);
    assert(after_last(chars@, c) + chars@.skip(from as int) =~= after_last(chars@, c));
    while from > 0 && chars[from - 1] != c
        invariant
            from <= chars@.len(),
            after_last(chars@, c) == after_last(chars@.subrange(0, from as int), c) + chars@.skip(
                from as int,
            ),
        decreases from,
    {
        let ghost head = chars@.subrange(0, from as int);
        assert(head.drop_last() =~= chars@.subrange(0, from - 1));
        assert(after_last(head.drop_last(), c).push(head.last()) + chars@.skip(from as int)
            =~= after_last(head.drop_last(), c) + chars@.skip(from - 1));
        from = from - 1;
    }
    let tail = from_range(&chars, from, chars.len());
    assert(Seq::<char>::empty() + chars@.skip(from as int) =~= tail@);
    tail
}

/// `s` with every `old_char` replaced.
pub open spec fn replaced(s: Seq<char>, old_char: char, new_char: char) -> Seq<char> {
    Seq::new(s.len(), |i: int| if s[i] == old_char { new_char } else { s[i] })
}

/// The text with every `old_char` replaced by `new_char`.
pub fn replace_char(s: &str, old_char: char, new_char: char) -> (t: String)
    ensures
        t@ == replaced(s@, old_char, new_char),
{
    let chars = to_chars(s);
    let mut t = String::new();
    for i in 0..chars.len()
        invariant
            chars@ == s@,
            t@ == replaced(s@, old_char, new_char).take(i as int),
    {
        if chars[i] == old_char {
            t.push(new_char);
        } else {
            t.push(chars[i]);
        }
        assert(t@ =~= replaced(s@, old_char, new_char).take(i + 1));
    }
    assert(t@ =~= replaced(s@, old_char, new_char));
    t
}

/// `s` backwards.
pub fn reversed(s: &str) -> (t: String)
    ensures
        t@ == s@.reverse(),
{
    let chars = to_chars(s);
    let mut t = String::new();
    for i in 0..chars.len()
        invariant
            chars@ == s@,
            t@ == s@.reverse().take(i as int),
    {
        t.push(chars[chars.len() - 1 - i]);
        assert(t@ =~= s@.reverse().take(i + 1));
    }
    assert(t@ =~= s@.reverse());
    t
}

// ---------------------------------------------------------------- joining

/// The texts of `list` with `sep` between each two.
pub open spec fn joined(list: Seq<Seq<char>>, sep: Seq<char>) -> Seq<char>
    decreases list.len(),
{
    if list.len() == 0 {
        Seq::empty()
    } else if list.len() == 1 {
        list[0]
    } else {
        joined(list.drop_last(), sep) + sep + list.last()
    }
}

/// The texts of `list` with `sep` between each two.
pub fn join(list: &Vec<String>, sep: &str) -> (t: String)
    ensures
        t@ == joined(list.deep_view(), sep@),
{
    let mut t = String::new();
    for i in 0..list.len()
        invariant
            t@ == joined(list.deep_view().take(i as int), sep@),
    {
        if i > 0 {
            t.append(sep);
        }
        t.append(list[i].as_str());
        assert(list.deep_view().take(i + 1).drop_last() =~= list.deep_view().take(i as int));
        if i == 0 {
            assert(t@ =~= list.deep_view()[0]);
        }
    }
    assert(list.deep_view().take(list@.len() as int) =~= list.deep_view());
    t
}

// ---------------------------------------------------------------- order

/// `a` stands before `b` in the order of the characters' code points.
pub open spec fn text_less(a: Seq<char>, b: Seq<char>) -> bool
    decreases a.len(),
{
    if b.len() == 0 {
        false
    } else if a.len() == 0 {
        true
    } else if a[0] == b[0] {
        text_less(a.skip(1), b.skip(1))
    } else {
        a[0] < b[0]
    }
}

/// Whether `a` stands before `b` in the order of the characters' code points.
pub fn less(a: &str, b: &str) -> (yes: bool)
    ensures
        yes == text_less(a@, b@),
{
    let x = to_chars(a);
    let y = to_chars(b);
    let mut i: usize = 0;
    assert(x@.skip(0) =~= x@);
    assert(y@.skip(0) =~= y@);
    while i < x.len() && i < y.len() && x[i] == y[i]
        invariant
            i <= x@.len(),
            i <= y@.len(),
            text_less(x@, y@) == text_less(x@.skip(i as int), y@.skip(i as int)),
        decreases x@.len() - i,
    {
        assert(x@.skip(i as int).skip(1) =~= x@.skip(i + 1));
        assert(y@.skip(i as int).skip(1) =~= y@.skip(i + 1));
        i = i + 1;
    }
    if i == y.len() {
        false
    } else if i == x.len() {
        true
    } else {
        x[i] < y[i]
    }
}

/// The order of texts is a total one: nothing stands before itself, what stands before
/// something stands before all that follows it, and of two different texts one stands before
/// the other.
pub proof fn text_order_is_total(a: Seq<char>, b: Seq<char>, c: Seq<char>)
    ensures
        !text_less(a, a),
        text_less(a, b) && text_less(b, c) ==> text_less(a, c),
        text_less(a, b) || a == b || text_less(b, a),
    decreases a.len() + b.len() + c.len(),
{
    if a.len() > 0 {
        text_order_is_total(a.skip(1), Seq::empty(), Seq::empty());
    }
    if a.len() > 0 && b.len() > 0 {
        if a[0] == b[0] {
            text_order_is_total(a.skip(1), b.skip(1), Seq::empty());
            assert(a.skip(1) == b.skip(1) ==> a =~= b) by {
                assert(a =~= seq![a[0]] + a.skip(1));
                assert(b =~= seq![b[0]] + b.skip(1));
            }
            if c.len() > 0 && b[0] == c[0] {
                text_order_is_total(a.skip(1), b.skip(1), c.skip(1));
            }
        }
    } else {
        assert(a.len() == 0 && b.len() == 0 ==> a =~= b);
    }
}

// ---------------------------------------------------------------- what the parts of a text are

/// All characters are white space.
pub open spec fn all_space(s: Seq<char>) -> bool {
    forall|i: int| 0 <= i < s.len() ==> is_white_space(#[trigger] s[i])
}

proof fn leading_space_is_split_off(s: Seq<char>) -> (space: Seq<char>)
    ensures
        all_space(space),
        s == space + without_leading_space(s),
        without_leading_space(s).len() > 0 ==> !is_white_space(without_leading_space(s)[0]),
    decreases s.len(),
{
    if s.len() > 0 && is_white_space(s[0]) {
        let rest = leading_space_is_split_off(s.skip(1));
        let space = seq![s[0]] + rest;
        assert(s =~= seq![s[0]] + s.skip(1));
        assert(s =~= space + without_leading_space(s));
        space
    } else {
        assert(s =~= Seq::<char>::empty() + s);
        Seq::empty()
    }
}

proof fn trailing_space_is_split_off(s: Seq<char>) -> (space: Seq<char>)
    ensures
        all_space(space),
        s == without_trailing_space(s) + space,
        without_trailing_space(s).len() > 0 ==> !is_white_space(without_trailing_space(s).last()),
    decreases s.len(),
{
    if s.len() > 0 && is_white_space(s.last()) {
        let rest = trailing_space_is_split_off(s.drop_last());
        let space = rest.push(s.last());
        assert(s =~= s.drop_last().push(s.last()));
        assert(s =~= without_trailing_space(s) + space);
        space
    } else {
        assert(s =~= s + Seq::<char>::empty());
        Seq::empty()
    }
}

proof fn leading_space_is_found(space: Seq<char>, rest: Seq<char>)
    requires
        all_space(space),
        rest.len() > 0 ==> !is_white_space(rest[0]),
    ensures
        without_leading_space(space + rest) == rest,
    decreases space.len(),
{
    let all = space + rest;
    if space.len() > 0 {
        assert(all[0] == space[0]);
        assert(all.skip(1) =~= space.skip(1) + rest);
        leading_space_is_found(space.skip(1), rest);
    } else {
        assert(all =~= rest);
    }
}

proof fn trailing_space_is_found(rest: Seq<char>, space: Seq<char>)
    requires
        all_space(space),
        rest.len() > 0 ==> !is_white_space(rest.last()),
    ensures
        without_trailing_space(rest + space) == rest,
    decreases space.len(),
{
    let all = rest + space;
    if space.len() > 0 {
        assert(all.last() == space.last());
        assert(all.drop_last() =~= rest + space.drop_last());
        trailing_space_is_found(rest, space.drop_last());
    } else {
        assert(all =~= rest);
    }
}

/// To trim a text is to take away the white space around it, and nothing else.
pub proof fn trimming_takes_the_space_around(before: Seq<char>, text: Seq<char>, after: Seq<char>)
    requires
        all_space(before),
        all_space(after),
        text.len() > 0 ==> !is_white_space(text[0]) && !is_white_space(text.last()),
    ensures
        trimmed(before + text + after) == text,
        trimmed(text) == text,
{
    let empty = Seq::<char>::empty();
    if text.len() > 0 {
        assert(before + text + after =~= before + (text + after));
        assert((text + after)[0] == text[0]);
        leading_space_is_found(before, text + after);
        trailing_space_is_found(text, after);
    } else {
        let all = before + text + after;
        assert(all_space(all));
        assert(all =~= all + empty);
        leading_space_is_found(all, empty);
        assert(text =~= empty);
    }
    assert(empty + text =~= text);
    assert(text + empty =~= text);
    leading_space_is_found(empty, text);
    trailing_space_is_found(text, empty);
}

/// Every text is its trimmed text with white space around it.
pub proof fn a_text_is_its_trimmed_text_in_space(text: Seq<char>) -> (around: (Seq<char>, Seq<char>))
    ensures
        all_space(around.0),
        all_space(around.1),
        text == around.0 + trimmed(text) + around.1,
        trimmed(text).len() > 0 ==> !is_white_space(trimmed(text)[0]) && !is_white_space(
            trimmed(text).last(),
        ),
{
    let before = leading_space_is_split_off(text);
    let rest = without_leading_space(text);
    let after = trailing_space_is_split_off(rest);
    assert(text =~= before + trimmed(text) + after);
    if trimmed(text).len() > 0 {
        assert(rest[0] == trimmed(text)[0]);
    }
    (before, after)
}

/// What stands before a character: the text up to the first one of it, or the whole text.
pub proof fn before_a_character_is_the_first_part(s: Seq<char>, c: char)
    ensures
        before_char(s, c).len() <= s.len(),
        forall|i: int|
            0 <= i < before_char(s, c).len() ==> #[trigger] before_char(s, c)[i] == s[i] && s[i]
                != c,
        before_char(s, c).len() < s.len() ==> s[before_char(s, c).len() as int] == c,
    decreases s.len(),
{
    if s.len() > 0 && s[0] != c {
        let rest = s.skip(1);
        before_a_character_is_the_first_part(rest, c);
        let part = before_char(rest, c);
        let all = before_char(s, c);
        assert forall|i: int| 0 <= i < all.len() implies #[trigger] all[i] == s[i] && s[i] != c by {
            if i > 0 {
                assert(all[i] == part[i - 1]);
                assert(part[i - 1] == rest[i - 1]);
            }
        }
        if all.len() < s.len() {
            assert(rest[part.len() as int] == s[part.len() as int + 1]);
        }
    }
}

/// What stands behind a character: the text behind the last one of it, or the whole text.
pub proof fn behind_a_character_is_the_last_part(s: Seq<char>, c: char)
    ensures
        after_last(s, c).len() <= s.len(),
        forall|i: int|
            0 <= i < after_last(s, c).len() ==> #[trigger] after_last(s, c)[i] == s[s.len()
                - after_last(s, c).len() + i] && after_last(s, c)[i] != c,
        after_last(s, c).len() < s.len() ==> s[s.len() - after_last(s, c).len() - 1] == c,
    decreases s.len(),
{
    if s.len() > 0 && s.last() != c {
        let rest = s.drop_last();
        behind_a_character_is_the_last_part(rest, c);
        let part = after_last(rest, c);
        let all = after_last(s, c);
        assert forall|i: int| 0 <= i < all.len() implies #[trigger] all[i] == s[s.len() - all.len()
            + i] && all[i] != c by {
            if i < part.len() {
                assert(all[i] == part[i]);
            }
        }
    }
}

/// What is left without trailing characters is the text up to the last character that is none
/// of them.
pub proof fn trailing_characters_are_the_last_part(s: Seq<char>, cs: Set<char>)
    ensures
        without_trailing(s, cs).len() <= s.len(),
        forall|i: int|
            0 <= i < without_trailing(s, cs).len() ==> #[trigger] without_trailing(s, cs)[i]
                == s[i],
        forall|i: int|
            without_trailing(s, cs).len() <= i < s.len() ==> cs.contains(#[trigger] s[i]),
        without_trailing(s, cs).len() > 0 ==> !cs.contains(without_trailing(s, cs).last()),
    decreases s.len(),
{
    if s.len() > 0 && cs.contains(s.last()) {
        let rest = s.drop_last();
        trailing_characters_are_the_last_part(rest, cs);
        assert(forall|i: int| 0 <= i < rest.len() ==> rest[i] == #[trigger] s[i]);
    }
}

/// A part that is put into a text occurs there: in front, at the end, or anywhere.
pub proof fn a_part_is_found_where_it_stands(before: Seq<char>, part: Seq<char>, after: Seq<char>)
    ensures
        contains_text(before + part + after, part),
        occurs_at(before + part + after, part, before.len() as int),
        ends_in(before + part, part),
        after_prefix(part + after, part) == Some(after),
{
    let all = before + part + after;
    assert(all.subrange(before.len() as int, (before.len() + part.len()) as int) =~= part);
    assert(occurs_at(all, part, before.len() as int));
    let end = before + part;
    assert(end.subrange(before.len() as int, end.len() as int) =~= part);
    let start = part + after;
    assert(start.subrange(0, part.len() as int) =~= part);
    assert(start.skip(part.len() as int) =~= after);
}

/// A part that occurs in a text stands there character by character.
pub proof fn a_part_that_is_found_stands_there(s: Seq<char>, part: Seq<char>, i: int)
    ensures
        occurs_at(s, part, i) ==> 0 <= i && i + part.len() <= s.len() && forall|k: int|
            0 <= k < part.len() ==> s[i + k] == #[trigger] part[k],
        ends_in(s, part) ==> part.len() <= s.len() && forall|k: int|
            0 <= k < part.len() ==> s[s.len() - part.len() + k] == #[trigger] part[k],
        contains_text(s, part) ==> exists|at: int|
            0 <= at <= s.len() - part.len() && #[trigger] s.subrange(at, at + part.len()) == part,
        after_prefix(s, part) matches Some(rest) ==> s == part + rest,
{
    if occurs_at(s, part, i) {
        assert forall|k: int| 0 <= k < part.len() implies s[i + k] == #[trigger] part[k] by {
            assert(s.subrange(i, i + part.len())[k] == part[k]);
        }
    }
    let at = s.len() - part.len();
    if occurs_at(s, part, at) {
        assert forall|k: int| 0 <= k < part.len() implies s[at + k] == #[trigger] part[k] by {
            assert(s.subrange(at, at + part.len())[k] == part[k]);
        }
    }
    if let Some(rest) = after_prefix(s, part) {
        assert(s.subrange(0, part.len() as int) == part);
        assert(s =~= s.subrange(0, part.len() as int) + rest);
    }
}

/// Two lists that are joined one after the other are joined with the separator between them.
pub proof fn joining_goes_part_by_part(
    one: Seq<Seq<char>>,
    other: Seq<Seq<char>>,
    text: Seq<char>,
    sep: Seq<char>,
)
    ensures
        joined(Seq::empty(), sep).len() == 0,
        joined(seq![text], sep) == text,
        one.len() > 0 && other.len() > 0 ==> joined(one + other, sep) == joined(one, sep) + sep
            + joined(other, sep),
    decreases other.len(),
{
    if one.len() > 0 && other.len() > 0 {
        let all = one + other;
        let head = other.drop_last();
        assert(all.drop_last() =~= one + head);
        assert(all.last() == other.last());
        if head.len() > 0 {
            joining_goes_part_by_part(one, head, text, sep);
            assert(joined(all, sep) =~= joined(one, sep) + sep + joined(other, sep));
        } else {
            assert(one + head =~= one);
            assert(joined(other, sep) == other[0]);
        }
    }
}

/// One text comes before another where they first differ, or where it ends first.
pub proof fn texts_are_ordered_where_they_differ(
    common: Seq<char>,
    one: Seq<char>,
    other: Seq<char>,
)
    requires
        one.len() > 0 && other.len() > 0 ==> one[0] != other[0],
    ensures
        text_less(common + one, common + other) <==> other.len() > 0 && (one.len() == 0 || one[0]
            < other[0]),
    decreases common.len(),
{
    let a = common + one;
    let b = common + other;
    if common.len() > 0 {
        assert(a[0] == common[0] && b[0] == common[0]);
        assert(a.skip(1) =~= common.skip(1) + one);
        assert(b.skip(1) =~= common.skip(1) + other);
        texts_are_ordered_where_they_differ(common.skip(1), one, other);
    } else {
        assert(a =~= one);
        assert(b =~= other);
    }
}

/// A character takes the place of another wherever it stands, and nothing else changes.
pub proof fn a_character_is_replaced_everywhere(s: Seq<char>, old_char: char, new_char: char)
    ensures
        replaced(s, old_char, new_char).len() == s.len(),
        forall|i: int|
            0 <= i < s.len() && s[i] == old_char ==> #[trigger] replaced(s, old_char, new_char)[i]
                == new_char,
        forall|i: int|
            0 <= i < s.len() && s[i] != old_char ==> #[trigger] replaced(s, old_char, new_char)[i]
                == s[i],
{
}

/// White space is twenty-five characters, each known by its number.
pub proof fn white_space_is_known_by_number(c: char)
    ensures
        is_white_space(c) <==> {
            let n = c as int;
            ||| 9 <= n <= 13
            ||| n == 32 || n == 133 || n == 160 || n == 5760
            ||| 8192 <= n <= 8202
            ||| n == 8232 || n == 8233 || n == 8239 || n == 8287 || n == 12288
        },
{
}

/// A part that occurs in a text has a first place there, and only one.
pub proof fn a_part_has_one_first_place(s: Seq<char>, part: Seq<char>, i: int, j: int)
    ensures
        first_at(s, part, i) ==> occurs_at(s, part, i),
        first_at(s, part, i) && occurs_at(s, part, j) ==> i <= j,
        first_at(s, part, i) && first_at(s, part, j) ==> i == j,
        occurs_at(s, part, j) ==> exists|k: int| 0 <= k <= j && first_at(s, part, k),
    decreases j,
{
    if occurs_at(s, part, j) {
        if exists|k: int| 0 <= k < j && occurs_at(s, part, k) {
            let k = choose|k: int| 0 <= k < j && occurs_at(s, part, k);
            a_part_has_one_first_place(s, part, i, k);
            let first = choose|f: int| 0 <= f <= k && first_at(s, part, f);
            assert(0 <= first <= j && first_at(s, part, first));
        } else {
            assert(first_at(s, part, j));
        }
    }
}

} // verus!
