//! Text and byte helpers shared by the other modules.
use vstd::prelude::*;
use vstd::utf8::{decode_utf8, encode_utf8, valid_utf8};

verus! {

/// `String::push` appends one character.
pub assume_specification[ String::push ](s: &mut String, c: char)
    ensures
        final(s)@ == old(s)@.push(c),
;

/// The views of the elements of `items`, in order.
pub open spec fn views<T: View>(items: Seq<T>) -> Seq<T::V> {
    items.map_values(|item: T| item@)
}

/// The view of an optional value.
pub open spec fn opt_view<T: View>(item: Option<T>) -> Option<T::V> {
    match item {
        Some(value) => Some(value@),
        None => None,
    }
}

pub broadcast proof fn views_of_push<T: View>(items: Seq<T>, item: T)
    ensures
        #[trigger] views(items.push(item)) == views(items).push(item@),
{
    assert(views(items.push(item)) =~= views(items).push(item@));
}

/// A value that gives a text: a string slice or an owned string.
pub trait IntoText: Sized {
    spec fn text(&self) -> Seq<char>;

    fn into_text(self) -> (text: String)
        ensures
            text@ == self.text(),
    ;
}

impl IntoText for String {
    open spec fn text(&self) -> Seq<char> {
        self@
    }

    fn into_text(self) -> (text: String) {
        self
    }
}

impl<'a> IntoText for &'a str {
    open spec fn text(&self) -> Seq<char> {
        (*self)@
    }

    fn into_text(self) -> (text: String) {
        self.to_owned()
    }
}

/// A value that gives bytes: a byte vector, or the UTF-8 form of a text.
pub trait IntoBytes: Sized {
    spec fn bytes(&self) -> Seq<u8>;

    fn into_bytes(self) -> (bytes: Vec<u8>)
        ensures
            bytes@ == self.bytes(),
    ;
}

impl IntoBytes for Vec<u8> {
    open spec fn bytes(&self) -> Seq<u8> {
        self@
    }

    fn into_bytes(self) -> (bytes: Vec<u8>) {
        self
    }
}

impl<'a> IntoBytes for &'a str {
    open spec fn bytes(&self) -> Seq<u8> {
        encode_utf8((*self)@)
    }

    fn into_bytes(self) -> (bytes: Vec<u8>) {
        utf8_of(self)
    }
}

/// The UTF-8 form of `s`.
pub fn utf8_of(s: &str) -> (bytes: Vec<u8>)
    ensures
        bytes@ == encode_utf8(s@),
{
    copy_bytes(s.as_bytes())
}

/// A copy of `bytes`.
pub fn copy_bytes(bytes: &[u8]) -> (copy: Vec<u8>)
    ensures
        copy@ == bytes@,
{
    let mut copy: Vec<u8> = Vec::new();
    copy.extend_from_slice(bytes);
    assert(copy@ =~= bytes@);
    copy
}

/// Text in UTF-8 is that of its parts, one after the other.
pub(crate) proof fn encode_of_sum(a: Seq<char>, b: Seq<char>)
    ensures
        encode_utf8(a + b) == encode_utf8(a) + encode_utf8(b),
    decreases a.len(),
{
    if a.len() == 0 {
        assert(a + b =~= b);
        assert(encode_utf8(a) + encode_utf8(b) =~= encode_utf8(b));
    } else {
        encode_of_sum(a.drop_first(), b);
        assert((a + b).drop_first() =~= a.drop_first() + b);
        assert(encode_utf8(a + b) =~= encode_utf8(a) + encode_utf8(b));
    }
}

/// The characters of `s`, in order.
pub fn chars_of(s: &str) -> (chars: Vec<char>)
    ensures
        chars@ == s@,
{
    let mut chars: Vec<char> = Vec::new();
    for c in it: s.chars()
        invariant
            chars@ == it.seq().take(it.index() as int),
            it.seq() == s@,
    {
        chars.push(c);
    }
    chars
}

/// The text made of `chars[from..to]`.
pub fn text_of(chars: &Vec<char>, from: usize, to: usize) -> (text: String)
    requires
        from <= to <= chars@.len(),
    ensures
        text@ == chars@.subrange(from as int, to as int),
{
    let mut text = String::new();
    let mut i: usize = from;
    while i < to
        invariant
            from <= i <= to <= chars@.len(),
            text@ == chars@.subrange(from as int, i as int),
        decreases to - i,
    {
        text.push(chars[i]);
        i = i + 1;
        assert(chars@.subrange(from as int, i as int) =~= chars@.subrange(
            from as int,
            i - 1,
        ).push(chars@[i - 1]));
    }
    text
}

/// Whether two texts are equal.
pub fn text_eq(a: &str, b: &str) -> (equal: bool)
    ensures
        equal == (a@ == b@),
{
    let left: String = a.to_owned();
    let right: String = b.to_owned();
    left == right
}

/// `s` without the occurrences of `c` at its end.
pub open spec fn trimmed_end(s: Seq<char>, c: char) -> Seq<char>
    decreases s.len(),
{
    if s.len() > 0 && s.last() == c {
        trimmed_end(s.drop_last(), c)
    } else {
        s
    }
}

/// `s` without the occurrences of `c` at its end.
pub fn trim_end_char(s: &str, c: char) -> (trimmed: String)
    ensures
        trimmed@ == trimmed_end(s@, c),
{
    let chars = chars_of(s);
    let mut end: usize = chars.len();
    assert(chars@.take(end as int) =~= chars@);
    while end > 0 && chars[end - 1] == c
        invariant
            end <= chars@.len(),
            chars@ == s@,
            trimmed_end(chars@.take(end as int), c) == trimmed_end(s@, c),
        decreases end,
    {
        assert(chars@.take(end as int).drop_last() =~= chars@.take(end - 1));
        end = end - 1;
    }
    assert(chars@.subrange(0, end as int) =~= chars@.take(end as int));
    text_of(&chars, 0, end)
}

/// Whether `prefix` starts `s`.
pub open spec fn starts_with(s: Seq<char>, prefix: Seq<char>) -> bool {
    prefix.len() <= s.len() && s.take(prefix.len() as int) == prefix
}

/// Whether a text holds another one somewhere.
pub open spec fn holds(text: Seq<char>, part: Seq<char>) -> bool {
    exists|before: Seq<char>, after: Seq<char>| text == #[trigger] (before + part + after)
}

pub(crate) proof fn holds_part(before: Seq<char>, part: Seq<char>, after: Seq<char>)
    ensures
        holds(before + part + after, part),
        holds(before + part, part),
{
    assert(before + part + Seq::empty() =~= before + part);
}

/// A text that is followed by a label and a value holds both together, and all that it held.
pub(crate) proof fn holds_label(text: Seq<char>, label: Seq<char>, value: Seq<char>)
    ensures
        holds(text + label + value, label + value),
        forall|part: Seq<char>| #[trigger] holds(text, part) ==> holds(text + label + value, part),
{
    let all = text + label + value;
    assert(all =~= text + (label + value));
    holds_part(text, label + value, Seq::empty());
    assert forall|part: Seq<char>| #[trigger] holds(text, part) implies holds(all, part) by {
        let (before, after) = choose|before: Seq<char>, after: Seq<char>|
            text == #[trigger] (before + part + after);
        assert(all =~= before + part + (after + label + value));
    }
}

/// The texts of `parts` with `separator` between them.
pub open spec fn joined(parts: Seq<Seq<char>>, separator: Seq<char>) -> Seq<char>
    decreases parts.len(),
{
    if parts.len() == 0 {
        Seq::empty()
    } else if parts.len() == 1 {
        parts[0]
    } else {
        joined(parts.drop_last(), separator) + separator + parts.last()
    }
}

/// The texts of `parts` with `separator` between them.
pub fn join(parts: &Vec<String>, separator: &str) -> (text: String)
    ensures
        text@ == joined(views(parts@), separator@),
{
    let mut text = String::new();
    let mut i: usize = 0;
    while i < parts.len()
        invariant
            i <= parts@.len(),
            text@ == joined(views(parts@.take(i as int)), separator@),
        decreases parts@.len() - i,
    {
        if i > 0 {
            text.append(separator);
        }
        text.append(parts[i].as_str());
        i = i + 1;
        let ghost now = views(parts@.take(i as int));
        assert(now.drop_last() =~= views(parts@.take(i - 1)));
        assert(now.last() == parts@[i - 1]@);
    }
    assert(parts@.take(i as int) =~= parts@);
    text
}

/// One text joined is itself, and texts joined in two parts, with the separator between the parts,
/// are joined as all at once: no text is left out, and the separator stands between any two.
pub proof fn joining_keeps_all_parts(a: Seq<Seq<char>>, b: Seq<Seq<char>>, separator: Seq<char>)
    requires
        a.len() > 0,
        b.len() > 0,
    ensures
        joined(a + b, separator) == joined(a, separator) + separator + joined(b, separator),
        a.len() == 1 ==> joined(a, separator) == a[0],
        joined(Seq::empty(), separator) == Seq::<char>::empty(),
    decreases b.len(),
{
    assert((a + b).drop_last() =~= a + b.drop_last());
    assert((a + b).last() == b.last());
    if b.len() == 1 {
        assert(a + b.drop_last() =~= a);
    } else {
        joining_keeps_all_parts(a, b.drop_last(), separator);
        assert(joined(a + b, separator) =~= joined(a, separator) + separator + joined(
            b,
            separator,
        ));
    }
}

/// Trimming one character takes it alone from the end of a text, and all of it.
pub proof fn trimming_the_end_keeps_the_beginning(s: Seq<char>, c: char)
    ensures
        ({
            let left = trimmed_end(s, c);
            &&& left.len() <= s.len()
            &&& left == s.take(left.len() as int)
            &&& forall|i: int| left.len() <= i < s.len() ==> s[i] == c
            &&& left.len() > 0 ==> left.last() != c
        }),
    decreases s.len(),
{
    if s.len() > 0 && s.last() == c {
        trimming_the_end_keeps_the_beginning(s.drop_last(), c);
        let left = trimmed_end(s, c);
        assert(s.drop_last().take(left.len() as int) =~= s.take(left.len() as int));
        assert forall|i: int| left.len() <= i < s.len() implies s[i] == c by {
            if i < s.len() - 1 {
                assert(s.drop_last()[i] == c);
            }
        }
    } else {
        assert(s.take(s.len() as int) =~= s);
    }
}

/// Whether `c` is a white-space character (the Unicode property `White_Space`).
pub open spec fn white_space(c: char) -> bool {
    ||| '\u{9}' <= c <= '\u{d}'
    ||| c == ' '
    ||| c == '\u{85}'
    ||| c == '\u{a0}'
    ||| c == '\u{1680}'
    ||| '\u{2000}' <= c <= '\u{200a}'
    ||| c == '\u{2028}'
    ||| c == '\u{2029}'
    ||| c == '\u{202f}'
    ||| c == '\u{205f}'
    ||| c == '\u{3000}'
}

/// The characters that are white space, by their numbers: among those of ASCII they are the space,
/// the tabs, the line and form feeds and the carriage return alone.
pub proof fn white_space_is_known_by_number(c: char)
    ensures
        ({
            let n = c as int;
            &&& 128 > n ==> (white_space(c) <==> n == 32 || n == 9 || n == 10 || n == 11 || n == 12
                || n == 13)
            &&& n >= 128 ==> (white_space(c) <==> n == 0x85 || n == 0xa0 || n == 0x1680 || (0x2000
                <= n && 0x200b > n) || n == 0x2028 || n == 0x2029 || n == 0x202f || n == 0x205f || n
                == 0x3000)
        }),
{
}

pub fn is_white_space(c: char) -> (white: bool)
    ensures
        white == white_space(c),
{
    ('\u{9}' <= c && c <= '\u{d}') || c == ' ' || c == '\u{85}' || c == '\u{a0}' || c == '\u{1680}'
        || ('\u{2000}' <= c && c <= '\u{200a}') || c == '\u{2028}' || c == '\u{2029}' || c
        == '\u{202f}' || c == '\u{205f}' || c == '\u{3000}'
}

/// `s` without leading and trailing white space.
pub open spec fn trimmed(s: Seq<char>) -> Seq<char>
    decreases s.len(),
{
    if s.len() > 0 && white_space(s.last()) {
        trimmed(s.drop_last())
    } else if s.len() > 0 && white_space(s.first()) {
        trimmed(s.drop_first())
    } else {
        s
    }
}

/// `s` without leading and trailing white space.
pub fn trim(s: &str) -> (text: String)
    ensures
        text@ == trimmed(s@),
{
    let chars = chars_of(s);
    let mut from: usize = 0;
    let mut to: usize = chars.len();
    assert(chars@.subrange(0, to as int) =~= chars@);
    while from < to && is_white_space(chars[to - 1])
        invariant
            from <= to <= chars@.len(),
            trimmed(chars@.subrange(from as int, to as int)) == trimmed(s@),
        decreases to,
    {
        assert(chars@.subrange(from as int, to as int).drop_last() =~= chars@.subrange(
            from as int,
            to - 1,
        ));
        to = to - 1;
    }
    while from < to && is_white_space(chars[from])
        invariant
            from <= to <= chars@.len(),
            from < to ==> !white_space(chars@[to - 1]),
            trimmed(chars@.subrange(from as int, to as int)) == trimmed(s@),
        decreases to - from,
    {
        assert(chars@.subrange(from as int, to as int).drop_first() =~= chars@.subrange(
            from + 1,
            to as int,
        ));
        from = from + 1;
    }
    text_of(&chars, from, to)
}

/// Trimming takes white space alone from both ends of a text, and all of it: what is left neither
/// begins nor ends with any.
pub proof fn trimming_leaves_the_middle(text: Seq<char>)
    ensures
        exists|from: int, to: int|
            #![trigger text.subrange(from, to)]
            0 <= from <= to <= text.len() && trimmed(text) == text.subrange(from, to) && (forall|
                i: int,
            |
                0 <= i < from || to <= i < text.len() ==> white_space(#[trigger] text[i])) && (from
                < to ==> !white_space(text[from]) && !white_space(text[to - 1])),
    decreases text.len(),
{
    if text.len() > 0 && white_space(text.last()) {
        let rest = text.drop_last();
        trimming_leaves_the_middle(rest);
        let (from, to) = choose|from: int, to: int|
            #![trigger rest.subrange(from, to)]
            0 <= from <= to <= rest.len() && trimmed(rest) == rest.subrange(from, to) && (forall|
                i: int,
            |
                0 <= i < from || to <= i < rest.len() ==> white_space(#[trigger] rest[i])) && (from
                < to ==> !white_space(rest[from]) && !white_space(rest[to - 1]));
        assert(rest.subrange(from, to) =~= text.subrange(from, to));
        assert forall|i: int| 0 <= i < from || to <= i < text.len() implies white_space(
            #[trigger] text[i],
        ) by {
            if i < rest.len() {
                assert(white_space(rest[i]));
            }
        }
    } else if text.len() > 0 && white_space(text.first()) {
        let rest = text.drop_first();
        trimming_leaves_the_middle(rest);
        let (from, to) = choose|from: int, to: int|
            #![trigger rest.subrange(from, to)]
            0 <= from <= to <= rest.len() && trimmed(rest) == rest.subrange(from, to) && (forall|
                i: int,
            |
                0 <= i < from || to <= i < rest.len() ==> white_space(#[trigger] rest[i])) && (from
                < to ==> !white_space(rest[from]) && !white_space(rest[to - 1]));
        assert(rest.subrange(from, to) =~= text.subrange(from + 1, to + 1));
        assert forall|i: int| 0 <= i < from + 1 || to + 1 <= i < text.len() implies white_space(
            #[trigger] text[i],
        ) by {
            if i > 0 {
                assert(white_space(rest[i - 1]));
            }
        }
    } else {
        assert(text.subrange(0, text.len() as int) =~= text);
    }
}

/// What stands between white space is what trimming leaves, whatever white space is around it.
pub proof fn trimming_finds_the_middle(before: Seq<char>, middle: Seq<char>, after: Seq<char>)
    requires
        forall|i: int| 0 <= i < before.len() ==> white_space(#[trigger] before[i]),
        forall|i: int| 0 <= i < after.len() ==> white_space(#[trigger] after[i]),
        middle.len() > 0 ==> !white_space(middle.first()) && !white_space(middle.last()),
    ensures
        trimmed(before + middle + after) == middle,
{
    let text = before + middle + after;
    let start = before.len() as int;
    let end = start + middle.len();
    trimming_leaves_the_middle(text);
    let (from, to) = choose|from: int, to: int|
        #![trigger text.subrange(from, to)]
        0 <= from <= to <= text.len() && trimmed(text) == text.subrange(from, to) && (forall|i: int|
            0 <= i < from || to <= i < text.len() ==> white_space(#[trigger] text[i])) && (from < to
            ==> !white_space(text[from]) && !white_space(text[to - 1]));
    assert(forall|i: int| 0 <= i < start ==> text[i] == before[i]);
    assert(forall|i: int| end <= i < text.len() ==> text[i] == after[i - end]);
    if middle.len() > 0 {
        assert(text[start] == middle.first());
        assert(text[end - 1] == middle.last());
        assert(from <= start && end <= to);
        assert(from == start) by {
            if from < start {
                assert(white_space(before[from]));
            }
        }
        assert(to == end) by {
            if to > end {
                assert(white_space(after[to - 1 - end]));
            }
        }
    } else {
        if from < to {
            if from < start {
                assert(white_space(before[from]));
            } else {
                assert(white_space(after[from - end]));
            }
        }
    }
    assert(text.subrange(from, to) =~= middle);
}

/// A text that holds a character which is no white space is not trimmed away.
pub proof fn trimming_keeps_text(text: Seq<char>, i: int)
    requires
        0 <= i < text.len(),
        !white_space(text[i]),
    ensures
        trimmed(text).len() > 0,
{
    trimming_leaves_the_middle(text);
}

/// Whether `a` stands before `b` in the order of their characters' code points.
pub open spec fn text_before(a: Seq<char>, b: Seq<char>) -> bool
    decreases a.len(),
{
    if b.len() == 0 {
        false
    } else if a.len() == 0 {
        true
    } else if a[0] != b[0] {
        a[0] < b[0]
    } else {
        text_before(a.drop_first(), b.drop_first())
    }
}

/// Whether `a` stands before `b` in the order of their characters' code points.
pub fn is_before(a: &str, b: &str) -> (before: bool)
    ensures
        before == text_before(a@, b@),
{
    let left = chars_of(a);
    let right = chars_of(b);
    let mut i: usize = 0;
    assert(left@.skip(0) =~= left@);
    assert(right@.skip(0) =~= right@);
    while i < left.len() && i < right.len() && left[i] == right[i]
        invariant
            i <= left@.len(),
            i <= right@.len(),
            text_before(left@.skip(i as int), right@.skip(i as int)) == text_before(a@, b@),
        decreases left@.len() - i,
    {
        assert(left@.skip(i as int).drop_first() =~= left@.skip(i + 1));
        assert(right@.skip(i as int).drop_first() =~= right@.skip(i + 1));
        i = i + 1;
    }
    if i >= right.len() {
        false
    } else if i >= left.len() {
        true
    } else {
        left[i] < right[i]
    }
}

/// No text stands before itself.
pub proof fn text_before_irreflexive(a: Seq<char>)
    ensures
        !text_before(a, a),
    decreases a.len(),
{
    if a.len() > 0 {
        text_before_irreflexive(a.drop_first());
    }
}

pub proof fn text_before_transitive(a: Seq<char>, b: Seq<char>, c: Seq<char>)
    requires
        text_before(a, b),
        text_before(b, c),
    ensures
        text_before(a, c),
    decreases a.len(),
{
    if a.len() > 0 && a[0] == b[0] && b[0] == c[0] {
        text_before_transitive(a.drop_first(), b.drop_first(), c.drop_first());
    }
}

/// Of two different texts, one stands before the other.
pub proof fn text_before_total(a: Seq<char>, b: Seq<char>)
    requires
        a != b,
    ensures
        text_before(a, b) || text_before(b, a),
    decreases a.len(),
{
    if a.len() > 0 && b.len() > 0 && a[0] == b[0] {
        if a.drop_first() == b.drop_first() {
            assert(a =~= seq![a[0]] + a.drop_first());
            assert(b =~= seq![b[0]] + b.drop_first());
        }
        text_before_total(a.drop_first(), b.drop_first());
    } else if a.len() == 0 && b.len() == 0 {
        assert(a =~= b);
    }
}

/// Of two texts the one with the smaller character stands first, at the first place where they
/// differ; and a text stands before all that begin with it.
pub proof fn texts_are_ordered_by_their_first_difference(
    common: Seq<char>,
    a: Seq<char>,
    b: Seq<char>,
)
    ensures
        a.len() > 0 && b.len() > 0 && a[0] != b[0] ==> (text_before(common + a, common + b) <==> a[0]
            < b[0]),
        b.len() > 0 ==> text_before(common, common + b) && !text_before(common + b, common),
    decreases common.len(),
{
    if common.len() == 0 {
        assert(common + a =~= a);
        assert(common + b =~= b);
    } else {
        let rest = common.drop_first();
        texts_are_ordered_by_their_first_difference(rest, a, b);
        assert((common + a).drop_first() =~= rest + a);
        assert((common + b).drop_first() =~= rest + b);
    }
}

/// The number of characters of `s` up to and with the first `c`; all of them where there is none.
pub open spec fn fragment_len(s: Seq<char>, c: char) -> nat
    decreases s.len(),
{
    if s.len() == 0 {
        0
    } else if s[0] == c {
        1
    } else {
        1 + fragment_len(s.drop_first(), c)
    }
}

pub proof fn fragment_len_bounds(s: Seq<char>, c: char)
    ensures
        fragment_len(s, c) <= s.len(),
        s.len() > 0 ==> fragment_len(s, c) >= 1,
        forall|i: int| 0 <= i < fragment_len(s, c) - 1 ==> s[i] != c,
        fragment_len(s, c) < s.len() ==> s[fragment_len(s, c) - 1] == c,
    decreases s.len(),
{
    if s.len() > 0 && s[0] != c {
        fragment_len_bounds(s.drop_first(), c);
        assert forall|i: int| 0 <= i < fragment_len(s, c) - 1 implies s[i] != c by {
            if i > 0 {
                assert(s.drop_first()[i - 1] != c);
            }
        }
    }
}

/// `s` cut after each `c`.
pub open spec fn fragments(s: Seq<char>, c: char) -> Seq<Seq<char>>
    decreases s.len(),
{
    if s.len() == 0 {
        Seq::empty()
    } else {
        proof {
            fragment_len_bounds(s, c);
        }
        seq![s.take(fragment_len(s, c) as int)] + fragments(s.skip(fragment_len(s, c) as int), c)
    }
}

/// The texts of `parts`, one after the other.
pub open spec fn concatenated<A>(parts: Seq<Seq<A>>) -> Seq<A>
    decreases parts.len(),
{
    if parts.len() == 0 {
        Seq::empty()
    } else {
        parts[0] + concatenated(parts.drop_first())
    }
}

pub proof fn concatenated_of_push<A>(parts: Seq<Seq<A>>, last: Seq<A>)
    ensures
        concatenated(parts.push(last)) == concatenated(parts) + last,
    decreases parts.len(),
{
    if parts.len() == 0 {
        assert(parts.push(last).drop_first() =~= Seq::empty());
        assert(concatenated(parts.push(last).drop_first()) =~= Seq::<A>::empty());
        assert(concatenated(parts.push(last)) =~= last);
    } else {
        concatenated_of_push(parts.drop_first(), last);
        assert(parts.push(last).drop_first() =~= parts.drop_first().push(last));
        assert(concatenated(parts.push(last)) =~= concatenated(parts) + last);
    }
}

/// Cutting a text loses nothing: its fragments, one after the other, are the text again.
pub proof fn fragments_preserve_text(s: Seq<char>, c: char)
    ensures
        concatenated(fragments(s, c)) == s,
    decreases s.len(),
{
    fragment_len_bounds(s, c);
    if s.len() > 0 {
        let n = fragment_len(s, c) as int;
        fragments_preserve_text(s.skip(n), c);
        assert(fragments(s, c).drop_first() =~= fragments(s.skip(n), c));
        assert(s =~= s.take(n) + s.skip(n));
    } else {
        assert(concatenated(fragments(s, c)) =~= s);
    }
}

/// Each fragment but the last ends with the character at which the text is cut, and it stands
/// nowhere else in a fragment; none is empty.
pub proof fn fragments_end_where_the_text_is_cut(s: Seq<char>, c: char, i: int)
    requires
        0 <= i < fragments(s, c).len(),
    ensures
        ({
            let part = fragments(s, c)[i];
            &&& part.len() > 0
            &&& i < fragments(s, c).len() - 1 ==> part.last() == c
            &&& forall|j: int| 0 <= j < part.len() - 1 ==> part[j] != c
        }),
    decreases s.len(),
{
    fragment_len_bounds(s, c);
    let n = fragment_len(s, c) as int;
    if i > 0 {
        fragments_end_where_the_text_is_cut(s.skip(n), c, i - 1);
        assert(fragments(s, c)[i] == fragments(s.skip(n), c)[i - 1]);
    } else {
        let part = fragments(s, c)[i];
        assert(part == s.take(n));
        if fragments(s, c).len() > 1 {
            assert(fragments(s, c).len() == 1 + fragments(s.skip(n), c).len());
            assert(fragments(s.skip(n), c).len() > 0);
            assert(s.skip(n).len() > 0) by {
                if s.skip(n).len() == 0 {
                    assert(fragments(s.skip(n), c).len() == 0);
                }
            }
            assert(part.last() == s[n - 1]);
        }
        assert forall|j: int| 0 <= j < part.len() - 1 implies part[j] != c by {
            assert(s[j] != c);
        }
    }
}

/// `s` cut after each `c`.
pub fn split_inclusive(s: &str, c: char) -> (parts: Vec<String>)
    ensures
        views(parts@) == fragments(s@, c),
{
    let chars = chars_of(s);
    let mut parts: Vec<String> = Vec::new();
    let mut start: usize = 0;
    assert(chars@.skip(0) =~= chars@);
    assert(fragments(s@, c) =~= views(parts@) + fragments(chars@.skip(0), c));
    while start < chars.len()
        invariant
            start <= chars@.len(),
            chars@ == s@,
            fragments(s@, c) == views(parts@) + fragments(chars@.skip(start as int), c),
        decreases chars@.len() - start,
    {
        let ghost rest = chars@.skip(start as int);
        let mut end: usize = start;
        assert(rest.skip(0) =~= rest);
        while end < chars.len() && chars[end] != c
            invariant
                start <= end <= chars@.len(),
                rest == chars@.skip(start as int),
                fragment_len(rest, c) == (end - start) + fragment_len(rest.skip(end - start), c),
            decreases chars@.len() - end,
        {
            assert(rest.skip(end - start).drop_first() =~= rest.skip(end - start + 1));
            end = end + 1;
        }
        if end < chars.len() {
            end = end + 1;
        }
        proof {
            fragment_len_bounds(rest, c);
            assert(fragment_len(rest, c) == end - start);
            assert(rest.take(end - start) =~= chars@.subrange(start as int, end as int));
            assert(rest.skip(end - start) =~= chars@.skip(end as int));
        }
        let ghost before = parts@;
        parts.push(text_of(&chars, start, end));
        proof {
            views_of_push(before, parts@.last());
            let rest_parts = fragments(chars@.skip(end as int), c);
            assert(fragments(rest, c) =~= seq![parts@.last()@] + rest_parts);
            assert(fragments(s@, c) =~= views(parts@) + rest_parts);
        }
        start = end;
    }
    assert(fragments(s@, c) =~= views(parts@));
    parts
}

/// The character of a decimal digit.
pub open spec fn digit_char(digit: nat) -> char {
    (48 + digit) as char
}

/// `n` in decimal, without leading zeros.
pub open spec fn decimal(n: nat) -> Seq<char>
    decreases n,
{
    if n < 10 {
        seq![digit_char(n)]
    } else {
        decimal(n / 10).push(digit_char(n % 10))
    }
}

/// `n` in decimal, without leading zeros.
pub fn decimal_text(n: u128) -> (text: String)
    ensures
        text@ == decimal(n as nat),
    decreases n,
{
    let digit: u8 = (n % 10) as u8;
    let c: char = (48 + digit) as char;
    if n < 10 {
        let mut text = String::new();
        text.push(c);
        assert(text@ =~= seq![c]);
        text
    } else {
        let mut text = decimal_text(n / 10);
        text.push(c);
        text
    }
}

/// The number that a non-empty run of decimal digits stands for.
pub open spec fn digits_value(s: Seq<char>) -> Option<nat>
    decreases s.len(),
{
    if s.len() == 0 || !('0' <= s.last() <= '9') {
        None
    } else if s.len() == 1 {
        Some((s.last() as int - 48) as nat)
    } else {
        match digits_value(s.drop_last()) {
            Some(value) => Some((value * 10 + (s.last() as int - 48)) as nat),
            None => None,
        }
    }
}

/// The number that a text stands for: decimal digits, with an optional `+` in front.
pub open spec fn parsed_number(s: Seq<char>) -> Option<nat> {
    if s.len() > 0 && s[0] == '+' {
        digits_value(s.drop_first())
    } else {
        digits_value(s)
    }
}

proof fn digits_value_grows(s: Seq<char>, n: int)
    requires
        0 < n <= s.len(),
        digits_value(s) is Some,
    ensures
        digits_value(s.take(n)) is Some,
        digits_value(s.take(n))->0 <= digits_value(s)->0,
    decreases s.len(),
{
    if n < s.len() {
        digits_value_grows(s.drop_last(), n);
        assert(s.drop_last().take(n) =~= s.take(n));
    } else {
        assert(s.take(n) =~= s);
    }
}

/// A number that is written in decimal is read back, also with a plus sign in front; it is written
/// in digits alone, and begins with a zero only where it is zero.
pub proof fn numbers_are_read_back(n: nat)
    ensures
        parsed_number(decimal(n)) == Some(n),
        parsed_number(seq!['+'] + decimal(n)) == Some(n),
        decimal(n).len() > 0,
        decimal(n)[0] == '0' <==> n == 0,
        n == 0 ==> decimal(n).len() == 1,
        forall|i: int| 0 <= i < decimal(n).len() ==> '0' <= #[trigger] decimal(n)[i] <= '9',
{
    decimals_have_their_value(n);
    assert((seq!['+'] + decimal(n)).drop_first() =~= decimal(n));
    assert('0' <= decimal(n)[0] <= '9');
}

proof fn decimals_have_their_value(n: nat)
    ensures
        digits_value(decimal(n)) == Some(n),
        decimal(n).len() > 0,
        decimal(n)[0] == '0' <==> n == 0,
        n == 0 ==> decimal(n).len() == 1,
        forall|i: int| 0 <= i < decimal(n).len() ==> '0' <= #[trigger] decimal(n)[i] <= '9',
    decreases n,
{
    if n >= 10 {
        decimals_have_their_value(n / 10);
        assert(decimal(n).drop_last() =~= decimal(n / 10));
        assert(decimal(n)[0] == decimal(n / 10)[0]);
        assert forall|i: int| 0 <= i < decimal(n).len() implies '0' <= #[trigger] decimal(n)[i]
            <= '9' by {
            if i < decimal(n / 10).len() {
                assert('0' <= decimal(n / 10)[i] <= '9');
            }
        }
    }
}

/// Any run of digits is a number, and is read digit by digit: one digit is its own value, and one
/// more at the end is the next place. Zeros may stand in front, and so may a plus sign.
pub proof fn numbers_are_read_digit_by_digit(s: Seq<char>, c: char)
    requires
        s.len() > 0,
        forall|i: int| 0 <= i < s.len() ==> '0' <= #[trigger] s[i] <= '9',
        '0' <= c <= '9',
    ensures
        parsed_number(s) is Some,
        parsed_number(s.push(c)) == Some((parsed_number(s)->0 * 10 + (c as int - 48)) as nat),
        parsed_number(seq![c]) == Some((c as int - 48) as nat),
        parsed_number(seq!['+'] + s) == parsed_number(s),
{
    digits_have_a_value(s);
    assert('0' <= s[0] <= '9');
    assert(s.push(c).drop_last() =~= s);
    assert(s.push(c)[0] == s[0]);
    assert((seq!['+'] + s).drop_first() =~= s);
}

proof fn digits_have_a_value(s: Seq<char>)
    requires
        s.len() > 0,
        forall|i: int| 0 <= i < s.len() ==> '0' <= #[trigger] s[i] <= '9',
    ensures
        digits_value(s) is Some,
    decreases s.len(),
{
    assert('0' <= s[s.len() - 1] <= '9');
    if s.len() > 1 {
        assert forall|i: int| 0 <= i < s.drop_last().len() implies '0' <= #[trigger] s.drop_last()[i]
            <= '9' by {
            assert('0' <= s[i] <= '9');
        }
        digits_have_a_value(s.drop_last());
    }
}

/// A text with a character that is no digit, other than a plus sign in front, is no number; nor is
/// one without digits.
pub proof fn numbers_are_digits_alone(s: Seq<char>, i: int)
    requires
        0 <= i < s.len(),
        !('0' <= s[i] <= '9'),
    ensures
        i > 0 || s[0] != '+' ==> parsed_number(s) is None,
        s.len() == 1 ==> parsed_number(s) is None,
        parsed_number(Seq::empty()) is None,
{
    if s[0] == '+' {
        if i > 0 {
            assert(s.drop_first()[i - 1] == s[i]);
            no_digits_no_value(s.drop_first(), i - 1);
        }
    } else {
        no_digits_no_value(s, i);
    }
}

proof fn no_digits_no_value(s: Seq<char>, i: int)
    requires
        0 <= i < s.len(),
        !('0' <= s[i] <= '9'),
    ensures
        digits_value(s) is None,
    decreases s.len(),
{
    if i < s.len() - 1 {
        no_digits_no_value(s.drop_last(), i);
    }
}

/// The number that `s` stands for, where it is one and no larger than `max`.
pub fn parse_number(s: &str, max: u64) -> (number: Option<u64>)
    ensures
        number == (match parsed_number(s@) {
            Some(value) => if value <= max {
                Some(value as u64)
            } else {
                None
            },
            None => None,
        }),
{
    let chars = chars_of(s);
    let mut i: usize = 0;
    if chars.len() > 0 && chars[0] == '+' {
        i = 1;
    }
    let first: usize = i;
    let ghost digits = chars@.skip(first as int);
    proof {
        assert(chars@.skip(0) =~= chars@);
        assert(first == 1 ==> digits =~= chars@.drop_first());
    }
    if i >= chars.len() {
        return None;
    }
    let mut value: u64 = 0;
    while i < chars.len()
        invariant
            first <= i <= chars@.len(),
            digits == chars@.skip(first as int),
            digits.len() > 0,
            parsed_number(s@) == digits_value(digits),
            i > first ==> digits_value(digits.take(i - first)) == Some(value as nat),
            i == first ==> value == 0,
            value <= max,
        decreases chars@.len() - i,
    {
        let c = chars[i];
        let ghost next = digits.take(i - first + 1);
        proof {
            assert(next.drop_last() =~= digits.take(i - first));
            assert(next.last() == c);
            if digits_value(digits) is Some {
                digits_value_grows(digits, i - first + 1);
            }
        }
        if c < '0' || c > '9' {
            return None;
        }
        let digit: u64 = (c as u32 - 48) as u64;
        let wide: u128 = value as u128 * 10 + digit as u128;
        if wide > max as u128 {
            return None;
        }
        value = wide as u64;
        i = i + 1;
    }
    assert(digits.take(i - first) =~= digits);
    Some(value)
}

/// What the `{:?}` form of a text is.
pub uninterp spec fn debug_form(text: Seq<char>) -> Seq<char>;

/// The `{:?}` form of `str`: the text in double quotes with its special characters escaped. Which
/// characters are escaped, and how, is std's and is named, not stated.
#[verifier::external_body]
pub(crate) fn debug_text(text: &str) -> (form: String)
    ensures
        form@ == debug_form(text@),
{
    format!("{text:?}")
}

/// The text that bytes decode to, each invalid sequence replaced.
pub uninterp spec fn lossy_text(bytes: Seq<u8>) -> Seq<char>;

/// Bytes that are valid UTF-8 decode to their text.
pub open spec fn reads_as_text(bytes: Seq<u8>) -> bool {
    valid_utf8(bytes) ==> lossy_text(bytes) == decode_utf8(bytes)
}

/// `String::from_utf8_lossy`: bytes that are valid UTF-8 decode to their text; what stands for
/// invalid sequences is std's and is named, not stated.
#[verifier::external_body]
pub(crate) fn utf8_lossy(bytes: &[u8]) -> (text: String)
    ensures
        text@ == lossy_text(bytes@),
        valid_utf8(bytes@) ==> text@ == decode_utf8(bytes@),
{
    String::from_utf8_lossy(bytes).into_owned()
}

} // verus!
