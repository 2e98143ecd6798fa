//! Text helpers: equality, trimming, joining, and number spelling.

use vstd::prelude::*;
use vstd::string::*;

verus! {

/// The characters of an optional text.
pub open spec fn text_opt(text: Option<&str>) -> Option<Seq<char>> {
    match text {
        Some(text) => Some(text@),
        None => None,
    }
}

/// The characters of an optional owned text.
pub open spec fn string_opt(text: Option<String>) -> Option<Seq<char>> {
    match text {
        Some(text) => Some(text@),
        None => None,
    }
}

/// The characters of each text of a list.
pub open spec fn texts(list: Seq<String>) -> Seq<Seq<char>> {
    Seq::new(list.len(), |i: int| list[i]@)
}

/// The characters of each borrowed text of a list.
pub open spec fn strs(list: Seq<&str>) -> Seq<Seq<char>> {
    Seq::new(list.len(), |i: int| list[i]@)
}

/// Compares two texts with `str`'s own equality, which holds when both spell
/// the same characters.
#[verifier::external_body]
pub(crate) fn same(a: &str, b: &str) -> (r: bool)
    ensures
        r == (a@ == b@),
{
    a == b
}

/// Copies an optional text.
pub fn owned_opt(text: Option<&str>) -> (r: Option<String>)
    ensures
        string_opt(r) == text_opt(text),
{
    match text {
        Some(text) => Some(text.to_owned()),
        None => None,
    }
}

/// Copies an optional owned text.
pub fn copy_opt(text: &Option<String>) -> (r: Option<String>)
    ensures
        string_opt(r) == string_opt(*text),
{
    match text {
        Some(text) => Some(text.as_str().to_owned()),
        None => None,
    }
}

/// Tells whether a list of texts holds one.
pub fn listed(list: &Vec<String>, text: &str) -> (r: bool)
    ensures
        r == texts(list@).contains(text@),
{
    let mut i: usize = 0;
    while i < list.len()
        invariant
            i <= list.len(),
            forall|k: int| 0 <= k < i ==> #[trigger] texts(list@)[k] != text@,
        decreases list.len() - i,
    {
        if same(list[i].as_str(), text) {
            assert(texts(list@)[i as int] == text@);
            return true;
        }
        i = i + 1;
    }
    false
}

/// One more element: what a longer prefix of a sequence adds.
pub proof fn lemma_take<A>(s: Seq<A>, i: int)
    requires
        0 <= i < s.len(),
    ensures
        s.take(i + 1).drop_last() == s.take(i),
        s.take(i + 1).last() == s[i],
        s.take(i + 1) == s.take(i).push(s[i]),
{
    assert(s.take(i + 1).drop_last() =~= s.take(i));
    assert(s.take(i + 1) =~= s.take(i).push(s[i]));
}

/// A longer prefix of a sequence holds what the shorter one held, and the new
/// element.
pub proof fn lemma_take_contains<A>(s: Seq<A>, i: int)
    requires
        0 <= i < s.len(),
    ensures
        forall|other: A| #[trigger]
            s.take(i + 1).contains(other) <==> s.take(i).contains(other) || other == s[i],
{
    assert forall|other: A| #[trigger] s.take(i + 1).contains(other) <==> s.take(i).contains(other)
        || other == s[i] by {
        if s.take(i).contains(other) {
            let j = choose|j: int| 0 <= j < i && s.take(i)[j] == other;
            assert(s.take(i + 1)[j] == other);
        }
        if other == s[i] {
            assert(s.take(i + 1)[i] == other);
        }
        if s.take(i + 1).contains(other) && other != s[i] {
            let j = s.take(i + 1).index_of(other);
            assert(s.take(i)[j] == other);
        }
    }
}

/// An element unlike the ones before it is in no shorter prefix.
pub proof fn lemma_take_new<A>(s: Seq<A>, i: int)
    requires
        0 <= i < s.len(),
        forall|j: int| 0 <= j < i ==> s[j] != s[i],
    ensures
        !s.take(i).contains(s[i]),
{
    if s.take(i).contains(s[i]) {
        let j = s.take(i).index_of(s[i]);
        assert(s[j] == s[i]);
    }
}

/// The empty prefix and the whole of a sequence.
pub proof fn lemma_ends<A>(s: Seq<A>)
    ensures
        s.take(0) == Seq::<A>::empty(),
        s.take(s.len() as int) == s,
{
    assert(s.take(0) =~= Seq::<A>::empty());
    assert(s.take(s.len() as int) =~= s);
}

/// The texts of a list with `separator` between each two.
pub open spec fn join(list: Seq<Seq<char>>, separator: Seq<char>) -> Seq<char>
    decreases list.len(),
{
    if list.len() == 0 {
        Seq::empty()
    } else if list.len() == 1 {
        list[0]
    } else {
        join(list.drop_last(), separator) + separator + list.last()
    }
}

/// Joins the texts of a list.
pub fn join_texts(list: &Vec<String>, separator: &str) -> (r: String)
    ensures
        r@ == join(texts(list@), separator@),
{
    let mut joined: String = String::new();
    let mut i: usize = 0;
    while i < list.len()
        invariant
            i <= list.len(),
            joined@ == join(texts(list@).take(i as int), separator@),
        decreases list.len() - i,
    {
        proof {
            let shorter = texts(list@).take(i as int);
            let longer = texts(list@).take(i + 1);
            assert(longer.drop_last() =~= shorter);
            assert(longer.last() == list@[i as int]@);
            assert(i == 0 ==> longer[0] == list@[0]@);
        }
        if i > 0 {
            joined.append(separator);
        }
        joined.append(list[i].as_str());
        proof {
            if i == 0 {
                assert(joined@ =~= list@[0]@);
            }
        }
        i = i + 1;
    }
    assert(texts(list@).take(list.len() as int) =~= texts(list@));
    joined
}

/// Two texts, one after the other.
pub fn concat2(a: &str, b: &str) -> (r: String)
    ensures
        r@ == a@ + b@,
{
    let mut joined: String = a.to_owned();
    joined.append(b);
    joined
}

/// Three texts, one after the other.
pub fn concat3(a: &str, b: &str, c: &str) -> (r: String)
    ensures
        r@ == a@ + b@ + c@,
{
    let mut joined: String = a.to_owned();
    joined.append(b);
    joined.append(c);
    joined
}

/// The character of one hexadecimal digit, in lower case.
pub open spec fn digit(value: nat) -> char {
    if value == 0 { '0' }
    else if value == 1 { '1' }
    else if value == 2 { '2' }
    else if value == 3 { '3' }
    else if value == 4 { '4' }
    else if value == 5 { '5' }
    else if value == 6 { '6' }
    else if value == 7 { '7' }
    else if value == 8 { '8' }
    else if value == 9 { '9' }
    else if value == 10 { 'a' }
    else if value == 11 { 'b' }
    else if value == 12 { 'c' }
    else if value == 13 { 'd' }
    else if value == 14 { 'e' }
    else { 'f' }
}

/// The spelling of one hexadecimal digit.
fn digit_text(value: u64) -> (r: &'static str)
    requires
        value < 16,
    ensures
        r@ == seq![digit(value as nat)],
{
    proof {
        reveal_strlit("0");
        reveal_strlit("1");
        reveal_strlit("2");
        reveal_strlit("3");
        reveal_strlit("4");
        reveal_strlit("5");
        reveal_strlit("6");
        reveal_strlit("7");
        reveal_strlit("8");
        reveal_strlit("9");
        reveal_strlit("a");
        reveal_strlit("b");
        reveal_strlit("c");
        reveal_strlit("d");
        reveal_strlit("e");
        reveal_strlit("f");
    }
    let text: &'static str = match value {
        0 => "0",
        1 => "1",
        2 => "2",
        3 => "3",
        4 => "4",
        5 => "5",
        6 => "6",
        7 => "7",
        8 => "8",
        9 => "9",
        10 => "a",
        11 => "b",
        12 => "c",
        13 => "d",
        14 => "e",
        _ => "f",
    };
    assert(text@ =~= seq![digit(value as nat)]);
    text
}

/// A natural number in decimal, with no leading zero.
pub open spec fn decimal(value: nat) -> Seq<char>
    decreases value,
{
    if value < 10 {
        seq![digit(value)]
    } else {
        decimal(value / 10).push(digit(value % 10))
    }
}

/// Spells a number in decimal.
pub fn decimal_text(value: u64) -> (r: String)
    ensures
        r@ == decimal(value as nat),
    decreases value,
{
    if value < 10 {
        digit_text(value).to_owned()
    } else {
        let mut spelled: String = decimal_text(value / 10);
        spelled.append(digit_text(value % 10));
        assert(spelled@ =~= decimal(value as nat));
        spelled
    }
}

/// The last `width` hexadecimal digits of a number.
pub open spec fn hex(value: nat, width: nat) -> Seq<char>
    decreases width,
{
    if width == 0 {
        Seq::empty()
    } else {
        hex(value / 16, (width - 1) as nat).push(digit(value % 16))
    }
}

/// Spells the last `width` hexadecimal digits of a number.
pub fn hex_text(value: u64, width: usize) -> (r: String)
    ensures
        r@ == hex(value as nat, width as nat),
        r@.len() == width,
    decreases width,
{
    if width == 0 {
        String::new()
    } else {
        let mut spelled: String = hex_text(value / 16, width - 1);
        spelled.append(digit_text(value % 16));
        assert(spelled@ =~= hex(value as nat, width as nat));
        spelled
    }
}

/// A text without the characters `c` at its end.
pub open spec fn trim_end(text: Seq<char>, c: char) -> Seq<char>
    decreases text.len(),
{
    if text.len() > 0 && text.last() == c {
        trim_end(text.drop_last(), c)
    } else {
        text
    }
}

/// A text without the characters `c` at its start.
pub open spec fn trim_start(text: Seq<char>, c: char) -> Seq<char>
    decreases text.len(),
{
    if text.len() > 0 && text[0] == c {
        trim_start(text.drop_first(), c)
    } else {
        text
    }
}

/// Drops the characters `c` at the end of a text.
pub fn without_trailing(text: &str, c: char) -> (r: &str)
    ensures
        r@ == trim_end(text@, c),
{
    let mut end: usize = text.unicode_len();
    assert(text@.take(end as int) =~= text@);
    while end > 0 && text.get_char(end - 1) == c
        invariant
            end <= text@.len(),
            trim_end(text@.take(end as int), c) == trim_end(text@, c),
        decreases end,
    {
        assert(text@.take(end as int).drop_last() =~= text@.take(end - 1));
        end = end - 1;
    }
    let kept: &str = text.substring_char(0, end);
    assert(kept@ =~= text@.take(end as int));
    kept
}

/// Drops the characters `c` at the start of a text.
pub fn without_leading(text: &str, c: char) -> (r: &str)
    ensures
        r@ == trim_start(text@, c),
{
    let len: usize = text.unicode_len();
    let mut start: usize = 0;
    assert(text@.skip(0) =~= text@);
    while start < len && text.get_char(start) == c
        invariant
            start <= len == text@.len(),
            trim_start(text@.skip(start as int), c) == trim_start(text@, c),
        decreases len - start,
    {
        assert(text@.skip(start as int).drop_first() =~= text@.skip(start + 1));
        start = start + 1;
    }
    let kept: &str = text.substring_char(start, len);
    assert(kept@ =~= text@.skip(start as int));
    kept
}

/// Whether a character is Unicode white space.
pub open spec fn is_white(c: char) -> bool {
    ||| '\u{9}' <= c <= '\u{d}'
    ||| c == '\u{20}'
    ||| c == '\u{85}'
    ||| c == '\u{a0}'
    ||| c == '\u{1680}'
    ||| '\u{2000}' <= c <= '\u{200a}'
    ||| c == '\u{2028}'
    ||| c == '\u{2029}'
    ||| c == '\u{202f}'
    ||| c == '\u{205f}'
    ||| c == '\u{3000}'
}

/// Tells whether a character is Unicode white space.
pub fn white(c: char) -> (r: bool)
    ensures
        r == is_white(c),
{
    ('\u{9}' <= c && c <= '\u{d}') || c == '\u{20}' || c == '\u{85}' || c == '\u{a0}' || c
        == '\u{1680}' || ('\u{2000}' <= c && c <= '\u{200a}') || c == '\u{2028}' || c == '\u{2029}'
        || c == '\u{202f}' || c == '\u{205f}' || c == '\u{3000}'
}

/// A text without the white space at its end.
pub open spec fn trim_end_white(text: Seq<char>) -> Seq<char>
    decreases text.len(),
{
    if text.len() > 0 && is_white(text.last()) {
        trim_end_white(text.drop_last())
    } else {
        text
    }
}

/// A text without the white space at its start.
pub open spec fn trim_start_white(text: Seq<char>) -> Seq<char>
    decreases text.len(),
{
    if text.len() > 0 && is_white(text[0]) {
        trim_start_white(text.drop_first())
    } else {
        text
    }
}

/// A text without the white space at its start and at its end.
pub open spec fn trim(text: Seq<char>) -> Seq<char> {
    trim_start_white(trim_end_white(text))
}

/// Drops the white space at the start and at the end of a text.
pub fn trimmed(text: &str) -> (r: &str)
    ensures
        r@ == trim(text@),
{
    let mut end: usize = text.unicode_len();
    assert(text@.take(end as int) =~= text@);
    while end > 0 && white(text.get_char(end - 1))
        invariant
            end <= text@.len(),
            trim_end_white(text@.take(end as int)) == trim_end_white(text@),
        decreases end,
    {
        assert(text@.take(end as int).drop_last() =~= text@.take(end - 1));
        end = end - 1;
    }
    let ghost kept = text@.take(end as int);
    assert(kept == trim_end_white(text@));
    let mut start: usize = 0;
    assert(kept.skip(0) =~= kept);
    while start < end && white(text.get_char(start))
        invariant
            start <= end <= text@.len(),
            kept == text@.take(end as int),
            trim_start_white(kept.skip(start as int)) == trim_start_white(kept),
        decreases end - start,
    {
        assert(kept.skip(start as int)[0] == text@[start as int]);
        assert(kept.skip(start as int).drop_first() =~= kept.skip(start + 1));
        start = start + 1;
    }
    assert(start < end ==> kept.skip(start as int)[0] == text@[start as int]);
    let r: &str = text.substring_char(start, end);
    assert(r@ =~= kept.skip(start as int));
    r
}

/// What stands before the first `c` of a text, or the whole text without one.
pub open spec fn before_first(text: Seq<char>, c: char) -> Seq<char> {
    match text.index_of_first(c) {
        Some(at) => text.take(at),
        None => text,
    }
}

/// What stands after the last `c` of a text, or the whole text without one.
pub open spec fn after_last(text: Seq<char>, c: char) -> Seq<char> {
    match text.index_of_last(c) {
        Some(at) => text.skip(at + 1),
        None => text,
    }
}

/// Finds what stands before the first `c` of a text.
pub fn head(text: &str, c: char) -> (r: &str)
    ensures
        r@ == before_first(text@, c),
{
    let len: usize = text.unicode_len();
    let mut i: usize = 0;
    while i < len && text.get_char(i) != c
        invariant
            i <= len == text@.len(),
            forall|k: int| 0 <= k < i ==> text@[k] != c,
        decreases len - i,
    {
        i = i + 1;
    }
    proof {
        text@.index_of_first_ensures(c);
        if i < len {
            assert(text@.contains(c));
            assert(text@.index_of_first(c)->0 == i);
        }
    }
    let r: &str = text.substring_char(0, i);
    assert(r@ =~= before_first(text@, c));
    r
}

/// Finds what stands after the last `c` of a text.
pub fn tail(text: &str, c: char) -> (r: &str)
    ensures
        r@ == after_last(text@, c),
{
    let len: usize = text.unicode_len();
    let mut i: usize = len;
    while i > 0 && text.get_char(i - 1) != c
        invariant
            i <= len == text@.len(),
            forall|k: int| i <= k < len ==> text@[k] != c,
        decreases i,
    {
        i = i - 1;
    }
    proof {
        text@.index_of_last_ensures(c);
        if i > 0 {
            assert(text@[i - 1] == c);
            assert(text@.contains(c));
            assert(text@.index_of_last(c)->0 == i - 1);
        }
    }
    let r: &str = text.substring_char(i, len);
    assert(r@ =~= after_last(text@, c));
    r
}

/// Tells whether a text holds a `c`.
pub fn holds(text: &str, c: char) -> (r: bool)
    ensures
        r == text@.contains(c),
{
    let len: usize = text.unicode_len();
    let mut i: usize = 0;
    while i < len
        invariant
            i <= len == text@.len(),
            forall|k: int| 0 <= k < i ==> text@[k] != c,
        decreases len - i,
    {
        if text.get_char(i) == c {
            return true;
        }
        i = i + 1;
    }
    false
}

/// Where `pattern` first stands in a text at or after `from`.
pub open spec fn find(text: Seq<char>, pattern: Seq<char>, from: int) -> Option<int>
    decreases text.len() + 1 - from,
{
    if from < 0 || from + pattern.len() > text.len() {
        None
    } else if text.subrange(from, from + pattern.len()) == pattern {
        Some(from)
    } else {
        find(text, pattern, from + 1)
    }
}

/// What stands after the first `pattern` of a text, or the whole text without
/// one.
pub open spec fn after_first(text: Seq<char>, pattern: Seq<char>) -> Seq<char> {
    match find(text, pattern, 0) {
        Some(at) => text.skip(at + pattern.len()),
        None => text,
    }
}

/// Finds what stands after the first `pattern` of a text.
pub fn rest_after<'a>(text: &'a str, pattern: &str) -> (r: &'a str)
    ensures
        r@ == after_first(text@, pattern@),
{
    let len: usize = text.unicode_len();
    let width: usize = pattern.unicode_len();
    if width > len {
        return text;
    }
    let last: usize = len - width;
    let mut i: usize = 0;
    loop
        invariant
            i <= last,
            last == len - width,
            len == text@.len(),
            width == pattern@.len(),
            find(text@, pattern@, i as int) == find(text@, pattern@, 0),
        decreases last - i,
    {
        if same(text.substring_char(i, i + width), pattern) {
            let r: &str = text.substring_char(i + width, len);
            assert(r@ =~= text@.skip(i + width));
            return r;
        }
        if i == last {
            assert(find(text@, pattern@, i + 1) is None);
            return text;
        }
        i = i + 1;
    }
}

/// Tells whether a text starts with another.
pub fn starts_with(text: &str, prefix: &str) -> (r: bool)
    ensures
        r == prefix@.is_prefix_of(text@),
{
    let width: usize = prefix.unicode_len();
    if width > text.unicode_len() {
        return false;
    }
    let head: &str = text.substring_char(0, width);
    let r: bool = same(head, prefix);
    proof {
        if prefix@.is_prefix_of(text@) {
            assert(head@ =~= prefix@);
        }
    }
    r
}

/// What follows a prefix of a text.
pub fn after_prefix<'a>(text: &'a str, prefix: &str) -> (r: &'a str)
    requires
        prefix@.is_prefix_of(text@),
    ensures
        r@ == text@.skip(prefix@.len() as int),
        text@ == prefix@ + r@,
{
    let r: &str = text.substring_char(prefix.unicode_len(), text.unicode_len());
    assert(r@ =~= text@.skip(prefix@.len() as int));
    assert(text@ =~= prefix@ + r@);
    r
}

} // verus!
