//! Laws of spelled numbers, trimmed texts and joined URLs.

use vstd::prelude::*;

use crate::options::is_version;
use crate::options::joined_url;
use crate::options::shared_version;
use crate::response::index_block;
use crate::text::after_first;
use crate::text::after_last;
use crate::text::before_first;
use crate::text::decimal;
use crate::text::find;
use crate::text::hex;
use crate::text::is_white;
use crate::text::trim;
use crate::text::trim_end;
use crate::text::trim_end_white;
use crate::text::trim_start;
use crate::text::trim_start_white;

verus! {

broadcast use vstd::seq::group_seq_axioms;

/// The value of a digit, by its place among the characters.
pub open spec fn digit_value(c: char) -> int {
    if '0' <= c <= '9' {
        c as int - '0' as int
    } else {
        c as int - 'a' as int + 10
    }
}

/// The number a text spells in a base.
pub open spec fn number_of(text: Seq<char>, base: int) -> int
    decreases text.len(),
{
    if text.len() == 0 {
        0
    } else {
        number_of(text.drop_last(), base) * base + digit_value(text.last())
    }
}

/// A number spelled in decimal is that number, in decimal digits, with no
/// leading zero.
pub proof fn law_decimals_spell_their_number(value: nat)
    ensures
        number_of(decimal(value), 10) == value,
        forall|i: int| 0 <= i < decimal(value).len() ==> '0' <= #[trigger] decimal(value)[i] <= '9',
        decimal(value).len() > 0,
        value > 0 ==> decimal(value)[0] != '0',
    decreases value,
{
    reveal_with_fuel(number_of, 2);
    if value < 10 {
        assert(decimal(value).drop_last() =~= Seq::<char>::empty());
    } else {
        law_decimals_spell_their_number(value / 10);
        assert(decimal(value).drop_last() =~= decimal(value / 10));
        assert forall|i: int| 0 <= i < decimal(value).len() implies '0' <= #[trigger] decimal(
            value,
        )[i] <= '9' by {
            if i < decimal(value / 10).len() {
                assert(decimal(value)[i] == decimal(value / 10)[i]);
            }
        }
        assert(decimal(value)[0] == decimal(value / 10)[0]);
    }
}

/// Sixteen to some power.
pub open spec fn sixteens(width: nat) -> nat
    decreases width,
{
    if width == 0 {
        1
    } else {
        16 * sixteens((width - 1) as nat)
    }
}

/// A number spelled in hexadecimal digits is that number, where they suffice,
/// in as many lower-case digits as were asked for.
pub proof fn law_hex_digits_spell_their_number(value: nat, width: nat)
    requires
        value < sixteens(width),
    ensures
        number_of(hex(value, width), 16) == value,
        hex(value, width).len() == width,
        forall|i: int|
            0 <= i < width ==> ('0' <= #[trigger] hex(value, width)[i] <= '9' || 'a' <= hex(
                value,
                width,
            )[i] <= 'f'),
    decreases width,
{
    if width > 0 {
        let fewer = (width - 1) as nat;
        law_hex_digits_spell_their_number(value / 16, fewer);
        assert(hex(value, width).drop_last() =~= hex(value / 16, fewer));
        assert forall|i: int| 0 <= i < width implies ('0' <= #[trigger] hex(value, width)[i]
            <= '9' || 'a' <= hex(value, width)[i] <= 'f') by {
            if i < fewer {
                assert(hex(value, width)[i] == hex(value / 16, fewer)[i]);
            }
        }
    }
}

/// Whether a text is white space alone.
pub open spec fn blank(text: Seq<char>) -> bool {
    forall|i: int| 0 <= i < text.len() ==> is_white(#[trigger] text[i])
}

proof fn lemma_trim_end(text: Seq<char>) -> (rest: Seq<char>)
    ensures
        blank(rest),
        text == trim_end_white(text) + rest,
        trim_end_white(text).len() > 0 ==> !is_white(trim_end_white(text).last()),
    decreases text.len(),
{
    if text.len() > 0 && is_white(text.last()) {
        let rest = lemma_trim_end(text.drop_last());
        let more = rest.push(text.last());
        assert(trim_end_white(text) + more =~= text) by {
            assert(trim_end_white(text.drop_last()) + rest == text.drop_last());
            assert((trim_end_white(text) + rest).push(text.last()) =~= trim_end_white(text) + more);
            assert(text.drop_last().push(text.last()) =~= text);
        }
        assert forall|i: int| 0 <= i < more.len() implies is_white(#[trigger] more[i]) by {
            if i < rest.len() {
                assert(is_white(rest[i]));
            }
        }
        more
    } else {
        assert(text + Seq::<char>::empty() =~= text);
        Seq::empty()
    }
}

proof fn lemma_trim_start(text: Seq<char>) -> (rest: Seq<char>)
    ensures
        blank(rest),
        text == rest + trim_start_white(text),
        trim_start_white(text).len() > 0 ==> !is_white(trim_start_white(text)[0]),
        trim_start_white(text).len() > 0 ==> trim_start_white(text).last() == text.last(),
    decreases text.len(),
{
    if text.len() > 0 && is_white(text[0]) {
        let rest = lemma_trim_start(text.drop_first());
        let more = seq![text[0]] + rest;
        assert(more + trim_start_white(text) =~= text) by {
            assert(rest + trim_start_white(text.drop_first()) == text.drop_first());
            assert(seq![text[0]] + (rest + trim_start_white(text)) =~= more + trim_start_white(
                text,
            ));
            assert(seq![text[0]] + text.drop_first() =~= text);
        }
        assert forall|i: int| 0 <= i < more.len() implies is_white(#[trigger] more[i]) by {
            if i > 0 {
                assert(is_white(rest[i - 1]));
            }
        }
        more
    } else {
        assert(Seq::<char>::empty() + text =~= text);
        Seq::empty()
    }
}

/// Trimming takes white space off the ends of a text and nothing else, until
/// none is left there.
pub proof fn law_trimming_takes_white_space(text: Seq<char>)
    ensures
        exists|before: Seq<char>, after: Seq<char>|
            #![trigger blank(before), blank(after)]
            blank(before) && blank(after) && text == before + trim(text) + after,
        trim(text).len() > 0 ==> !is_white(trim(text)[0]) && !is_white(trim(text).last()),
{
    let after = lemma_trim_end(text);
    let before = lemma_trim_start(trim_end_white(text));
    assert(blank(before) && blank(after));
    assert(text == before + trim(text) + after);
}

proof fn lemma_scheme(scheme: Seq<char>, rest: Seq<char>, from: int)
    requires
        !scheme.contains(':'),
        0 <= from <= scheme.len(),
    ensures
        find(scheme + "://"@ + rest, "://"@, from) == Some(scheme.len() as int),
    decreases scheme.len() - from,
{
    reveal_strlit("://");
    let text = scheme + "://"@ + rest;
    assert("://"@.len() == 3);
    if from == scheme.len() {
        assert(text.subrange(from, from + 3) =~= "://"@);
    } else {
        assert(text[from] == scheme[from]);
        assert(scheme.contains(scheme[from]));
        assert(text.subrange(from, from + 3)[0] == scheme[from]);
        assert("://"@[0] == ':');
        lemma_scheme(scheme, rest, from + 1);
    }
}

proof fn lemma_last_segment(front: Seq<char>, segment: Seq<char>)
    requires
        !segment.contains('/'),
    ensures
        after_last(front + "/"@ + segment, '/') == segment,
        (front + "/"@ + segment).contains('/'),
{
    reveal_strlit("/");
    let text = front + "/"@ + segment;
    let at = front.len() as int;
    assert(text[at] == '/');
    assert(text.contains('/'));
    text.index_of_last_ensures('/');
    let found = text.index_of_last('/')->0;
    if found > at {
        assert(segment[found - at - 1] == text[found]);
        assert(segment.contains('/'));
    }
    assert(found == at);
    assert(text.skip(at + 1) =~= segment);
}

proof fn lemma_first_segment(segment: Seq<char>, rest: Seq<char>)
    requires
        !segment.contains('/'),
    ensures
        before_first(segment + "/"@ + rest, '/') == segment,
{
    reveal_strlit("/");
    let text = segment + "/"@ + rest;
    let at = segment.len() as int;
    assert(text[at] == '/');
    assert(text.contains('/'));
    text.index_of_first_ensures('/');
    let found = text.index_of_first('/')->0;
    if found < at {
        assert(segment[found] == text[found]);
        assert(segment.contains('/'));
    }
    assert(found == at);
    assert(text.take(at) =~= segment);
}

/// A base URL whose path ends with a segment is joined to a path by one slash.
/// Only a version that the path repeats is kept once.
pub proof fn law_urls_join(
    scheme: Seq<char>,
    host: Seq<char>,
    segment: Seq<char>,
    first: Seq<char>,
    rest: Seq<char>,
)
    requires
        !scheme.contains(':'),
        !segment.contains('/'),
        segment.len() > 0,
        !first.contains('/'),
        first.len() > 0,
        rest.len() > 0,
        rest[0] != '/',
    ensures
        ({
            let base = scheme + "://"@ + host + "/"@ + segment;
            let url = joined_url(base, "/"@ + first + "/"@ + rest);
            if segment == first && (first == "v1"@ || first == "v1beta"@) {
                url == base + "/"@ + rest
            } else {
                url == base + "/"@ + first + "/"@ + rest
            }
        }),
{
    reveal_strlit("/");
    reveal_strlit("://");
    let tail = host + "/"@ + segment;
    let base = scheme + "://"@ + host + "/"@ + segment;
    assert(base =~= scheme + "://"@ + tail);
    lemma_scheme(scheme, tail, 0);
    assert(base.skip((scheme.len() + 3) as int) =~= tail);
    assert(after_first(base, "://"@) == tail);
    lemma_last_segment(host, segment);
    lemma_first_segment(first, rest);
    let path = first + "/"@ + rest;
    let whole = "/"@ + first + "/"@ + rest;
    assert(base.last() == segment.last());
    if segment.last() == '/' {
        assert(segment.contains('/'));
    }
    assert(trim_end(base, '/') == base);
    assert(whole.drop_first() =~= path);
    assert(path[0] == first[0]);
    if first[0] == '/' {
        assert(first.contains('/'));
    }
    assert(trim_start(path, '/') == path);
    assert(trim_start(whole, '/') == path);
    if segment == first && is_version(first) {
        let cut = path.skip(first.len() as int);
        assert(cut =~= "/"@ + rest);
        assert(cut.drop_first() =~= rest);
        assert(trim_start(rest, '/') == rest);
        assert(trim_start(cut, '/') == rest);
    } else {
        assert(shared_version(base, path) is None);
        assert(base + "/"@ + path =~= base + "/"@ + first + "/"@ + rest);
    }
}

/// A bare host is joined to a path by one slash, whatever it is called.
pub proof fn law_a_bare_host_joins(scheme: Seq<char>, host: Seq<char>, path: Seq<char>)
    requires
        !scheme.contains(':'),
        !host.contains('/'),
        host.len() > 0,
        path.len() > 0,
        path[0] != '/',
    ensures
        joined_url(scheme + "://"@ + host, "/"@ + path) == scheme + "://"@ + host + "/"@ + path,
{
    reveal_strlit("/");
    reveal_strlit("://");
    let base = scheme + "://"@ + host;
    lemma_scheme(scheme, host, 0);
    assert(base.skip((scheme.len() + 3) as int) =~= host);
    assert(after_first(base, "://"@) == host);
    assert(base.last() == host.last());
    if host.last() == '/' {
        assert(host.contains('/'));
    }
    assert(trim_end(base, '/') == base);
    assert(("/"@ + path).drop_first() =~= path);
    assert(trim_start(path, '/') == path);
    assert(trim_start("/"@ + path, '/') == path);
}

/// Blocks named after different indices have different names, and each name
/// spells its index.
pub proof fn law_indexed_blocks_differ(a: u64, b: u64)
    ensures
        index_block(a) == index_block(b) ==> a == b,
        "block-"@.is_prefix_of(index_block(a)),
        number_of(index_block(a).skip("block-"@.len() as int), 10) == a,
{
    law_decimals_spell_their_number(a as nat);
    law_decimals_spell_their_number(b as nat);
    assert(index_block(a).skip("block-"@.len() as int) =~= decimal(a as nat));
    assert(index_block(b).skip("block-"@.len() as int) =~= decimal(b as nat));
    assert(index_block(a).subrange(0, "block-"@.len() as int) =~= "block-"@);
}

} // verus!
