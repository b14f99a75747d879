//! Laws of texts: numbers in decimal, parts that are joined, white space and letters.
use vstd::prelude::*;

use crate::text::{
    ascii_lower, ascii_upper, begins_with, contains_text, decimal_text, digit_char, first_at,
    is_ascii_text, joined, lemma_position, lower_cased, occurs_at, option_shown, optional_view,
    position_of, trimmed, trimmed_end, trimmed_start, upper_cased, views, white_space,
};

verus! {

// ── Numbers ─────────────────────────────────────────────────────────────

/// The number that decimal digits write.
pub open spec fn number_of(digits: Seq<char>) -> int
    decreases digits.len(),
{
    if digits.len() == 0 {
        0
    } else {
        10 * number_of(digits.drop_last()) + (digits.last() as int - '0' as int)
    }
}

/// A number in decimal is written with digits alone, without a zero in front, and the digits write
/// that number.
pub proof fn law_decimals_write_their_number(n: nat)
    ensures
        number_of(decimal_text(n)) == n,
        decimal_text(n).len() > 0,
        forall|i: int|
            0 <= i < decimal_text(n).len() ==> '0' <= #[trigger] decimal_text(n)[i]
                && decimal_text(n)[i] <= '9',
        n > 0 ==> decimal_text(n)[0] != '0',
    decreases n,
{
    assert(digit_char(n % 10) as int == 48 + n % 10);
    if n < 10 {
        let text = decimal_text(n);
        assert(text.drop_last() =~= Seq::<char>::empty());
        assert(number_of(Seq::<char>::empty()) == 0);
    } else {
        law_decimals_write_their_number(n / 10);
        let front = decimal_text(n / 10);
        let text = decimal_text(n);
        assert(text.drop_last() =~= front);
        assert forall|i: int| 0 <= i < text.len() implies '0' <= #[trigger] text[i] && text[i]
            <= '9' by {
            if i < front.len() {
                assert(text[i] == front[i]);
            }
        }
    }
}

/// Different numbers are written differently.
pub proof fn law_numbers_are_told_apart(a: nat, b: nat)
    requires
        decimal_text(a) == decimal_text(b),
    ensures
        a == b,
{
    law_decimals_write_their_number(a);
    law_decimals_write_their_number(b);
}

// ── Parts of texts ──────────────────────────────────────────────────────

/// A text begins with a prefix exactly where it is the prefix with something after it.
pub proof fn law_beginnings(text: Seq<char>, prefix: Seq<char>, rest: Seq<char>)
    ensures
        begins_with(prefix + rest, prefix),
        begins_with(text, prefix) ==> prefix.len() <= text.len() && text == prefix + text.skip(
            prefix.len() as int,
        ),
{
    assert((prefix + rest).subrange(0, prefix.len() as int) =~= prefix);
    if begins_with(text, prefix) {
        let front = text.subrange(0, prefix.len() as int);
        assert(text =~= front + text.skip(prefix.len() as int));
    }
}

/// A text holds another exactly where it is that text with something before and after it.
pub proof fn law_parts_are_held(front: Seq<char>, part: Seq<char>, back: Seq<char>, text: Seq<char>)
    ensures
        contains_text(front + part + back, part),
        contains_text(text, part) ==> exists|i: int|
            0 <= i <= text.len() - part.len() && text == #[trigger] text.take(i) + part
                + text.skip(i + part.len()),
{
    let n = front.len() as int;
    assert((front + part + back).subrange(n, n + part.len()) =~= part);
    assert(occurs_at(front + part + back, part, n));
    if contains_text(text, part) {
        let i = choose|i: int| occurs_at(text, part, i);
        assert(text =~= text.take(i) + text.subrange(i, i + part.len()) + text.skip(
            i + part.len(),
        ));
        assert(text == text.take(i) + part + text.skip(i + part.len()));
    }
}

/// A part is found where it stands first: what comes before that does not hold it, not even with
/// all but the last character of it.
pub proof fn law_first_parts_are_found(text: Seq<char>, part: Seq<char>)
    requires
        part.len() > 0,
    ensures
        match position_of(text, part) {
            Some(i) => {
                &&& 0 <= i <= text.len() - part.len()
                &&& text == text.take(i) + part + text.skip(i + part.len())
                &&& !contains_text(text.take(i + part.len() - 1), part)
            },
            None => !contains_text(text, part),
        },
{
    lemma_position(text, part);
    if let Some(i) = position_of(text, part) {
        assert(first_at(text, part, 0, i));
        assert(text =~= text.take(i) + text.subrange(i, i + part.len()) + text.skip(
            i + part.len(),
        ));
        let front = text.take(i + part.len() - 1);
        if contains_text(front, part) {
            let j = choose|j: int| occurs_at(front, part, j);
            assert(front.subrange(j, j + part.len()) =~= text.subrange(j, j + part.len()));
            assert(occurs_at(text, part, j));
        }
    }
}

/// Joined texts can be joined in two goes: the separator stands between any two neighbours and
/// nowhere else, and each part stands as it is.
pub proof fn law_joining(first: Seq<Seq<char>>, second: Seq<Seq<char>>, separator: Seq<char>)
    requires
        first.len() > 0,
        second.len() > 0,
    ensures
        joined(first + second, separator) == joined(first, separator) + separator + joined(
            second,
            separator,
        ),
        first.len() == 1 ==> joined(first, separator) == first[0],
        joined(Seq::empty(), separator).len() == 0,
    decreases second.len(),
{
    let all = first + second;
    assert(all.drop_last() =~= first + second.drop_last());
    assert(all.last() == second.last());
    if second.len() == 1 {
        assert(second.drop_last() =~= Seq::empty());
        assert(all.drop_last() =~= first);
    } else {
        law_joining(first, second.drop_last(), separator);
        assert(joined(all, separator) =~= joined(first, separator) + separator + joined(
            second,
            separator,
        ));
    }
}

/// The texts of strings, one for one and in order.
pub proof fn law_views_keep_their_places(texts: Seq<String>, text: Option<String>)
    ensures
        views(texts).len() == texts.len(),
        forall|i: int| 0 <= i < texts.len() ==> #[trigger] views(texts)[i] == texts[i]@,
        optional_view(text) is Some <==> text is Some,
        text matches Some(some) ==> optional_view(text) == Some(some@),
        optional_view(text) is None ==> option_shown(optional_view(text)) == "None"@,
{
}

// ── White space ─────────────────────────────────────────────────────────

/// Trimming takes the white space off both ends and nothing else.
pub proof fn law_trimming(front: Seq<char>, text: Seq<char>, back: Seq<char>)
    requires
        forall|i: int| 0 <= i < front.len() ==> white_space(#[trigger] front[i]),
        forall|i: int| 0 <= i < back.len() ==> white_space(#[trigger] back[i]),
        text.len() > 0 ==> !white_space(text[0]) && !white_space(text.last()),
    ensures
        trimmed(front + text + back) == text,
{
    lemma_trim_front(front, text + back);
    assert(front + text + back =~= front + (text + back));
    if text.len() > 0 {
        assert((text + back)[0] == text[0]);
        lemma_trim_back(text, back);
    } else {
        assert(text + back =~= back);
        lemma_trim_front(back, Seq::empty());
        assert(back + Seq::<char>::empty() =~= back);
    }
}

proof fn lemma_trim_front(front: Seq<char>, text: Seq<char>)
    requires
        forall|i: int| 0 <= i < front.len() ==> white_space(#[trigger] front[i]),
    ensures
        trimmed_start(front + text) == trimmed_start(text),
    decreases front.len(),
{
    if front.len() == 0 {
        assert(front + text =~= text);
    } else {
        assert((front + text)[0] == front[0]);
        assert((front + text).skip(1) =~= front.skip(1) + text);
        assert forall|i: int| 0 <= i < front.len() - 1 implies white_space(
            #[trigger] front.skip(1)[i],
        ) by {
            assert(white_space(front[i + 1]));
        }
        lemma_trim_front(front.skip(1), text);
    }
}

proof fn lemma_trim_back(text: Seq<char>, back: Seq<char>)
    requires
        forall|i: int| 0 <= i < back.len() ==> white_space(#[trigger] back[i]),
        text.len() > 0,
        !white_space(text.last()),
    ensures
        trimmed_end(text + back) == text,
    decreases back.len(),
{
    if back.len() == 0 {
        assert(text + back =~= text);
    } else {
        assert((text + back).last() == back[back.len() - 1]);
        assert((text + back).drop_last() =~= text + back.drop_last());
        assert forall|i: int| 0 <= i < back.len() - 1 implies white_space(
            #[trigger] back.drop_last()[i],
        ) by {
            assert(white_space(back[i]));
        }
        lemma_trim_back(text, back.drop_last());
    }
}

/// Blanks, tabs and line breaks are white space, and no visible ASCII character is.
pub proof fn law_visible_characters_are_no_white_space(c: char)
    ensures
        c == ' ' || c == '\t' || c == '\n' || c == '\r' ==> white_space(c),
        '!' <= c && c <= '~' ==> !white_space(c),
{
}

// ── Letters ─────────────────────────────────────────────────────────────

/// Lower case changes the capital letters of ASCII alone, each to its small letter in its place,
/// and upper case changes them back.
pub proof fn law_letters_change_case(text: Seq<char>, i: int)
    requires
        0 <= i < text.len(),
    ensures
        ascii_lower(text).len() == text.len(),
        ascii_upper(text).len() == text.len(),
        ascii_lower(text)[i] as int == text[i] as int + if 'A' <= text[i] && text[i] <= 'Z' {
            32int
        } else {
            0
        },
        ascii_upper(text)[i] as int == text[i] as int - if 'a' <= text[i] && text[i] <= 'z' {
            32int
        } else {
            0
        },
{
}

/// The case in which an ASCII text is written makes no difference to it in lower or in upper case,
/// and a text that is in that case already stays as it is.
pub proof fn law_case_does_not_matter(a: Seq<char>, b: Seq<char>)
    requires
        a.len() == b.len(),
        is_ascii_text(a),
        is_ascii_text(b),
        forall|i: int|
            0 <= i < a.len() ==> (#[trigger] a[i] == b[i] || ('a' <= a[i] && a[i] <= 'z' && b[i] as int
                == a[i] as int - 32)),
    ensures
        lower_cased(a) == lower_cased(b),
        upper_cased(a) == upper_cased(b),
        (forall|i: int| 0 <= i < a.len() ==> !('A' <= #[trigger] a[i] && a[i] <= 'Z'))
            ==> lower_cased(b) == a,
        (forall|i: int| 0 <= i < b.len() ==> !('a' <= #[trigger] b[i] && b[i] <= 'z'))
            ==> upper_cased(a) == b,
{
    assert forall|i: int| 0 <= i < a.len() implies ascii_lower(a)[i] == ascii_lower(b)[i]
        && ascii_upper(a)[i] == ascii_upper(b)[i] by {
        law_letters_change_case(a, i);
        law_letters_change_case(b, i);
        assert(a[i] == b[i] || ('a' <= a[i] && a[i] <= 'z' && b[i] as int == a[i] as int - 32));
    }
    assert(ascii_lower(a) =~= ascii_lower(b));
    assert(ascii_upper(a) =~= ascii_upper(b));
    if forall|i: int| 0 <= i < a.len() ==> !('A' <= #[trigger] a[i] && a[i] <= 'Z') {
        assert(ascii_lower(a) =~= a);
    }
    if forall|i: int| 0 <= i < b.len() ==> !('a' <= #[trigger] b[i] && b[i] <= 'z') {
        assert(ascii_upper(b) =~= b);
    }
}

} // verus!
