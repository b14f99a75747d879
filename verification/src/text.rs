//! Text as sequences of characters: the pieces of string handling that the wallet's rules are
//! stated with.
use vstd::prelude::*;

verus! {

// ── What the contracts speak of ─────────────────────────────────────────

/// Whether `needle` stands in `hay` at position `i`.
pub open spec fn occurs_at(hay: Seq<char>, needle: Seq<char>, i: int) -> bool {
    0 <= i <= hay.len() - needle.len() && hay.subrange(i, i + needle.len()) == needle
}

/// Whether `needle` stands anywhere in `hay`.
pub open spec fn contains_text(hay: Seq<char>, needle: Seq<char>) -> bool {
    exists|i: int| occurs_at(hay, needle, i)
}

/// Whether `i` is the first position at or after `from` at which `needle` stands in `hay`.
pub open spec fn first_at(hay: Seq<char>, needle: Seq<char>, from: int, i: int) -> bool {
    &&& from <= i
    &&& occurs_at(hay, needle, i)
    &&& forall|j: int| from <= j < i ==> !occurs_at(hay, needle, j)
}

/// The first position at which `needle` stands in `hay`.
pub open spec fn position_of(hay: Seq<char>, needle: Seq<char>) -> Option<int> {
    if contains_text(hay, needle) {
        Some(choose|i: int| first_at(hay, needle, 0, i))
    } else {
        None
    }
}

/// Whether `text` begins with `prefix`.
pub open spec fn begins_with(text: Seq<char>, prefix: Seq<char>) -> bool {
    occurs_at(text, prefix, 0)
}

/// The character of a decimal digit.
pub open spec fn digit_char(d: nat) -> char {
    (48 + d) as char
}

/// `n` in decimal, without leading zeros.
pub open spec fn decimal_text(n: nat) -> Seq<char>
    decreases n,
{
    if n < 10 {
        seq![digit_char(n)]
    } else {
        decimal_text(n / 10).push(digit_char(n % 10))
    }
}

/// The text that an optional string holds.
pub open spec fn optional_view(text: Option<String>) -> Option<Seq<char>> {
    match text {
        Some(text) => Some(text@),
        None => None,
    }
}

/// The texts that strings hold.
pub open spec fn views(texts: Seq<String>) -> Seq<Seq<char>> {
    texts.map_values(|text: String| text@)
}

/// Whether `c` has the Unicode property White_Space.
pub open spec fn white_space(c: char) -> bool {
    ||| '\u{9}' <= c && c <= '\u{d}'
    ||| c == ' ' || c == '\u{85}' || c == '\u{a0}' || c == '\u{1680}'
    ||| '\u{2000}' <= c && c <= '\u{200a}'
    ||| c == '\u{2028}' || c == '\u{2029}' || c == '\u{202f}' || c == '\u{205f}' || c == '\u{3000}'
}

/// `text` without the white space at its front.
pub open spec fn trimmed_start(text: Seq<char>) -> Seq<char>
    decreases text.len(),
{
    if text.len() > 0 && white_space(text[0]) {
        trimmed_start(text.skip(1))
    } else {
        text
    }
}

/// `text` without the white space at its end.
pub open spec fn trimmed_end(text: Seq<char>) -> Seq<char>
    decreases text.len(),
{
    if text.len() > 0 && white_space(text.last()) {
        trimmed_end(text.drop_last())
    } else {
        text
    }
}

/// `text` without the white space at either end.
pub open spec fn trimmed(text: Seq<char>) -> Seq<char> {
    trimmed_end(trimmed_start(text))
}

/// `c` in lower case where it is an ASCII letter.
pub open spec fn ascii_lower_char(c: char) -> char {
    if 'A' <= c && c <= 'Z' {
        ((c as u32) + 32) as char
    } else {
        c
    }
}

/// `text` with its ASCII letters in lower case.
pub open spec fn ascii_lower(text: Seq<char>) -> Seq<char> {
    text.map_values(|c: char| ascii_lower_char(c))
}

/// The parts one after another, with `separator` between neighbours.
pub open spec fn joined(parts: Seq<Seq<char>>, separator: Seq<char>) -> Seq<char>
    decreases parts.len(),
{
    if parts.len() == 0 {
        Seq::empty()
    } else if parts.len() == 1 {
        parts[0]
    } else {
        joined(parts.drop_last(), separator) + separator + parts.last()
    }
}

/// `c` in upper case where it is an ASCII letter.
pub open spec fn ascii_upper_char(c: char) -> char {
    if 'a' <= c && c <= 'z' {
        ((c as u32) - 32) as char
    } else {
        c
    }
}

/// `text` with its ASCII letters in upper case.
pub open spec fn ascii_upper(text: Seq<char>) -> Seq<char> {
    text.map_values(|c: char| ascii_upper_char(c))
}

/// Whether a text is made of ASCII characters alone.
pub open spec fn is_ascii_text(text: Seq<char>) -> bool {
    forall|i: int| 0 <= i < text.len() ==> #[trigger] text[i] <= '\u{7f}'
}

/// Unicode upper case of a text.
pub uninterp spec fn upper_case(text: Seq<char>) -> Seq<char>;

/// Unicode lower case of a text.
pub uninterp spec fn lower_case(text: Seq<char>) -> Seq<char>;

/// The debug form of an optional text.
pub uninterp spec fn debug_option_text(text: Option<Seq<char>>) -> Seq<char>;

/// A text in upper case. In ASCII only the letters `a` to `z` change.
pub open spec fn upper_cased(text: Seq<char>) -> Seq<char> {
    if is_ascii_text(text) {
        ascii_upper(text)
    } else {
        upper_case(text)
    }
}

/// A text in lower case. In ASCII only the letters `A` to `Z` change.
pub open spec fn lower_cased(text: Seq<char>) -> Seq<char> {
    if is_ascii_text(text) {
        ascii_lower(text)
    } else {
        lower_case(text)
    }
}

/// An optional text as the log shows it.
pub open spec fn option_shown(text: Option<Seq<char>>) -> Seq<char> {
    if text is None {
        "None"@
    } else {
        debug_option_text(text)
    }
}

// ── Calls into the standard library ─────────────────────────────────────

/// `char::is_whitespace`: whether the character has the Unicode property White_Space, whose
/// characters are written out above.
#[verifier::external_body]
fn is_white_space(c: char) -> (r: bool)
    ensures
        r == white_space(c),
{
    c.is_whitespace()
}

/// `String::from_iter` over characters: the string of exactly these characters.
#[verifier::external_body]
fn string_from_chars(chars: &Vec<char>) -> (text: String)
    ensures
        text@ == chars@,
{
    String::from_iter(chars.iter())
}

/// `str::to_uppercase`: the Unicode upper case, a function of the text alone. Of an ASCII text it
/// changes only the letters `a` to `z`, each to its capital.
#[verifier::external_body]
pub(crate) fn to_upper_case(text: &str) -> (upper: String)
    ensures
        is_ascii_text(text@) ==> upper@ == ascii_upper(text@),
        !is_ascii_text(text@) ==> upper@ == upper_case(text@),
{
    text.to_uppercase()
}

/// `str::to_lowercase`: the Unicode lower case, a function of the text alone. Of an ASCII text it
/// changes only the letters `A` to `Z`, each to its small letter.
#[verifier::external_body]
pub(crate) fn to_lower_case(text: &str) -> (lower: String)
    ensures
        is_ascii_text(text@) ==> lower@ == ascii_lower(text@),
        !is_ascii_text(text@) ==> lower@ == lower_case(text@),
{
    text.to_lowercase()
}

/// The standard library's `Debug` of an `Option<String>`, a function of the value alone: the word
/// `None` where there is no text.
#[verifier::external_body]
pub(crate) fn debug_option(text: &Option<String>) -> (debug: String)
    ensures
        text is None ==> debug@ == "None"@,
        text is Some ==> debug@ == debug_option_text(optional_view(*text)),
{
    format!("{text:?}")
}

// ── Verified helpers ────────────────────────────────────────────────────

/// The characters of a text.
pub fn to_chars(text: &str) -> (chars: Vec<char>)
    ensures
        chars@ == text@,
{
    let mut chars: Vec<char> = Vec::new();
    for c in it: text.chars()
        invariant
            chars@ == text@.take(it.index()),
            it.seq() == text@,
    {
        chars.push(c);
    }
    chars
}

/// The text of these characters.
pub fn from_chars(chars: &Vec<char>) -> (text: String)
    ensures
        text@ == chars@,
{
    string_from_chars(chars)
}

/// The characters from position `from` up to, not including, `to`.
pub fn text_between(chars: &Vec<char>, from: usize, to: usize) -> (text: String)
    requires
        from <= to <= chars@.len(),
    ensures
        text@ == chars@.subrange(from as int, to as int),
{
    let mut part: Vec<char> = Vec::new();
    let mut i: usize = from;
    while i < to
        invariant
            from <= i <= to <= chars@.len(),
            part@ == chars@.subrange(from as int, i as int),
        decreases to - i,
    {
        part.push(chars[i]);
        i += 1;
    }
    from_chars(&part)
}

/// Whether `needle` stands in `hay` at position `at`.
pub fn is_at(hay: &Vec<char>, needle: &Vec<char>, at: usize) -> (r: bool)
    ensures
        r == occurs_at(hay@, needle@, at as int),
{
    if needle.len() > hay.len() || at > hay.len() - needle.len() {
        return false;
    }
    let end: usize = hay.len();
    let mut k: usize = 0;
    while k < needle.len()
        invariant
            k <= needle@.len(),
            end == hay@.len(),
            at + needle@.len() <= end,
            forall|j: int| 0 <= j < k ==> hay@[at + j] == needle@[j],
        decreases needle@.len() - k,
    {
        if hay[at + k] != needle[k] {
            assert(hay@.subrange(at as int, at + needle@.len())[k as int] == hay@[at + k]);
            return false;
        }
        k += 1;
    }
    assert(hay@.subrange(at as int, at + needle@.len()) =~= needle@);
    true
}

/// Whether two texts are the same.
pub fn same_text(a: &str, b: &str) -> (r: bool)
    ensures
        r == (a@ == b@),
{
    let (a, b) = (to_chars(a), to_chars(b));
    let same = a.len() == b.len() && is_at(&a, &b, 0);
    assert(a@.len() == b@.len() ==> a@.subrange(0, a@.len() as int) =~= a@);
    same
}

/// The first position at or after `from` at which `needle` stands in `hay`.
pub fn find_from(hay: &Vec<char>, needle: &Vec<char>, from: usize) -> (r: Option<usize>)
    requires
        from <= hay@.len(),
    ensures
        r matches Some(i) ==> first_at(hay@, needle@, from as int, i as int),
        r is None ==> forall|j: int| from <= j ==> !occurs_at(hay@, needle@, j),
{
    let mut i: usize = from;
    while i < hay.len()
        invariant
            from <= i <= hay@.len(),
            forall|j: int| from <= j < i ==> !occurs_at(hay@, needle@, j),
        decreases hay@.len() - i,
    {
        if is_at(hay, needle, i) {
            return Some(i);
        }
        i += 1;
    }
    if is_at(hay, needle, i) {
        Some(i)
    } else {
        None
    }
}

proof fn lemma_some_is_first(hay: Seq<char>, needle: Seq<char>, i: int) -> (first: int)
    requires
        occurs_at(hay, needle, i),
    ensures
        first_at(hay, needle, 0, first),
    decreases i,
{
    if exists|j: int| 0 <= j < i && occurs_at(hay, needle, j) {
        let j = choose|j: int| 0 <= j < i && occurs_at(hay, needle, j);
        lemma_some_is_first(hay, needle, j)
    } else {
        i
    }
}

/// Where a text is found is where it stands first.
pub proof fn lemma_position(hay: Seq<char>, needle: Seq<char>)
    ensures
        position_of(hay, needle) matches Some(i) ==> first_at(hay, needle, 0, i),
        forall|i: int| first_at(hay, needle, 0, i) ==> position_of(hay, needle) == Some(i),
{
    if contains_text(hay, needle) {
        let i = choose|i: int| occurs_at(hay, needle, i);
        let first = lemma_some_is_first(hay, needle, i);
        assert(first_at(hay, needle, 0, first));
    }
}

/// The first position at or after `from` is the first one of what follows there.
pub proof fn lemma_position_from(hay: Seq<char>, needle: Seq<char>, from: int, found: Option<usize>)
    requires
        0 <= from <= hay.len(),
        found matches Some(i) ==> first_at(hay, needle, from, i as int),
        found is None ==> forall|j: int| from <= j ==> !occurs_at(hay, needle, j),
    ensures
        position_of(hay.skip(from), needle) == match found {
            Some(i) => Some(i - from),
            None => None,
        },
{
    let rest = hay.skip(from);
    assert forall|j: int| 0 <= j implies occurs_at(rest, needle, j) == occurs_at(
        hay,
        needle,
        from + j,
    ) by {
        if j <= rest.len() - needle.len() {
            assert(rest.subrange(j, j + needle.len()) =~= hay.subrange(
                from + j,
                from + j + needle.len(),
            ));
        }
    }
    lemma_position(rest, needle);
    match found {
        Some(i) => {
            assert(first_at(rest, needle, 0, i - from));
        },
        None => {
            if contains_text(rest, needle) {
                let j = choose|j: int| occurs_at(rest, needle, j);
                assert(occurs_at(hay, needle, from + j));
            }
        },
    }
}

/// Whether `needle` stands anywhere in `hay`.
pub fn contains(hay: &str, needle: &str) -> (r: bool)
    ensures
        r == contains_text(hay@, needle@),
{
    let found = find_from(&to_chars(hay), &to_chars(needle), 0);
    assert(found is None ==> !contains_text(hay@, needle@));
    found.is_some()
}

/// Whether `text` begins with `prefix`.
pub fn starts_with(text: &str, prefix: &str) -> (r: bool)
    ensures
        r == begins_with(text@, prefix@),
{
    is_at(&to_chars(text), &to_chars(prefix), 0)
}

/// The parts one after another, with `separator` between neighbours.
pub fn join(parts: &Vec<String>, separator: &str) -> (text: String)
    ensures
        text@ == joined(views(parts@), separator@),
{
    let mut text = String::new();
    let mut i: usize = 0;
    while i < parts.len()
        invariant
            i <= parts@.len(),
            text@ == joined(views(parts@.take(i as int)), separator@),
        decreases parts@.len() - i,
    {
        if i > 0 {
            text.append(separator);
        }
        text.append(parts[i].as_str());
        assert(views(parts@.take(i + 1)).drop_last() =~= views(parts@.take(i as int)));
        assert(i == 0 ==> text@ =~= parts@[0]@);
        i += 1;
    }
    assert(parts@.take(i as int) =~= parts@);
    text
}

/// `n` in decimal.
pub fn decimal(n: u64) -> (text: String)
    ensures
        text@ == decimal_text(n as nat),
{
    from_chars(&decimal_chars(n))
}

fn decimal_chars(n: u64) -> (chars: Vec<char>)
    ensures
        chars@ == decimal_text(n as nat),
    decreases n,
{
    let digit: char = (48 + (n % 10) as u8) as char;
    if n < 10 {
        let mut chars: Vec<char> = Vec::new();
        chars.push(digit);
        assert(chars@ =~= decimal_text(n as nat));
        chars
    } else {
        let mut chars = decimal_chars(n / 10);
        chars.push(digit);
        chars
    }
}

/// `text` without the white space at either end.
pub fn trim(text: &str) -> (r: String)
    ensures
        r@ == trimmed(text@),
{
    let chars = to_chars(text);
    let mut start: usize = 0;
    assert(text@.skip(0) =~= text@);
    while start < chars.len() && is_white_space(chars[start])
        invariant
            chars@ == text@,
            start <= chars@.len(),
            trimmed_start(text@) == trimmed_start(text@.skip(start as int)),
        decreases chars@.len() - start,
    {
        assert(text@.skip(start as int).skip(1) =~= text@.skip(start + 1));
        start += 1;
    }
    let ghost front = text@.skip(start as int);
    assert(trimmed_start(text@) == front);
    let mut end: usize = chars.len();
    assert(text@.subrange(start as int, end as int) =~= front);
    while end > start && is_white_space(chars[end - 1])
        invariant
            chars@ == text@,
            start <= end <= chars@.len(),
            trimmed_end(front) == trimmed_end(text@.subrange(start as int, end as int)),
        decreases end,
    {
        assert(text@.subrange(start as int, end as int).drop_last() =~= text@.subrange(
            start as int,
            end - 1,
        ));
        end -= 1;
    }
    text_between(&chars, start, end)
}

/// `text` with its ASCII letters in lower case.
pub fn to_ascii_lower(text: &str) -> (r: String)
    ensures
        r@ == ascii_lower(text@),
{
    let chars = to_chars(text);
    let mut lower: Vec<char> = Vec::new();
    let mut i: usize = 0;
    while i < chars.len()
        invariant
            chars@ == text@,
            i <= chars@.len(),
            lower@ == ascii_lower(text@.take(i as int)),
        decreases chars@.len() - i,
    {
        let c = chars[i];
        if 'A' <= c && c <= 'Z' {
            lower.push(((c as u8) + 32) as char);
        } else {
            lower.push(c);
        }
        assert(lower@ =~= ascii_lower(text@.take(i + 1)));
        i += 1;
    }
    assert(text@.take(i as int) =~= text@);
    from_chars(&lower)
}

} // verus!
