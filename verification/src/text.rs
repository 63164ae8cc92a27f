//! Text as the rest of the crate reads and writes it: trimming, splitting,
//! searching and comparing sequences of characters.

use vstd::prelude::*;

verus! {

// ---------------------------------------------------------------------------
// Characters and strings
// ---------------------------------------------------------------------------

/// `String::push` appends one character at the end of the string.
pub assume_specification[ String::push ](text: &mut String, c: char)
    ensures
        final(text)@ == old(text)@.push(c),
;

/// What `str::to_lowercase` makes of a text.
pub uninterp spec fn unicode_lowercase(text: Seq<char>) -> Seq<char>;

/// `str::to_lowercase`: the Unicode lowercase mapping of `text`. On ASCII text
/// it maps `A` to `Z` onto `a` to `z` and keeps every other character. Which
/// characters the full mapping produces for other text is left to its name.
#[verifier::external_body]
pub(crate) fn lowercase(text: &str) -> (result: String)
    ensures
        result@ == unicode_lowercase(text@),
        vstd::utf8::is_ascii_chars(text@) ==> result@ == ascii_lowered(text@),
{
    text.to_lowercase()
}

/// `text` in lower case: `a` to `z` for `A` to `Z` where all of it is ASCII, and
/// what `str::to_lowercase` makes of it otherwise.
pub open spec fn lowered(text: Seq<char>) -> Seq<char> {
    if vstd::utf8::is_ascii_chars(text) {
        ascii_lowered(text)
    } else {
        unicode_lowercase(text)
    }
}

/// What `String::from_utf8_lossy` makes of bytes.
pub uninterp spec fn lossy_text(bytes: Seq<u8>) -> Seq<char>;

/// `String::from_utf8_lossy`: bytes as text. Valid UTF-8 is decoded; where the
/// bytes are not, replacement characters take the place of what is wrong, and
/// which of them they replace is left to the name.
#[verifier::external_body]
pub(crate) fn decode_lossy(bytes: &[u8]) -> (result: String)
    ensures
        result@ == lossy_text(bytes@),
        vstd::utf8::valid_utf8(bytes@) ==> result@ == vstd::utf8::decode_utf8(bytes@),
{
    String::from_utf8_lossy(bytes).into_owned()
}

/// The contents of a list of strings.
pub open spec fn texts(list: Seq<String>) -> Seq<Seq<char>> {
    list.map_values(|item: String| item@)
}

/// The contents of a string that may be missing.
pub open spec fn text_of(text: Option<String>) -> Option<Seq<char>> {
    match text {
        Some(text) => Some(text@),
        None => None,
    }
}

pub fn copied(text: &Option<String>) -> (result: Option<String>)
    ensures
        text_of(result) == text_of(*text),
{
    match text {
        Some(text) => Some(text.clone()),
        None => None,
    }
}

/// Adds `text` at the end of a list of strings.
pub fn push_text(list: &mut Vec<String>, text: &str)
    ensures
        texts(final(list)@) == texts(old(list)@).push(text@),
        final(list)@.len() == old(list)@.len() + 1,
{
    list.push(text.to_owned());
    assert(texts(list@) =~= texts(old(list)@).push(text@));
}

/// A list of strings, by their contents.
pub fn text_list(items: &[&str]) -> (result: Vec<String>)
    ensures
        texts(result@) == items@.map_values(|item: &str| item@),
{
    let mut result: Vec<String> = Vec::new();
    let mut i: usize = 0;
    while i < items.len()
        invariant
            i <= items@.len(),
            texts(result@) == items@.map_values(|item: &str| item@).take(i as int),
        decreases items@.len() - i,
    {
        push_text(&mut result, items[i]);
        assert(items@.map_values(|item: &str| item@).take(i + 1) =~= items@.map_values(
            |item: &str| item@,
        ).take(i as int).push(items@[i as int]@));
        i = i + 1;
    }
    assert(items@.map_values(|item: &str| item@).take(items@.len() as int)
        =~= items@.map_values(|item: &str| item@));
    result
}

/// The characters of `text`, in order.
pub fn chars_of(text: &str) -> (result: Vec<char>)
    ensures
        result@ == text@,
{
    let mut result: Vec<char> = Vec::new();
    for c in it: text.chars()
        invariant
            it.seq() == text@,
            result@ == it.seq().take(it.index() as int),
    {
        result.push(c);
    }
    assert(text@.take(text@.len() as int) =~= text@);
    result
}

/// The string made of `chars[from..to]`.
pub fn text_between(chars: &[char], from: usize, to: usize) -> (result: String)
    requires
        from <= to <= chars@.len(),
    ensures
        result@ == chars@.subrange(from as int, to as int),
{
    let mut result = String::new();
    let mut i: usize = from;
    while i < to
        invariant
            from <= i <= to <= chars@.len(),
            result@ == chars@.subrange(from as int, i as int),
        decreases to - i,
    {
        result.push(chars[i]);
        i = i + 1;
        assert(chars@.subrange(from as int, i as int) =~= chars@.subrange(
            from as int,
            i - 1,
        ).push(chars@[i - 1]));
    }
    result
}

/// Whether two texts hold the same characters.
pub fn same_text(left: &str, right: &str) -> (result: bool)
    ensures
        result == (left@ == right@),
{
    left.to_owned() == right.to_owned()
}

/// The characters that have the Unicode property `White_Space`.
pub open spec fn is_white_space(c: char) -> bool {
    let code = c as u32;
    ||| 0x09 <= code <= 0x0d
    ||| code == 0x20
    ||| code == 0x85
    ||| code == 0xa0
    ||| code == 0x1680
    ||| 0x2000 <= code <= 0x200a
    ||| code == 0x2028
    ||| code == 0x2029
    ||| code == 0x202f
    ||| code == 0x205f
    ||| code == 0x3000
}

pub fn white_space(c: char) -> (result: bool)
    ensures
        result == is_white_space(c),
{
    let code: u32 = c as u32;
    (0x09 <= code && code <= 0x0d) || code == 0x20 || code == 0x85 || code == 0xa0 || code == 0x1680
        || (0x2000 <= code && code <= 0x200a) || code == 0x2028 || code == 0x2029 || code == 0x202f
        || code == 0x205f || code == 0x3000
}

pub open spec fn is_digit(c: char) -> bool {
    '0' <= c <= '9'
}

pub fn digit(c: char) -> (result: bool)
    ensures
        result == is_digit(c),
{
    '0' <= c && c <= '9'
}

/// An ASCII letter or digit.
pub open spec fn is_ascii_alphanumeric(c: char) -> bool {
    is_digit(c) || 'a' <= c <= 'z' || 'A' <= c <= 'Z'
}

pub fn ascii_alphanumeric(c: char) -> (result: bool)
    ensures
        result == is_ascii_alphanumeric(c),
{
    digit(c) || ('a' <= c && c <= 'z') || ('A' <= c && c <= 'Z')
}

// ---------------------------------------------------------------------------
// ASCII case
// ---------------------------------------------------------------------------

pub open spec fn ascii_lower(c: char) -> char {
    if 'A' <= c <= 'Z' {
        (c as u32 + 32) as char
    } else {
        c
    }
}

/// `text` with `A` to `Z` replaced by `a` to `z`.
pub open spec fn ascii_lowered(text: Seq<char>) -> Seq<char> {
    text.map_values(|c: char| ascii_lower(c))
}

pub fn ascii_lower_char(c: char) -> (result: char)
    ensures
        result == ascii_lower(c),
{
    if 'A' <= c && c <= 'Z' {
        let code: u8 = c as u8 + 32;
        code as char
    } else {
        c
    }
}

pub fn ascii_lowercase(text: &str) -> (result: String)
    ensures
        result@ == ascii_lowered(text@),
{
    let chars = chars_of(text);
    let mut result = String::new();
    let mut i: usize = 0;
    while i < chars.len()
        invariant
            i <= chars.len(),
            chars@ == text@,
            result@ == ascii_lowered(text@.take(i as int)),
        decreases chars.len() - i,
    {
        result.push(ascii_lower_char(chars[i]));
        i = i + 1;
        assert(ascii_lowered(text@.take(i as int)) =~= ascii_lowered(text@.take(i - 1)).push(
            ascii_lower(text@[i - 1]),
        ));
    }
    assert(text@.take(i as int) =~= text@);
    result
}

/// Whether two texts are equal up to the case of ASCII letters.
pub open spec fn equal_ignoring_ascii_case(left: Seq<char>, right: Seq<char>) -> bool {
    ascii_lowered(left) == ascii_lowered(right)
}

pub fn eq_ignore_ascii_case(left: &str, right: &str) -> (result: bool)
    ensures
        result == equal_ignoring_ascii_case(left@, right@),
{
    ascii_lowercase(left) == ascii_lowercase(right)
}

// ---------------------------------------------------------------------------
// Prefixes, suffixes and substrings
// ---------------------------------------------------------------------------

/// Whether `needle` stands in `text` at position `at`.
pub open spec fn occurs_at(text: Seq<char>, needle: Seq<char>, at: int) -> bool {
    0 <= at && at + needle.len() <= text.len() && text.subrange(at, at + needle.len()) == needle
}

/// Whether `needle` stands anywhere in `text`.
pub open spec fn contains_text(text: Seq<char>, needle: Seq<char>) -> bool {
    exists|at: int| occurs_at(text, needle, at)
}

/// What is left of `text` after the prefix `prefix`, if it starts with it.
pub open spec fn stripped_prefix(text: Seq<char>, prefix: Seq<char>) -> Option<Seq<char>> {
    if prefix.is_prefix_of(text) {
        Some(text.skip(prefix.len() as int))
    } else {
        None
    }
}

fn chars_occur_at(chars: &[char], needle: &[char], at: usize) -> (result: bool)
    requires
        at + needle@.len() <= chars@.len(),
    ensures
        result == occurs_at(chars@, needle@, at as int),
{
    let total: usize = chars.len();
    let mut i: usize = 0;
    while i < needle.len()
        invariant
            i <= needle@.len(),
            total == chars@.len(),
            at + needle@.len() <= total,
            forall|k: int| 0 <= k < i ==> chars@[at + k] == needle@[k],
        decreases needle.len() - i,
    {
        if chars[at + i] != needle[i] {
            proof {
                let part = chars@.subrange(at as int, at + needle@.len());
                assert(part[i as int] == chars@[at + i]);
            }
            return false;
        }
        i = i + 1;
    }
    assert(chars@.subrange(at as int, at + needle@.len()) =~= needle@);
    true
}

pub fn contains(text: &str, needle: &str) -> (result: bool)
    ensures
        result == contains_text(text@, needle@),
{
    let chars = chars_of(text);
    let wanted = chars_of(needle);
    if wanted.len() > chars.len() {
        return false;
    }
    let last: usize = chars.len() - wanted.len();
    let mut at: usize = 0;
    loop
        invariant
            at <= last,
            last == chars@.len() - wanted@.len(),
            chars@ == text@,
            wanted@ == needle@,
            forall|k: int| 0 <= k < at ==> !occurs_at(text@, needle@, k),
        decreases last - at,
    {
        if chars_occur_at(&chars, &wanted, at) {
            return true;
        }
        if at == last {
            return false;
        }
        at = at + 1;
    }
}

pub fn starts_with(text: &str, prefix: &str) -> (result: bool)
    ensures
        result == prefix@.is_prefix_of(text@),
{
    let chars = chars_of(text);
    let wanted = chars_of(prefix);
    wanted.len() <= chars.len() && chars_occur_at(&chars, &wanted, 0)
}

pub fn ends_with(text: &str, suffix: &str) -> (result: bool)
    ensures
        result == suffix@.is_suffix_of(text@),
{
    let chars = chars_of(text);
    let wanted = chars_of(suffix);
    wanted.len() <= chars.len() && chars_occur_at(&chars, &wanted, chars.len() - wanted.len())
}

pub fn strip_prefix(text: &str, prefix: &str) -> (result: Option<String>)
    ensures
        match (result, stripped_prefix(text@, prefix@)) {
            (Some(rest), Some(expected)) => rest@ == expected,
            (None, None) => true,
            _ => false,
        },
{
    let chars = chars_of(text);
    let wanted = chars_of(prefix);
    if wanted.len() <= chars.len() && chars_occur_at(&chars, &wanted, 0) {
        let rest = text_between(&chars, wanted.len(), chars.len());
        Some(rest)
    } else {
        None
    }
}

// ---------------------------------------------------------------------------
// Trimming
// ---------------------------------------------------------------------------

/// `text` without the white space at its start.
pub open spec fn trimmed_start(text: Seq<char>) -> Seq<char>
    decreases text.len(),
{
    if text.len() > 0 && is_white_space(text[0]) {
        trimmed_start(text.skip(1))
    } else {
        text
    }
}

/// `text` without the white space at its end.
pub open spec fn trimmed_end(text: Seq<char>) -> Seq<char>
    decreases text.len(),
{
    if text.len() > 0 && is_white_space(text.last()) {
        trimmed_end(text.drop_last())
    } else {
        text
    }
}

/// `text` without the white space at either end.
pub open spec fn trimmed(text: Seq<char>) -> Seq<char> {
    trimmed_end(trimmed_start(text))
}

proof fn lemma_trimmed_start(text: Seq<char>)
    ensures
        trimmed_start(text).len() <= text.len(),
        trimmed_start(text) == text.skip(text.len() - trimmed_start(text).len()),
        trimmed_start(text).len() > 0 ==> !is_white_space(trimmed_start(text)[0]),
    decreases text.len(),
{
    if text.len() > 0 && is_white_space(text[0]) {
        lemma_trimmed_start(text.skip(1));
    }
    assert(trimmed_start(text) =~= text.skip(text.len() - trimmed_start(text).len()));
}

proof fn lemma_trimmed_end(text: Seq<char>)
    ensures
        trimmed_end(text).len() <= text.len(),
        trimmed_end(text) == text.take(trimmed_end(text).len() as int),
        trimmed_end(text).len() > 0 ==> !is_white_space(trimmed_end(text).last()),
    decreases text.len(),
{
    if text.len() > 0 && is_white_space(text.last()) {
        lemma_trimmed_end(text.drop_last());
    }
    assert(trimmed_end(text) =~= text.take(trimmed_end(text).len() as int));
}

/// Trimmed text neither starts nor ends with white space, and holds nothing new.
pub proof fn lemma_trimmed(text: Seq<char>)
    ensures
        trimmed(text).len() > 0 ==> !is_white_space(trimmed(text)[0]) && !is_white_space(
            trimmed(text).last(),
        ),
        forall|c: char| #[trigger] trimmed(text).contains(c) ==> text.contains(c),
        trimmed(trimmed(text)) == trimmed(text),
{
    let start = trimmed_start(text);
    lemma_trimmed_start(text);
    lemma_trimmed_end(start);
    assert forall|c: char| #[trigger] trimmed(text).contains(c) implies text.contains(c) by {
        let i = choose|i: int| 0 <= i < trimmed(text).len() && trimmed(text)[i] == c;
        assert(start[i] == c);
        assert(text[text.len() - start.len() + i] == c);
    }
}

/// `text` without the characters at its end that are one of `marks`.
pub open spec fn without_trailing(text: Seq<char>, marks: Seq<char>) -> Seq<char>
    decreases text.len(),
{
    if text.len() > 0 && marks.contains(text.last()) {
        without_trailing(text.drop_last(), marks)
    } else {
        text
    }
}

pub fn trim(text: &str) -> (result: String)
    ensures
        result@ == trimmed(text@),
{
    let chars = chars_of(text);
    let mut from: usize = 0;
    assert(text@.skip(0) =~= text@);
    while from < chars.len() && white_space(chars[from])
        invariant
            from <= chars@.len(),
            chars@ == text@,
            trimmed_start(text@) == trimmed_start(text@.skip(from as int)),
        decreases chars.len() - from,
    {
        assert(text@.skip(from as int).skip(1) =~= text@.skip(from + 1));
        from = from + 1;
    }
    assert(trimmed_start(text@) == text@.skip(from as int));
    assert(text@.skip(from as int) =~= text@.subrange(from as int, text@.len() as int));
    let mut to: usize = chars.len();
    while to > from && white_space(chars[to - 1])
        invariant
            from <= to <= chars@.len(),
            chars@ == text@,
            trimmed_end(text@.skip(from as int)) == trimmed_end(
                text@.subrange(from as int, to as int),
            ),
        decreases to,
    {
        assert(text@.subrange(from as int, to as int).drop_last() =~= text@.subrange(
            from as int,
            to - 1,
        ));
        assert(text@.subrange(from as int, to as int).last() == text@[to - 1]);
        to = to - 1;
    }
    if to > from {
        assert(text@.subrange(from as int, to as int).last() == text@[to - 1]);
    }
    text_between(&chars, from, to)
}

/// Whether `marks` holds `c`.
fn chars_contain(marks: &[char], c: char) -> (result: bool)
    ensures
        result == marks@.contains(c),
{
    let mut i: usize = 0;
    while i < marks.len()
        invariant
            i <= marks@.len(),
            forall|k: int| 0 <= k < i ==> marks@[k] != c,
        decreases marks.len() - i,
    {
        if marks[i] == c {
            return true;
        }
        i = i + 1;
    }
    false
}

/// Removes from the end of `text` every character that `marks` holds.
pub fn trim_trailing(text: &str, marks: &str) -> (result: String)
    ensures
        result@ == without_trailing(text@, marks@),
{
    let chars = chars_of(text);
    let listed = chars_of(marks);
    let mut to: usize = chars.len();
    assert(text@.take(to as int) =~= text@);
    while to > 0 && chars_contain(&listed, chars[to - 1])
        invariant
            to <= chars@.len(),
            chars@ == text@,
            listed@ == marks@,
            without_trailing(text@, marks@) == without_trailing(text@.take(to as int), marks@),
        decreases to,
    {
        assert(text@.take(to as int).drop_last() =~= text@.take(to - 1));
        to = to - 1;
    }
    assert(text@.take(to as int) =~= text@.subrange(0, to as int));
    text_between(&chars, 0, to)
}

// ---------------------------------------------------------------------------
// Splitting and joining
// ---------------------------------------------------------------------------

/// The parts of `text` between the occurrences of `separator`: one more than
/// there are occurrences.
pub open spec fn split_parts(text: Seq<char>, separator: char) -> Seq<Seq<char>>
    decreases text.len(),
{
    if text.len() == 0 {
        seq![Seq::<char>::empty()]
    } else {
        let before = split_parts(text.drop_last(), separator);
        if text.last() == separator {
            before.push(Seq::<char>::empty())
        } else {
            before.update(before.len() - 1, before.last().push(text.last()))
        }
    }
}

pub proof fn lemma_split_has_a_part(text: Seq<char>, separator: char)
    ensures
        split_parts(text, separator).len() >= 1,
    decreases text.len(),
{
    if text.len() > 0 {
        lemma_split_has_a_part(text.drop_last(), separator);
    }
}

/// A text without the separator is a part of its own.
pub proof fn lemma_split_whole(text: Seq<char>, separator: char)
    requires
        !text.contains(separator),
    ensures
        split_parts(text, separator) == seq![text],
    decreases text.len(),
{
    if text.len() > 0 {
        assert(text.contains(text.last()));
        assert(!text.drop_last().contains(separator));
        lemma_split_whole(text.drop_last(), separator);
        assert(text.drop_last().push(text.last()) =~= text);
    } else {
        assert(text =~= Seq::empty());
    }
    assert(split_parts(text, separator) =~= seq![text]);
}

/// What follows the last separator is the last part.
pub proof fn lemma_split_after(before: Seq<char>, after: Seq<char>, separator: char)
    requires
        !after.contains(separator),
    ensures
        split_parts(before.push(separator) + after, separator) == split_parts(
            before,
            separator,
        ).push(after),
    decreases after.len(),
{
    let text = before.push(separator) + after;
    if after.len() == 0 {
        assert(text.drop_last() =~= before);
        assert(after =~= Seq::empty());
    } else {
        assert(after.contains(after.last()));
        assert(!after.drop_last().contains(separator));
        lemma_split_after(before, after.drop_last(), separator);
        assert(text.drop_last() =~= before.push(separator) + after.drop_last());
        assert(after.drop_last().push(after.last()) =~= after);
        assert(split_parts(text, separator) =~= split_parts(before, separator).push(after));
    }
}

pub fn split(text: &str, separator: char) -> (result: Vec<String>)
    ensures
        texts(result@) == split_parts(text@, separator),
{
    let chars = chars_of(text);
    let mut result: Vec<String> = Vec::new();
    let mut current = String::new();
    let mut i: usize = 0;
    assert(texts(result@).push(current@) =~= split_parts(text@.take(0), separator));
    while i < chars.len()
        invariant
            i <= chars@.len(),
            chars@ == text@,
            texts(result@).push(current@) == split_parts(text@.take(i as int), separator),
        decreases chars.len() - i,
    {
        let ghost before = texts(result@);
        let ghost partial = current@;
        let c = chars[i];
        i = i + 1;
        assert(text@.take(i as int).drop_last() =~= text@.take(i - 1));
        if c == separator {
            result.push(current);
            current = String::new();
            assert(texts(result@) =~= before.push(partial));
        } else {
            current.push(c);
            assert(before.push(partial).update(before.len() as int, partial.push(c)) =~= before.push(
                current@,
            ));
        }
    }
    assert(text@.take(i as int) =~= text@);
    let ghost before = texts(result@);
    let ghost partial = current@;
    result.push(current);
    assert(texts(result@) =~= before.push(partial));
    result
}

/// The words of a text as far as it was read: those that are complete, and the
/// one that is still growing (empty after white space).
pub open spec fn words_so_far(text: Seq<char>) -> (Seq<Seq<char>>, Seq<char>)
    decreases text.len(),
{
    if text.len() == 0 {
        (Seq::empty(), Seq::empty())
    } else {
        let (done, growing) = words_so_far(text.drop_last());
        if !is_white_space(text.last()) {
            (done, growing.push(text.last()))
        } else if growing.len() > 0 {
            (done.push(growing), Seq::empty())
        } else {
            (done, growing)
        }
    }
}

/// The words of `text`: its longest runs of characters that are not white
/// space, in order.
pub open spec fn words_of(text: Seq<char>) -> Seq<Seq<char>> {
    let (done, growing) = words_so_far(text);
    if growing.len() > 0 {
        done.push(growing)
    } else {
        done
    }
}

/// Whether `word` is a word: some characters, none of them white space.
pub open spec fn is_word(word: Seq<char>) -> bool {
    word.len() > 0 && forall|i: int| 0 <= i < word.len() ==> !is_white_space(#[trigger] word[i])
}

proof fn lemma_words_so_far(text: Seq<char>)
    ensures
        forall|i: int|
            0 <= i < words_so_far(text).0.len() ==> is_word(#[trigger] words_so_far(text).0[i]),
        words_so_far(text).1.len() > 0 ==> is_word(words_so_far(text).1),
        text.len() > 0 && !is_white_space(text[0]) ==> (if words_so_far(text).0.len() > 0 {
            words_so_far(text).0[0][0] == text[0]
        } else {
            words_so_far(text).1.len() > 0 && words_so_far(text).1[0] == text[0]
        }),
    decreases text.len(),
{
    if text.len() > 0 {
        lemma_words_so_far(text.drop_last());
    }
}

/// Words are words, and the first one starts where the text starts, unless that
/// is with white space.
pub proof fn lemma_words(text: Seq<char>)
    ensures
        forall|i: int| 0 <= i < words_of(text).len() ==> is_word(#[trigger] words_of(text)[i]),
        text.len() > 0 && !is_white_space(text[0]) ==> words_of(text).len() > 0 && words_of(
            text,
        )[0][0] == text[0],
{
    lemma_words_so_far(text);
}

proof fn lemma_word_grows(text: Seq<char>, word: Seq<char>)
    requires
        forall|i: int| 0 <= i < word.len() ==> !is_white_space(#[trigger] word[i]),
    ensures
        words_so_far(text + word) == (words_so_far(text).0, words_so_far(text).1 + word),
    decreases word.len(),
{
    if word.len() == 0 {
        assert(text + word =~= text);
        assert(words_so_far(text).1 + word =~= words_so_far(text).1);
    } else {
        lemma_word_grows(text, word.drop_last());
        assert((text + word).drop_last() =~= text + word.drop_last());
        assert((words_so_far(text).1 + word.drop_last()).push(word.last()) =~= words_so_far(text).1
            + word);
    }
}

/// What follows a word adds its own words.
pub proof fn lemma_first_word(head: Seq<char>, rest: Seq<char>)
    requires
        is_word(head),
        rest.len() == 0 || is_white_space(rest[0]),
    ensures
        rest.len() == 0 ==> words_so_far(head + rest) == (Seq::<Seq<char>>::empty(), head),
        rest.len() > 0 ==> words_so_far(head + rest) == (
            seq![head] + words_so_far(rest).0,
            words_so_far(rest).1,
        ),
        words_of(head + rest) == seq![head] + words_of(rest),
    decreases rest.len(),
{
    if rest.len() == 0 {
        lemma_word_grows(Seq::empty(), head);
        assert(head + rest =~= Seq::empty() + head);
        assert(words_so_far(head + rest).1 =~= head);
        assert(words_of(rest) =~= Seq::empty());
    } else {
        let fewer = rest.drop_last();
        assert((head + rest).drop_last() =~= head + fewer);
        lemma_first_word(head, fewer);
        if fewer.len() == 0 {
            assert(words_so_far(fewer) == (Seq::<Seq<char>>::empty(), Seq::<char>::empty()));
            assert(rest.last() == rest[0]);
        }
        assert(words_so_far(head + rest).0 =~= seq![head] + words_so_far(rest).0);
    }
    assert(words_of(head + rest) =~= seq![head] + words_of(rest));
}

/// Words with tabs between them are read as the same words. The text starts and
/// ends as they do, and is one line.
pub proof fn lemma_tabbed_words(words: Seq<Seq<char>>)
    requires
        words.len() > 0,
        forall|i: int| 0 <= i < words.len() ==> is_word(#[trigger] words[i]),
    ensures
        words_so_far(joined(words, "\t"@)) == (words.drop_last(), words.last()),
        words_of(joined(words, "\t"@)) == words,
        joined(words, "\t"@).len() > 0,
        joined(words, "\t"@)[0] == words[0][0],
        !is_white_space(joined(words, "\t"@).last()),
        !joined(words, "\t"@).contains('\n'),
    decreases words.len(),
{
    reveal_strlit("\t");
    let text = joined(words, "\t"@);
    let last = words.last();
    assert(is_word(words[words.len() - 1]));
    if words.len() == 1 {
        assert(Seq::<char>::empty() + last =~= text);
        lemma_word_grows(Seq::empty(), last);
        assert(words_so_far(text).1 =~= last);
        assert(words_so_far(text).0 =~= words.drop_last());
    } else {
        let fewer = words.drop_last();
        assert forall|i: int| 0 <= i < fewer.len() implies is_word(#[trigger] fewer[i]) by {
            assert(fewer[i] == words[i]);
        }
        lemma_tabbed_words(fewer);
        let before = joined(fewer, "\t"@);
        let broken = before.push('\t');
        assert(broken.drop_last() =~= before);
        assert(is_word(fewer[fewer.len() - 1]));
        assert(words_so_far(broken).0 =~= fewer);
        assert(text =~= broken + last);
        lemma_word_grows(broken, last);
        assert(words_so_far(text).1 =~= last);
        assert forall|i: int| 0 <= i < text.len() implies text[i] != '\n' by {
            if i < before.len() {
                assert(before.contains(before[i]));
            }
        }
    }
    assert(words_of(text) =~= words);
    assert forall|i: int| 0 <= i < last.len() implies last[i] != '\n' by {
        assert(!is_white_space(last[i]));
    }
}

pub fn words(text: &str) -> (result: Vec<String>)
    ensures
        texts(result@) == words_of(text@),
{
    let chars = chars_of(text);
    let mut result: Vec<String> = Vec::new();
    let mut current = String::new();
    let mut i: usize = 0;
    assert(texts(result@) =~= words_so_far(text@.take(0)).0);
    while i < chars.len()
        invariant
            i <= chars@.len(),
            chars@ == text@,
            (texts(result@), current@) == words_so_far(text@.take(i as int)),
        decreases chars.len() - i,
    {
        let ghost before = texts(result@);
        let ghost partial = current@;
        let c = chars[i];
        i = i + 1;
        assert(text@.take(i as int).drop_last() =~= text@.take(i - 1));
        if !white_space(c) {
            current.push(c);
        } else if !current.as_str().is_empty() {
            result.push(current);
            current = String::new();
            assert(texts(result@) =~= before.push(partial));
        }
    }
    assert(text@.take(i as int) =~= text@);
    if !current.as_str().is_empty() {
        let ghost before = texts(result@);
        let ghost partial = current@;
        result.push(current);
        assert(texts(result@) =~= before.push(partial));
    }
    result
}

/// A line without the carriage return that ends it, if one does.
pub open spec fn without_carriage_return(line: Seq<char>) -> Seq<char> {
    if line.len() > 0 && line.last() == '\r' {
        line.drop_last()
    } else {
        line
    }
}

/// The lines of `text`. A line ends with a line feed, or with a carriage
/// return and a line feed; the last one may end with the text.
pub open spec fn lines_of(text: Seq<char>) -> Seq<Seq<char>> {
    let parts = split_parts(text, '\n');
    let ended = parts.drop_last().map_values(|line: Seq<char>| without_carriage_return(line));
    if parts.last().len() == 0 {
        ended
    } else {
        ended.push(parts.last())
    }
}

proof fn lemma_parts_are_unbroken(text: Seq<char>, separator: char)
    ensures
        forall|i: int|
            0 <= i < split_parts(text, separator).len() ==> !(#[trigger] split_parts(
                text,
                separator,
            )[i]).contains(separator),
    decreases text.len(),
{
    if text.len() > 0 {
        let before = split_parts(text.drop_last(), separator);
        let parts = split_parts(text, separator);
        lemma_split_has_a_part(text.drop_last(), separator);
        lemma_parts_are_unbroken(text.drop_last(), separator);
        assert forall|i: int| 0 <= i < parts.len() implies !(#[trigger] parts[i]).contains(
            separator,
        ) by {
            if i < before.len() {
                assert(!before[i].contains(separator));
            }
            if i == parts.len() - 1 && text.last() != separator {
                assert forall|k: int| 0 <= k < parts[i].len() implies parts[i][k] != separator by {
                    if k < before[i].len() {
                        assert(before[i].contains(before[i][k]));
                    }
                }
            }
        }
    }
}

/// No line holds a line feed.
pub proof fn lemma_lines_are_unbroken(text: Seq<char>)
    ensures
        forall|i: int|
            0 <= i < lines_of(text).len() ==> !(#[trigger] lines_of(text)[i]).contains('\n'),
{
    let parts = split_parts(text, '\n');
    lemma_split_has_a_part(text, '\n');
    lemma_parts_are_unbroken(text, '\n');
    assert forall|i: int| 0 <= i < lines_of(text).len() implies !(#[trigger] lines_of(
        text,
    )[i]).contains('\n') by {
        let line = lines_of(text)[i];
        assert(!parts[i].contains('\n'));
        assert forall|k: int| 0 <= k < line.len() implies line[k] != '\n' by {
            assert(parts[i].contains(parts[i][k]));
        }
    }
}

pub fn lines(text: &str) -> (result: Vec<String>)
    ensures
        texts(result@) == lines_of(text@),
{
    let parts = split(text, '\n');
    proof {
        lemma_split_has_a_part(text@, '\n');
    }
    let ghost all = split_parts(text@, '\n');
    let ghost ended = all.drop_last().map_values(|line: Seq<char>| without_carriage_return(line));
    assert(parts@.len() == all.len());
    let last: usize = parts.len() - 1;
    let mut result: Vec<String> = Vec::new();
    let mut i: usize = 0;
    assert(texts(result@) =~= ended.take(0));
    while i < last
        invariant
            i <= last,
            last == parts@.len() - 1,
            texts(parts@) == all,
            ended == all.drop_last().map_values(|line: Seq<char>| without_carriage_return(line)),
            texts(result@) == ended.take(i as int),
        decreases last - i,
    {
        let ghost before = texts(result@);
        assert(texts(parts@)[i as int] == parts@[i as int]@);
        let chars = chars_of(parts[i].as_str());
        let line = if chars.len() > 0 && chars[chars.len() - 1] == '\r' {
            text_between(&chars, 0, chars.len() - 1)
        } else {
            text_between(&chars, 0, chars.len())
        };
        assert(line@ =~= without_carriage_return(all[i as int]));
        let ghost shown = line@;
        result.push(line);
        i = i + 1;
        assert(texts(result@) =~= before.push(shown));
        assert(ended.take(i as int) =~= ended.take(i - 1).push(shown));
    }
    assert(ended.take(last as int) =~= ended);
    assert(texts(parts@)[last as int] == parts@[last as int]@);
    if !parts[last].as_str().is_empty() {
        let ghost before = texts(result@);
        result.push(parts[last].clone());
        assert(texts(result@) =~= before.push(all.last()));
    }
    result
}

/// The texts of `parts` with `separator` between each two of them.
pub open spec fn joined(parts: Seq<Seq<char>>, separator: Seq<char>) -> Seq<char>
    decreases parts.len(),
{
    if parts.len() == 0 {
        Seq::empty()
    } else if parts.len() == 1 {
        parts[0]
    } else {
        joined(parts.drop_last(), separator) + separator + parts.last()
    }
}

pub fn join(parts: &[String], separator: &str) -> (result: String)
    ensures
        result@ == joined(texts(parts@), separator@),
{
    let mut result = String::new();
    let mut i: usize = 0;
    let ghost all = texts(parts@);
    while i < parts.len()
        invariant
            i <= parts@.len(),
            all == texts(parts@),
            result@ == joined(all.take(i as int), separator@),
        decreases parts.len() - i,
    {
        assert(all.take(i + 1).drop_last() =~= all.take(i as int));
        assert(all[i as int] == parts@[i as int]@);
        if i > 0 {
            result.append(separator);
        } else {
            assert(result@ + all[0] =~= all[0]);
        }
        result.append(parts[i].as_str());
        i = i + 1;
    }
    assert(all.take(i as int) =~= all);
    result
}

// ---------------------------------------------------------------------------
// Order
// ---------------------------------------------------------------------------

/// Whether `left` stands before `right` in the lexicographic order of code
/// points, which is also the order of their UTF-8 bytes.
pub open spec fn text_less(left: Seq<char>, right: Seq<char>) -> bool
    decreases left.len(),
{
    if right.len() == 0 {
        false
    } else if left.len() == 0 {
        true
    } else if left[0] != right[0] {
        left[0] < right[0]
    } else {
        text_less(left.skip(1), right.skip(1))
    }
}

pub proof fn lemma_text_less_irreflexive(text: Seq<char>)
    ensures
        !text_less(text, text),
    decreases text.len(),
{
    if text.len() > 0 {
        lemma_text_less_irreflexive(text.skip(1));
    }
}

pub proof fn lemma_text_less_transitive(a: Seq<char>, b: Seq<char>, c: Seq<char>)
    requires
        text_less(a, b),
        text_less(b, c),
    ensures
        text_less(a, c),
    decreases a.len(),
{
    if a.len() > 0 && b.len() > 0 && c.len() > 0 && a[0] == b[0] && b[0] == c[0] {
        lemma_text_less_transitive(a.skip(1), b.skip(1), c.skip(1));
    }
}

pub proof fn lemma_text_less_total(a: Seq<char>, b: Seq<char>)
    ensures
        a == b || text_less(a, b) || text_less(b, a),
    decreases a.len(),
{
    if a.len() > 0 && b.len() > 0 && a[0] == b[0] {
        lemma_text_less_total(a.skip(1), b.skip(1));
        if a.skip(1) == b.skip(1) {
            assert(a =~= seq![a[0]] + a.skip(1));
            assert(b =~= seq![b[0]] + b.skip(1));
        }
    } else if a.len() == 0 && b.len() == 0 {
        assert(a =~= b);
    }
}

pub fn less(left: &str, right: &str) -> (result: bool)
    ensures
        result == text_less(left@, right@),
{
    let a = chars_of(left);
    let b = chars_of(right);
    let mut i: usize = 0;
    assert(left@.skip(0) =~= left@);
    assert(right@.skip(0) =~= right@);
    while i < a.len() && i < b.len()
        invariant
            i <= a@.len(),
            i <= b@.len(),
            a@ == left@,
            b@ == right@,
            text_less(left@, right@) == text_less(left@.skip(i as int), right@.skip(i as int)),
        decreases a.len() - i,
    {
        if a[i] != b[i] {
            return a[i] < b[i];
        }
        assert(left@.skip(i as int).skip(1) =~= left@.skip(i + 1));
        assert(right@.skip(i as int).skip(1) =~= right@.skip(i + 1));
        i = i + 1;
    }
    i < b.len()
}

} // verus!
