//! Unix paths as text: joining them and taking them apart, without looking at
//! the disk.

use vstd::prelude::*;

use crate::text::{chars_of, text_between};

verus! {

/// Where `mark` stands last in `text`.
pub open spec fn last_index(text: Seq<char>, mark: char) -> Option<int>
    decreases text.len(),
{
    if text.len() == 0 {
        None
    } else if text.last() == mark {
        Some(text.len() - 1)
    } else {
        last_index(text.drop_last(), mark)
    }
}

pub open spec fn is_absolute_path(path: Seq<char>) -> bool {
    path.len() > 0 && path[0] == '/'
}

/// `path` seen from the directory `base`.
pub open spec fn joined_path(base: Seq<char>, path: Seq<char>) -> Seq<char> {
    if is_absolute_path(path) || base.len() == 0 {
        path
    } else if base.last() == '/' {
        base + path
    } else {
        base + "/"@ + path
    }
}

/// How many characters at the start of a path are its root, or a leading `.`
/// that stands for the current directory.
pub open spec fn anchor_len(path: Seq<char>) -> int {
    if is_absolute_path(path) {
        1
    } else if path.len() > 0 && path[0] == '.' && (path.len() == 1 || path[1] == '/') {
        1
    } else {
        0
    }
}

/// Where the last component of `path` starts, the first `anchor` characters
/// aside.
pub open spec fn component_start(path: Seq<char>, anchor: int) -> int {
    match last_index(path.skip(anchor), '/') {
        Some(at) => anchor + at + 1,
        None => anchor,
    }
}

/// `path` without its last component and the separator before that.
pub open spec fn without_component(path: Seq<char>, anchor: int) -> Seq<char> {
    let start = component_start(path, anchor);
    if start > anchor {
        path.take(start - 1)
    } else {
        path.take(start)
    }
}

/// Whether a component stands for nothing: it is empty, or a single dot.
pub open spec fn is_void_component(component: Seq<char>) -> bool {
    component.len() == 0 || (component.len() == 1 && component[0] == '.')
}

pub proof fn lemma_last_index(text: Seq<char>, mark: char)
    ensures
        match last_index(text, mark) {
            Some(at) => 0 <= at < text.len() && text[at] == mark && forall|i: int|
                at < i < text.len() ==> text[i] != mark,
            None => forall|i: int| 0 <= i < text.len() ==> text[i] != mark,
        },
    decreases text.len(),
{
    if text.len() > 0 && text.last() != mark {
        lemma_last_index(text.drop_last(), mark);
        assert(forall|i: int| 0 <= i < text.len() - 1 ==> text[i] == text.drop_last()[i]);
    }
}

/// `path` without the components at its end that stand for nothing.
pub open spec fn tidied(path: Seq<char>, anchor: int) -> Seq<char>
    decreases path.len(),
    via tidied_shrinks
{
    if 0 <= anchor < path.len() && is_void_component(path.skip(component_start(path, anchor))) {
        tidied(without_component(path, anchor), anchor)
    } else {
        path
    }
}

#[via_fn]
proof fn tidied_shrinks(path: Seq<char>, anchor: int) {
    if 0 <= anchor < path.len() {
        lemma_last_index(path.skip(anchor), '/');
    }
}

/// The directory that `path` stands in, if it has one.
pub open spec fn parent_path(path: Seq<char>) -> Option<Seq<char>> {
    let anchor = anchor_len(path);
    let tidy = tidied(path, anchor);
    if tidy.len() > anchor {
        Some(tidied(without_component(tidy, anchor), anchor))
    } else if anchor == 1 && path[0] == '.' {
        Some(Seq::empty())
    } else {
        None
    }
}

/// The last component of `path`, unless it is `..`.
pub open spec fn file_name_in(path: Seq<char>) -> Option<Seq<char>> {
    let anchor = anchor_len(path);
    let tidy = tidied(path, anchor);
    if tidy.len() > anchor && tidy.skip(component_start(tidy, anchor)) != ".."@ {
        Some(tidy.skip(component_start(tidy, anchor)))
    } else {
        None
    }
}

/// What follows the last dot of the file name, if something stands before it.
pub open spec fn extension_in(path: Seq<char>) -> Option<Seq<char>> {
    match file_name_in(path) {
        Some(name) => match last_index(name, '.') {
            Some(at) if at > 0 => Some(name.skip(at + 1)),
            _ => None,
        },
        None => None,
    }
}

/// One more than where `mark` stands last in `chars[from..to]`, or `from`.
fn after_last(chars: &[char], from: usize, to: usize, mark: char) -> (result: usize)
    requires
        from <= to <= chars@.len(),
    ensures
        from <= result <= to,
        match last_index(chars@.subrange(from as int, to as int), mark) {
            Some(at) => result == from + at + 1,
            None => result == from,
        },
{
    let mut end: usize = to;
    while end > from && chars[end - 1] != mark
        invariant
            from <= end <= to <= chars@.len(),
            last_index(chars@.subrange(from as int, to as int), mark) == last_index(
                chars@.subrange(from as int, end as int),
                mark,
            ),
        decreases end,
    {
        assert(chars@.subrange(from as int, end as int).drop_last() =~= chars@.subrange(
            from as int,
            end - 1,
        ));
        assert(chars@.subrange(from as int, end as int).last() == chars@[end - 1]);
        end = end - 1;
    }
    if end > from {
        assert(chars@.subrange(from as int, end as int).last() == chars@[end - 1]);
    }
    end
}

fn anchor_of(chars: &[char]) -> (result: usize)
    ensures
        result == anchor_len(chars@),
        result <= chars@.len(),
{
    if chars.len() > 0 && chars[0] == '/' {
        1
    } else if chars.len() > 0 && chars[0] == '.' && (chars.len() == 1 || chars[1] == '/') {
        1
    } else {
        0
    }
}

/// Where the last component of `chars[..to]` starts.
fn component_start_of(chars: &[char], to: usize, anchor: usize) -> (result: usize)
    requires
        anchor <= to <= chars@.len(),
    ensures
        result == component_start(chars@.take(to as int), anchor as int),
        anchor <= result <= to,
{
    assert(chars@.take(to as int).skip(anchor as int) =~= chars@.subrange(
        anchor as int,
        to as int,
    ));
    after_last(chars, anchor, to, '/')
}

/// How much of `chars[..to]` is left without the components at its end that
/// stand for nothing.
fn tidy_end(chars: &[char], to: usize, anchor: usize) -> (result: usize)
    requires
        anchor <= to <= chars@.len(),
    ensures
        anchor <= result <= to,
        chars@.take(result as int) == tidied(chars@.take(to as int), anchor as int),
{
    let mut end: usize = to;
    while end > anchor
        invariant
            anchor <= end <= to <= chars@.len(),
            tidied(chars@.take(to as int), anchor as int) == tidied(
                chars@.take(end as int),
                anchor as int,
            ),
        decreases end,
    {
        let start: usize = component_start_of(chars, end, anchor);
        let ghost component = chars@.take(end as int).skip(start as int);
        assert(component =~= chars@.subrange(start as int, end as int));
        if start == end || (start + 1 == end && chars[start] == '.') {
            let shorter: usize = if start > anchor {
                start - 1
            } else {
                start
            };
            proof {
                assert(is_void_component(component));
                assert(chars@.take(shorter as int) =~= without_component(
                    chars@.take(end as int),
                    anchor as int,
                ));
                lemma_last_index(chars@.take(end as int).skip(anchor as int), '/');
                assert(shorter < end);
            }
            end = shorter;
        } else {
            assert(!is_void_component(component));
            return end;
        }
    }
    end
}

pub fn is_absolute(path: &str) -> (result: bool)
    ensures
        result == is_absolute_path(path@),
{
    let chars = chars_of(path);
    chars.len() > 0 && chars[0] == '/'
}

/// `path` seen from the directory `base`.
pub fn join_path(base: &str, path: &str) -> (result: String)
    ensures
        result@ == joined_path(base@, path@),
{
    let chars = chars_of(base);
    if is_absolute(path) || chars.len() == 0 {
        path.to_owned()
    } else if chars[chars.len() - 1] == '/' {
        base.to_owned().concat(path)
    } else {
        base.to_owned().concat("/").concat(path)
    }
}

/// The directory that `path` stands in, if it has one.
pub fn parent(path: &str) -> (result: Option<String>)
    ensures
        match (result, parent_path(path@)) {
            (Some(directory), Some(expected)) => directory@ == expected,
            (None, None) => true,
            _ => false,
        },
{
    let chars = chars_of(path);
    let anchor: usize = anchor_of(&chars);
    assert(chars@.take(chars@.len() as int) =~= path@);
    let end: usize = tidy_end(&chars, chars.len(), anchor);
    if end > anchor {
        let start: usize = component_start_of(&chars, end, anchor);
        let shorter: usize = if start > anchor {
            start - 1
        } else {
            start
        };
        assert(chars@.take(shorter as int) =~= without_component(
            chars@.take(end as int),
            anchor as int,
        ));
        let last: usize = tidy_end(&chars, shorter, anchor);
        assert(chars@.take(last as int) =~= chars@.subrange(0, last as int));
        Some(text_between(&chars, 0, last))
    } else if anchor == 1 && chars[0] == '.' {
        let nothing = String::new();
        Some(nothing)
    } else {
        None
    }
}

/// The last component of `path`, unless it is `..`.
pub fn file_name(path: &str) -> (result: Option<String>)
    ensures
        match (result, file_name_in(path@)) {
            (Some(name), Some(expected)) => name@ == expected,
            (None, None) => true,
            _ => false,
        },
{
    let chars = chars_of(path);
    let anchor: usize = anchor_of(&chars);
    assert(chars@.take(chars@.len() as int) =~= path@);
    let end: usize = tidy_end(&chars, chars.len(), anchor);
    if end <= anchor {
        return None;
    }
    let start: usize = component_start_of(&chars, end, anchor);
    let name = text_between(&chars, start, end);
    assert(chars@.take(end as int).skip(start as int) =~= name@);
    if crate::text::same_text(name.as_str(), "..") {
        None
    } else {
        Some(name)
    }
}

/// What follows the last dot of the file name, if something stands before it.
pub fn extension(path: &str) -> (result: Option<String>)
    ensures
        match (result, extension_in(path@)) {
            (Some(text), Some(expected)) => text@ == expected,
            (None, None) => true,
            _ => false,
        },
{
    let name = match file_name(path) {
        Some(name) => name,
        None => {
            return None;
        },
    };
    let chars = chars_of(name.as_str());
    let after: usize = after_last(&chars, 0, chars.len(), '.');
    assert(chars@.subrange(0, chars@.len() as int) =~= name@);
    proof {
        lemma_last_index(name@, '.');
    }
    if after > 1 {
        let text = text_between(&chars, after, chars.len());
        assert(text@ =~= name@.skip(after as int));
        Some(text)
    } else {
        None
    }
}

/// `path` with another extension: what stands before the last dot of its file
/// name, then a dot and `extension`. A path without a file name stays as it is.
pub open spec fn with_extension_in(path: Seq<char>, extension: Seq<char>) -> Seq<char> {
    match file_name_in(path) {
        Some(name) => {
            let tidy = tidied(path, anchor_len(path));
            let stem = match last_index(name, '.') {
                Some(at) if at > 0 => at,
                _ => name.len() as int,
            };
            tidy.take(tidy.len() - name.len() + stem) + "."@ + extension
        },
        None => path,
    }
}

/// `path` with another extension.
pub fn with_extension(path: &str, extension: &str) -> (result: String)
    ensures
        result@ == with_extension_in(path@, extension@),
{
    let name = match file_name(path) {
        Some(name) => chars_of(name.as_str()),
        None => {
            return path.to_owned();
        },
    };
    let chars = chars_of(path);
    let anchor: usize = anchor_of(&chars);
    assert(chars@.take(chars@.len() as int) =~= path@);
    let end: usize = tidy_end(&chars, chars.len(), anchor);
    let after: usize = after_last(&name, 0, name.len(), '.');
    let total: usize = name.len();
    let ghost tidy = tidied(path@, anchor as int);
    proof {
        lemma_last_index(name@, '.');
        lemma_last_index(tidy.skip(anchor as int), '/');
        assert(name@.subrange(0, name@.len() as int) =~= name@);
        assert(name@ == tidy.skip(component_start(tidy, anchor as int)));
    }
    let stem: usize = if after > 1 {
        after - 1
    } else {
        total
    };
    let head = text_between(&chars, 0, end - total + stem);
    assert(head@ =~= tidy.take(tidy.len() - name@.len() + stem));
    head.concat(".").concat(extension)
}

} // verus!
