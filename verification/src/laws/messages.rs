//! What messages ask for, by how they are written.

use vstd::prelude::*;

use crate::commands::{
    ActionView, StatsTarget, action_of, command_action, command_in, follows_command, is_plain_name,
    law_clip_timestamps_read_back, lemma_digits_are_unbroken, lemma_message, timestamp_in,
    timestamp_millis, word_at,
};
use crate::media::downloader::clip_timestamp;
use crate::media::request::{ClipRange, DownloadMode, RequestView, law_sections_keep_their_bounds};
use crate::number::{
    all_digits, decimal, i64_in, law_decimal_reads_back, lemma_padded_reads_back, padded_decimal,
    u32_in, u64_in,
};
use crate::policy::{limit_name_in, limit_value_in, package_in};
use crate::text::{
    ascii_lower, ascii_lowered, equal_ignoring_ascii_case, is_digit, is_white_space, is_word,
    lemma_first_word, lemma_split_after, lemma_split_whole, lemma_words, without_trailing, words_of,
    words_so_far,
};
use crate::time::{Duration, law_spans_hold_what_they_are_made_of};

verus! {

// ---------------------------------------------------------------------------
// How messages are written
// ---------------------------------------------------------------------------

/// Words, each after a space.
pub open spec fn spaced(words: Seq<Seq<char>>) -> Seq<char>
    decreases words.len(),
{
    if words.len() == 0 {
        Seq::empty()
    } else {
        spaced(words.drop_last()) + " "@ + words.last()
    }
}

/// A command with words behind it, and the rest of the message.
pub open spec fn written(name: Seq<char>, words: Seq<Seq<char>>, rest: Seq<char>) -> Seq<char> {
    "/"@ + name + (spaced(words) + rest)
}

/// Whether a message can be written like that: with proper words, and a rest that
/// is set off from them.
pub open spec fn can_be_written(words: Seq<Seq<char>>, rest: Seq<char>) -> bool {
    &&& forall|i: int| 0 <= i < words.len() ==> is_word(#[trigger] words[i])
    &&& follows_command(rest)
}

/// Whether an action is to download each of the links in that way.
pub open spec fn downloads_each(
    action: ActionView,
    urls: Seq<Seq<char>>,
    mode: DownloadMode,
) -> bool {
    &&& action is Downloads
    &&& action->Downloads_0.len() == urls.len()
    &&& forall|i: int|
        0 <= i < urls.len() ==> (#[trigger] action->Downloads_0[i]) == (RequestView {
            url: urls[i],
            mode,
        })
}

/// White space at the start of a text is no part of its words.
proof fn lemma_leading_space(text: Seq<char>)
    ensures
        words_so_far(" "@ + text) == words_so_far(text),
    decreases text.len(),
{
    reveal_strlit(" ");
    let longer = " "@ + text;
    if text.len() == 0 {
        assert(longer.drop_last() =~= Seq::<char>::empty());
        assert(text =~= Seq::<char>::empty());
        assert(longer.last() == ' ');
        assert(words_so_far(longer.drop_last()) == words_so_far(text));
    } else {
        lemma_leading_space(text.drop_last());
        assert(longer.drop_last() =~= " "@ + text.drop_last());
        assert(longer.last() == text.last());
    }
}

proof fn lemma_spaced_word(words: Seq<Seq<char>>)
    requires
        words.len() > 0,
    ensures
        spaced(words) == " "@ + words[0] + spaced(words.skip(1)),
    decreases words.len(),
{
    if words.len() == 1 {
        assert(words.drop_last() =~= Seq::<Seq<char>>::empty());
        assert(words.skip(1) =~= Seq::<Seq<char>>::empty());
        assert(spaced(words) =~= " "@ + words[0] + spaced(words.skip(1)));
    } else {
        let fewer = words.drop_last();
        lemma_spaced_word(fewer);
        assert(fewer.skip(1) =~= words.skip(1).drop_last());
        assert(words.skip(1).last() == words.last());
        assert(spaced(words) =~= " "@ + words[0] + spaced(words.skip(1)));
    }
}

/// The words of a text that is made of words are those words, and those of the
/// rest.
proof fn lemma_spaced(words: Seq<Seq<char>>, rest: Seq<char>)
    requires
        can_be_written(words, rest),
    ensures
        words_of(spaced(words) + rest) == words + words_of(rest),
        follows_command(spaced(words) + rest),
    decreases words.len(),
{
    reveal_strlit(" ");
    if words.len() == 0 {
        assert(spaced(words) + rest =~= rest);
        assert(words + words_of(rest) =~= words_of(rest));
    } else {
        let others = words.skip(1);
        assert forall|i: int| 0 <= i < others.len() implies is_word(#[trigger] others[i]) by {
            assert(is_word(words[i + 1]));
        }
        lemma_spaced(others, rest);
        lemma_spaced_word(words);
        let tail = spaced(others) + rest;
        assert(spaced(words) + rest =~= " "@ + (words[0] + tail));
        lemma_leading_space(words[0] + tail);
        assert(is_word(words[0]));
        lemma_first_word(words[0], tail);
        assert(words_of(spaced(words) + rest) == words_of(words[0] + tail));
        assert(words + words_of(rest) =~= seq![words[0]] + (others + words_of(rest)));
    }
}

/// A message is read as it is written: the command, its words, and those of the
/// rest.
pub proof fn law_messages_are_read_as_written(
    name: Seq<char>,
    words: Seq<Seq<char>>,
    rest: Seq<char>,
)
    requires
        is_plain_name(name),
        can_be_written(words, rest),
    ensures
        command_in(written(name, words, rest)) == Some(ascii_lowered(name)),
        forall|k: int|
            1 <= k <= words.len() ==> #[trigger] word_at(written(name, words, rest), k) == Some(
                words[k - 1],
            ),
        forall|k: int|
            words.len() < k ==> #[trigger] word_at(written(name, words, rest), k) == word_at(
                rest,
                k - 1 - words.len(),
            ),
{
    let none = Seq::<char>::empty();
    let tail = spaced(words) + rest;
    lemma_spaced(words, rest);
    lemma_message(name, none, tail);
    assert("/"@ + name + none + tail =~= written(name, words, rest));
    assert forall|k: int| 1 <= k <= words.len() implies #[trigger] word_at(
        written(name, words, rest),
        k,
    ) == Some(words[k - 1]) by {
        assert(word_at(written(name, words, rest), k) == word_at(tail, k - 1));
    }
    assert forall|k: int| words.len() < k implies #[trigger] word_at(
        written(name, words, rest),
        k,
    ) == word_at(rest, k - 1 - words.len()) by {
        assert(word_at(written(name, words, rest), k) == word_at(tail, k - 1));
    }
}

// ---------------------------------------------------------------------------
// Names of commands
// ---------------------------------------------------------------------------

/// By its length and its first letter every command is told from the others.
proof fn lemma_names()
    ensures
        "add"@.len() == 3,
        "remove"@.len() == 6 && "remove"@[0] == 'r',
        "users"@.len() == 5 && "users"@[0] == 'u',
        "package"@.len() == 7,
        "tier"@.len() == 4 && "tier"@[0] == 't',
        "packages"@.len() == 8,
        "limits"@.len() == 6 && "limits"@[0] == 'l',
        "limit"@.len() == 5 && "limit"@[0] == 'l',
        "stats"@.len() == 5 && "stats"@[0] == 's',
        "insta"@.len() == 5 && "insta"@[0] == 'i',
        "h"@.len() == 1,
        "ping"@.len() == 4 && "ping"@[0] == 'p',
        "status"@.len() == 6 && "status"@[0] == 's',
        "queue"@.len() == 5 && "queue"@[0] == 'q',
        "help"@.len() == 4 && "help"@[0] == 'h',
        "cancel"@.len() == 6 && "cancel"@[0] == 'c',
        "retry"@.len() == 5 && "retry"@[0] == 'r',
        "clip"@.len() == 4 && "clip"@[0] == 'c',
        "audio"@.len() == 5 && "audio"@[0] == 'a',
        "video"@.len() == 5 && "video"@[0] == 'v',
        "best"@.len() == 4 && "best"@[0] == 'b',
{
    reveal_strlit("add");
    reveal_strlit("remove");
    reveal_strlit("users");
    reveal_strlit("package");
    reveal_strlit("tier");
    reveal_strlit("packages");
    reveal_strlit("limits");
    reveal_strlit("limit");
    reveal_strlit("stats");
    reveal_strlit("insta");
    reveal_strlit("h");
    reveal_strlit("ping");
    reveal_strlit("status");
    reveal_strlit("queue");
    reveal_strlit("help");
    reveal_strlit("cancel");
    reveal_strlit("retry");
    reveal_strlit("clip");
    reveal_strlit("audio");
    reveal_strlit("video");
    reveal_strlit("best");
}

/// Whether a name is written in lower case letters.
spec fn is_small(name: Seq<char>) -> bool {
    name.len() > 0 && forall|i: int| 0 <= i < name.len() ==> 'a' <= #[trigger] name[i] <= 'z'
}

proof fn lemma_small(name: Seq<char>)
    requires
        is_small(name),
    ensures
        is_plain_name(name),
        ascii_lowered(name) == name,
{
    assert(ascii_lowered(name) =~= name);
}

/// What a command asks for, where its name is in lower case.
proof fn lemma_asks(
    name: Seq<char>,
    words: Seq<Seq<char>>,
    rest: Seq<char>,
    urls: Seq<Seq<char>>,
)
    requires
        is_small(name),
        can_be_written(words, rest),
        command_action(name, written(name, words, rest), urls) is Some,
    ensures
        action_of(written(name, words, rest), urls) == command_action(
            name,
            written(name, words, rest),
            urls,
        )->0,
{
    lemma_small(name);
    law_messages_are_read_as_written(name, words, rest);
}

// ---------------------------------------------------------------------------
// Numbers
// ---------------------------------------------------------------------------

/// A number in decimal is a word, and is read as what it is.
proof fn lemma_decimal_is_read(number: nat)
    ensures
        is_word(decimal(number)),
        is_digit(decimal(number)[0]),
        number <= u32::MAX ==> u32_in(decimal(number)) == Some(number as u32),
        number <= u64::MAX ==> u64_in(decimal(number)) == Some(number as u64),
        number <= i64::MAX ==> i64_in(decimal(number)) == Some(number as i64),
        number > i64::MAX ==> i64_in(decimal(number)) is None,
        number > u64::MAX ==> u64_in(decimal(number)) is None,
        number > u32::MAX ==> u32_in(decimal(number)) is None,
{
    let text = decimal(number);
    law_decimal_reads_back(number);
    assert(is_digit(text[0]));
    assert forall|i: int| 0 <= i < text.len() implies !is_white_space(#[trigger] text[i]) by {
        assert(is_digit(text[i]));
    }
}

/// A word that starts neither with a digit nor with a sign is no number.
proof fn lemma_no_number(text: Seq<char>)
    requires
        text.len() > 0,
        !is_digit(text[0]),
        text[0] != '+',
    ensures
        u64_in(text) is None,
        u32_in(text) is None,
        text[0] != '-' ==> i64_in(text) is None,
{
    assert(!all_digits(text)) by {
        if all_digits(text) {
            assert(is_digit(text[0]));
        }
    }
}

proof fn lemma_trailing(text: Seq<char>, marks: Seq<char>)
    ensures
        without_trailing(text, marks).len() <= text.len(),
        without_trailing(text, marks) == text.take(without_trailing(text, marks).len() as int),
        text.len() > 0 && !marks.contains(text.last()) ==> without_trailing(text, marks) == text,
    decreases text.len(),
{
    if text.len() > 0 && marks.contains(text.last()) {
        lemma_trailing(text.drop_last(), marks);
    }
    assert(without_trailing(text, marks) =~= text.take(without_trailing(text, marks).len() as int));
}

// ---------------------------------------------------------------------------
// Downloads
// ---------------------------------------------------------------------------

/// A mark that may follow a height.
pub open spec fn is_height_mark(mark: Seq<char>) -> bool {
    mark.len() == 0 || mark == "p"@ || mark == "P"@
}

/// `/video` with a height asks for each link as a video up to that height, with a
/// `p` behind the number or without.
pub proof fn law_heights_are_asked_for(
    height: u32,
    mark: Seq<char>,
    rest: Seq<char>,
    urls: Seq<Seq<char>>,
)
    requires
        is_height_mark(mark),
        follows_command(rest),
        urls.len() > 0,
    ensures
        downloads_each(
            action_of(written("video"@, seq![decimal(height as nat) + mark], rest), urls),
            urls,
            DownloadMode::Video { max_height: Some(height) },
        ),
{
    let number = decimal(height as nat);
    let word = number + mark;
    let words = seq![word];
    reveal_strlit("p");
    reveal_strlit("P");
    reveal_strlit("pP");
    lemma_decimal_is_read(height as nat);
    law_decimal_reads_back(height as nat);
    assert(word[0] == number[0]);
    assert forall|i: int| 0 <= i < word.len() implies !is_white_space(#[trigger] word[i]) by {
        if i < number.len() {
            assert(!is_white_space(number[i]));
        }
    }
    assert(is_word(words[0]));
    assert(is_digit(number[number.len() - 1]));
    assert(!"pP"@.contains(number.last()));
    lemma_trailing(number, "pP"@);
    if mark.len() == 0 {
        assert(word =~= number);
    } else {
        assert(word.drop_last() =~= number);
        assert("pP"@[0] == 'p' && "pP"@[1] == 'P');
        assert("pP"@.contains(word.last()));
    }
    assert(without_trailing(word, "pP"@) == number);
    reveal_strlit("http://");
    reveal_strlit("https://");
    assert(!"http://"@.is_prefix_of(word)) by {
        if "http://"@.is_prefix_of(word) {
            assert("http://"@[0] == word.subrange(0, 7)[0]);
        }
    }
    assert(!"https://"@.is_prefix_of(word)) by {
        if "https://"@.is_prefix_of(word) {
            assert("https://"@[0] == word.subrange(0, 8)[0]);
        }
    }
    let text = written("video"@, words, rest);
    assert(is_small("video"@)) by {
        reveal_strlit("video");
    }
    lemma_small("video"@);
    law_messages_are_read_as_written("video"@, words, rest);
    assert(word_at(text, 1) == Some(words[0]));
    lemma_names();
    lemma_asks("video"@, words, rest, urls);
}

/// `/video` with a link behind it, or with anything else that is not a number,
/// asks for each link as a video of any height.
pub proof fn law_links_are_not_heights(word: Seq<char>, rest: Seq<char>, urls: Seq<Seq<char>>)
    requires
        is_word(word),
        !is_digit(word[0]),
        word[0] != '+',
        follows_command(rest),
        urls.len() > 0,
    ensures
        downloads_each(
            action_of(written("video"@, seq![word], rest), urls),
            urls,
            DownloadMode::Video { max_height: None },
        ),
{
    let words = seq![word];
    lemma_trailing(word, "pP"@);
    let number = without_trailing(word, "pP"@);
    if number.len() > 0 {
        assert(number[0] == word[0]);
        lemma_no_number(number);
    }
    assert(is_word(words[0]));
    let text = written("video"@, words, rest);
    assert(is_small("video"@)) by {
        reveal_strlit("video");
    }
    lemma_small("video"@);
    law_messages_are_read_as_written("video"@, words, rest);
    assert(word_at(text, 1) == Some(words[0]));
    lemma_names();
    lemma_asks("video"@, words, rest, urls);
}

/// `/audio` asks for the sound of each link, and `/best` for each link as a video
/// of any height, whatever else is said.
pub proof fn law_sound_and_best_are_asked_for(
    words: Seq<Seq<char>>,
    rest: Seq<char>,
    urls: Seq<Seq<char>>,
)
    requires
        can_be_written(words, rest),
        urls.len() > 0,
    ensures
        downloads_each(
            action_of(written("audio"@, words, rest), urls),
            urls,
            DownloadMode::Audio,
        ),
        downloads_each(
            action_of(written("best"@, words, rest), urls),
            urls,
            DownloadMode::Video { max_height: None },
        ),
{
    assert(is_small("audio"@)) by {
        reveal_strlit("audio");
    }
    assert(is_small("best"@)) by {
        reveal_strlit("best");
    }
    lemma_names();
    lemma_asks("audio"@, words, rest, urls);
    lemma_asks("best"@, words, rest, urls);
}

/// Who asks for a download and gives no link is told how to.
pub proof fn law_downloads_need_links(words: Seq<Seq<char>>, rest: Seq<char>)
    requires
        can_be_written(words, rest),
    ensures
        action_of(written("audio"@, words, rest), Seq::empty()) == ActionView::Reply(
            "Usage: /audio <url>"@,
        ),
        action_of(written("best"@, words, rest), Seq::empty()) == ActionView::Reply(
            "Usage: /video [height] <url> or /best <url>"@,
        ),
        action_of(written("video"@, words, rest), Seq::empty()) == ActionView::Reply(
            "Usage: /video [height] <url> or /best <url>"@,
        ),
        action_of(written("clip"@, words, rest), Seq::empty()) == ActionView::Reply(
            "Usage: /clip <start> <end> <url> (timestamps: SS, MM:SS, or HH:MM:SS[.mmm])"@,
        ),
{
    let none = Seq::<Seq<char>>::empty();
    assert(is_small("audio"@)) by {
        reveal_strlit("audio");
    }
    assert(is_small("best"@)) by {
        reveal_strlit("best");
    }
    assert(is_small("video"@)) by {
        reveal_strlit("video");
    }
    assert(is_small("clip"@)) by {
        reveal_strlit("clip");
    }
    lemma_names();
    lemma_asks("audio"@, words, rest, none);
    lemma_asks("best"@, words, rest, none);
    lemma_asks("video"@, words, rest, none);
    lemma_asks("clip"@, words, rest, none);
}

/// A message that does not start with a slash asks for each of its links as a
/// video of any height, and for nothing if there is none.
pub proof fn law_plain_messages_ask_for_their_links(text: Seq<char>, urls: Seq<Seq<char>>)
    requires
        text.len() > 0,
        !is_white_space(text[0]),
        text[0] != '/',
    ensures
        urls.len() > 0 ==> downloads_each(
            action_of(text, urls),
            urls,
            DownloadMode::Video { max_height: None },
        ),
        urls.len() == 0 ==> action_of(text, urls) == ActionView::Nothing,
{
    reveal_strlit("/");
    lemma_words(text);
    let first = words_of(text)[0];
    assert(is_word(first));
    assert(!"/"@.is_prefix_of(first)) by {
        if "/"@.is_prefix_of(first) {
            assert("/"@[0] == first.subrange(0, 1)[0]);
        }
    }
}

/// Whether a name, in lower case, is that of a command.
pub open spec fn is_command(name: Seq<char>) -> bool {
    ||| name == "add"@
    ||| name == "remove"@
    ||| name == "users"@
    ||| name == "package"@
    ||| name == "tier"@
    ||| name == "packages"@
    ||| name == "limits"@
    ||| name == "limit"@
    ||| name == "stats"@
    ||| name == "insta"@
    ||| name == "h"@
    ||| name == "ping"@
    ||| name == "status"@
    ||| name == "queue"@
    ||| name == "help"@
    ||| name == "cancel"@
    ||| name == "retry"@
    ||| name == "clip"@
    ||| name == "audio"@
    ||| name == "video"@
    ||| name == "best"@
}

/// A message that starts with a command nobody knows is read like one without.
pub proof fn law_unknown_commands_are_ignored(
    name: Seq<char>,
    words: Seq<Seq<char>>,
    rest: Seq<char>,
    urls: Seq<Seq<char>>,
)
    requires
        is_plain_name(name),
        !is_command(ascii_lowered(name)),
        can_be_written(words, rest),
    ensures
        urls.len() > 0 ==> downloads_each(
            action_of(written(name, words, rest), urls),
            urls,
            DownloadMode::Video { max_height: None },
        ),
        urls.len() == 0 ==> action_of(written(name, words, rest), urls) == ActionView::Nothing,
{
    law_messages_are_read_as_written(name, words, rest);
}

// ---------------------------------------------------------------------------
// Clips
// ---------------------------------------------------------------------------

proof fn lemma_timestamp_is_word(millis: nat)
    ensures
        is_word(clip_timestamp(millis)),
{
    let text = clip_timestamp(millis);
    let seconds = millis / 1_000;
    let minutes = seconds / 60;
    let hours = minutes / 60;
    law_decimal_reads_back(minutes);
    law_decimal_reads_back(hours);
    lemma_padded_reads_back(seconds % 60, 2);
    lemma_padded_reads_back(minutes % 60, 2);
    lemma_padded_reads_back(millis % 1_000, 3);
    reveal_strlit(":");
    reveal_strlit(".");
    lemma_digits_are_words(decimal(minutes));
    lemma_digits_are_words(decimal(hours));
    lemma_digits_are_words(padded_decimal(seconds % 60, 2));
    lemma_digits_are_words(padded_decimal(minutes % 60, 2));
    lemma_digits_are_words(padded_decimal(millis % 1_000, 3));
    lemma_words_joined(decimal(minutes), ":"@);
    lemma_words_joined(decimal(minutes) + ":"@, padded_decimal(seconds % 60, 2));
    lemma_words_joined(decimal(hours), ":"@);
    lemma_words_joined(decimal(hours) + ":"@, padded_decimal(minutes % 60, 2));
    let front = decimal(hours) + ":"@ + padded_decimal(minutes % 60, 2);
    lemma_words_joined(front, ":"@);
    lemma_words_joined(front + ":"@, padded_decimal(seconds % 60, 2));
    let whole = if hours == 0 {
        decimal(minutes) + ":"@ + padded_decimal(seconds % 60, 2)
    } else {
        front + ":"@ + padded_decimal(seconds % 60, 2)
    };
    lemma_words_joined(whole, "."@);
    lemma_words_joined(whole + "."@, padded_decimal(millis % 1_000, 3));
}

proof fn lemma_digits_are_words(text: Seq<char>)
    requires
        all_digits(text),
        text.len() > 0,
    ensures
        is_word(text),
{
    assert forall|i: int| 0 <= i < text.len() implies !is_white_space(#[trigger] text[i]) by {
        assert(is_digit(text[i]));
    }
}

proof fn lemma_words_joined(one: Seq<char>, other: Seq<char>)
    requires
        is_word(one),
        is_word(other),
    ensures
        is_word(one + other),
{
    let both = one + other;
    assert forall|i: int| 0 <= i < both.len() implies !is_white_space(#[trigger] both[i]) by {
        if i < one.len() {
            assert(!is_white_space(one[i]));
        } else {
            assert(!is_white_space(other[i - one.len()]));
        }
    }
}

/// The span of so many milliseconds.
pub open spec fn span_of(millis: u64) -> Duration {
    Duration::of((millis / 1_000) as u64, ((millis % 1_000) * 1_000_000) as u32)
}

/// `/clip` with two positions asks for the section between them of each link, if
/// the second is later, and is not understood otherwise.
pub proof fn law_clips_are_asked_for(
    start: u64,
    end: u64,
    rest: Seq<char>,
    urls: Seq<Seq<char>>,
)
    requires
        follows_command(rest),
        urls.len() > 0,
    ensures
        ({
            let words = seq![clip_timestamp(start as nat), clip_timestamp(end as nat)];
            let action = action_of(written("clip"@, words, rest), urls);
            let range = ClipRange::between(span_of(start), span_of(end));
            &&& start < end ==> downloads_each(action, urls, DownloadMode::Clip(range))
            &&& range.starts().total_millis() == start
            &&& range.ends().total_millis() == end
            &&& start >= end ==> action == ActionView::Reply(
                "Usage: /clip <start> <end> <url> (timestamps: SS, MM:SS, or HH:MM:SS[.mmm])"@,
            )
        }),
{
    let words = seq![clip_timestamp(start as nat), clip_timestamp(end as nat)];
    lemma_timestamp_is_word(start as nat);
    lemma_timestamp_is_word(end as nat);
    assert forall|i: int| 0 <= i < words.len() implies is_word(#[trigger] words[i]) by {}
    law_clip_timestamps_read_back(start as nat);
    law_clip_timestamps_read_back(end as nat);
    law_sections_keep_their_bounds(span_of(start), span_of(end));
    law_spans_hold_what_they_are_made_of(
        (start / 1_000) as u64,
        ((start % 1_000) * 1_000_000) as u32,
    );
    law_spans_hold_what_they_are_made_of((end / 1_000) as u64, ((end % 1_000) * 1_000_000) as u32);
    assert(is_small("clip"@)) by {
        reveal_strlit("clip");
    }
    lemma_small("clip"@);
    law_messages_are_read_as_written("clip"@, words, rest);
    let text = written("clip"@, words, rest);
    assert(word_at(text, 1) == Some(words[0]));
    assert(word_at(text, 2) == Some(words[1]));
    lemma_names();
    lemma_asks("clip"@, words, rest, urls);
}

/// `/clip` with anything but two timestamps is not understood.
pub proof fn law_clips_need_timestamps(
    first: Seq<char>,
    second: Seq<char>,
    rest: Seq<char>,
    urls: Seq<Seq<char>>,
)
    requires
        is_word(first),
        is_word(second),
        follows_command(rest),
        timestamp_in(first) is None || timestamp_in(second) is None,
    ensures
        action_of(written("clip"@, seq![first, second], rest), urls) == ActionView::Reply(
            "Usage: /clip <start> <end> <url> (timestamps: SS, MM:SS, or HH:MM:SS[.mmm])"@,
        ),
        action_of(written("clip"@, seq![first], Seq::empty()), urls) == ActionView::Reply(
            "Usage: /clip <start> <end> <url> (timestamps: SS, MM:SS, or HH:MM:SS[.mmm])"@,
        ),
{
    let words = seq![first, second];
    let one = seq![first];
    let none = Seq::<char>::empty();
    assert forall|i: int| 0 <= i < words.len() implies is_word(#[trigger] words[i]) by {}
    assert forall|i: int| 0 <= i < one.len() implies is_word(#[trigger] one[i]) by {}
    assert(is_small("clip"@)) by {
        reveal_strlit("clip");
    }
    lemma_small("clip"@);
    law_messages_are_read_as_written("clip"@, words, rest);
    law_messages_are_read_as_written("clip"@, one, none);
    assert(word_at(written("clip"@, words, rest), 1) == Some(words[0]));
    assert(word_at(written("clip"@, words, rest), 2) == Some(words[1]));
    assert(word_at(written("clip"@, one, none), 2) == word_at(none, 0));
    lemma_names();
    lemma_asks("clip"@, words, rest, urls);
    lemma_asks("clip"@, one, none, urls);
}

/// Seconds alone, minutes and seconds, or hours, minutes and seconds: what stands
/// behind a larger unit stays under sixty.
pub proof fn law_timestamps_are_clock_times(hours: nat, minutes: nat, seconds: nat)
    ensures
        timestamp_millis(decimal(seconds)) == Some(seconds * 1_000),
        timestamp_millis(decimal(minutes) + ":"@ + decimal(seconds)) == (if seconds < 60 {
            Some((minutes * 60 + seconds) * 1_000)
        } else {
            None
        }),
        timestamp_millis(decimal(hours) + ":"@ + decimal(minutes) + ":"@ + decimal(seconds)) == (
        if minutes < 60 && seconds < 60 {
            Some((hours * 3_600 + minutes * 60 + seconds) * 1_000)
        } else {
            None
        }),
{
    reveal_strlit(":");
    law_decimal_reads_back(hours);
    law_decimal_reads_back(minutes);
    law_decimal_reads_back(seconds);
    lemma_digits_are_unbroken(decimal(hours));
    lemma_digits_are_unbroken(decimal(minutes));
    lemma_digits_are_unbroken(decimal(seconds));
    lemma_split_whole(decimal(seconds), '.');
    lemma_split_whole(decimal(seconds), ':');
    lemma_split_whole(decimal(minutes), ':');
    lemma_split_whole(decimal(hours), ':');
    lemma_split_after(decimal(minutes), decimal(seconds), ':');
    assert(decimal(minutes) + ":"@ + decimal(seconds) =~= decimal(minutes).push(':') + decimal(
        seconds,
    ));
    let front = decimal(hours).push(':') + decimal(minutes);
    lemma_split_after(decimal(hours), decimal(minutes), ':');
    lemma_split_after(front, decimal(seconds), ':');
    assert(decimal(hours) + ":"@ + decimal(minutes) + ":"@ + decimal(seconds) =~= front.push(':')
        + decimal(seconds));
}

/// One to three digits behind the seconds are tenths, hundredths or thousandths.
pub proof fn law_timestamps_have_fractions(seconds: nat, fraction: nat)
    ensures
        fraction < 10 ==> timestamp_millis(decimal(seconds) + "."@ + padded_decimal(fraction, 1))
            == Some(seconds * 1_000 + fraction * 100),
        fraction < 100 ==> timestamp_millis(decimal(seconds) + "."@ + padded_decimal(fraction, 2))
            == Some(seconds * 1_000 + fraction * 10),
        fraction < 1_000 ==> timestamp_millis(decimal(seconds) + "."@ + padded_decimal(fraction, 3))
            == Some(seconds * 1_000 + fraction),
{
    if fraction < 10 {
        lemma_fraction(seconds, fraction, 1);
    }
    if fraction < 100 {
        lemma_fraction(seconds, fraction, 2);
    }
    if fraction < 1_000 {
        lemma_fraction(seconds, fraction, 3);
    }
}

proof fn lemma_fraction(seconds: nat, fraction: nat, width: nat)
    requires
        1 <= width <= 3,
        fraction < 10 || width >= 2,
        fraction < 100 || width >= 3,
        fraction < 1_000,
    ensures
        timestamp_millis(decimal(seconds) + "."@ + padded_decimal(fraction, width)) == Some(
            seconds * 1_000 + fraction * (if width == 1 {
                100nat
            } else if width == 2 {
                10
            } else {
                1
            }),
        ),
{
    reveal_strlit(".");
    let whole = decimal(seconds);
    let digits = padded_decimal(fraction, width);
    let text = whole + "."@ + digits;
    law_decimal_reads_back(seconds);
    lemma_padded_reads_back(fraction, width);
    lemma_digits_are_unbroken(whole);
    lemma_digits_are_unbroken(digits);
    lemma_split_whole(whole, '.');
    lemma_split_after(whole, digits, '.');
    assert(text =~= whole.push('.') + digits);
    assert forall|i: int| 0 <= i < text.len() implies text[i] != ':' by {
        if i < whole.len() {
            assert(whole.contains(whole[i]));
        } else if i > whole.len() {
            assert(digits.contains(digits[i - whole.len() - 1]));
        }
    }
    assert(!text.contains(':'));
    lemma_split_whole(text, ':');
}

// ---------------------------------------------------------------------------
// Users, limits and statistics
// ---------------------------------------------------------------------------

/// `/add` and `/remove` name a user by a number above zero; with any other word,
/// or none, they name nobody.
pub proof fn law_users_are_named_by_number(id: nat, rest: Seq<char>, urls: Seq<Seq<char>>)
    requires
        follows_command(rest),
    ensures
        ({
            let words = seq![decimal(id)];
            let named = if 0 < id <= i64::MAX {
                Some(id as i64)
            } else {
                None
            };
            &&& action_of(written("add"@, words, rest), urls) == ActionView::AddUser(named)
            &&& action_of(written("remove"@, words, rest), urls) == ActionView::RemoveUser(named)
        }),
{
    let words = seq![decimal(id)];
    lemma_decimal_is_read(id);
    assert(is_word(words[0]));
    assert(is_small("add"@)) by {
        reveal_strlit("add");
    }
    assert(is_small("remove"@)) by {
        reveal_strlit("remove");
    }
    lemma_small("add"@);
    lemma_small("remove"@);
    law_messages_are_read_as_written("add"@, words, rest);
    law_messages_are_read_as_written("remove"@, words, rest);
    assert(word_at(written("add"@, words, rest), 1) == Some(words[0]));
    assert(word_at(written("remove"@, words, rest), 1) == Some(words[0]));
    lemma_names();
    lemma_asks("add"@, words, rest, urls);
    lemma_asks("remove"@, words, rest, urls);
}

/// `/package` gives a user a package, and `/tier` does the same: both are read
/// from the two words behind it.
pub proof fn law_packages_are_asked_for(
    id: nat,
    package: Seq<char>,
    rest: Seq<char>,
    urls: Seq<Seq<char>>,
)
    requires
        0 < id <= i64::MAX,
        is_word(package),
        follows_command(rest),
    ensures
        ({
            let words = seq![decimal(id), package];
            let wanted = ActionView::SetUserPackage {
                user_id: Some(id as i64),
                package: package_in(package),
            };
            &&& action_of(written("package"@, words, rest), urls) == wanted
            &&& action_of(written("tier"@, words, rest), urls) == wanted
        }),
{
    let words = seq![decimal(id), package];
    lemma_decimal_is_read(id);
    assert forall|i: int| 0 <= i < words.len() implies is_word(#[trigger] words[i]) by {}
    assert(is_small("package"@)) by {
        reveal_strlit("package");
    }
    assert(is_small("tier"@)) by {
        reveal_strlit("tier");
    }
    lemma_small("package"@);
    lemma_small("tier"@);
    law_messages_are_read_as_written("package"@, words, rest);
    law_messages_are_read_as_written("tier"@, words, rest);
    assert(word_at(written("package"@, words, rest), 1) == Some(words[0]));
    assert(word_at(written("package"@, words, rest), 2) == Some(words[1]));
    assert(word_at(written("tier"@, words, rest), 1) == Some(words[0]));
    assert(word_at(written("tier"@, words, rest), 2) == Some(words[1]));
    lemma_names();
    lemma_asks("package"@, words, rest, urls);
    lemma_asks("tier"@, words, rest, urls);
}

/// `/limit` sets a limit of a user: all of it is read from the three words behind
/// it.
pub proof fn law_limits_are_asked_for(
    id: nat,
    name: Seq<char>,
    value: Seq<char>,
    rest: Seq<char>,
    urls: Seq<Seq<char>>,
)
    requires
        0 < id <= i64::MAX,
        is_word(name),
        is_word(value),
        follows_command(rest),
    ensures
        action_of(written("limit"@, seq![decimal(id), name, value], rest), urls) == (
        ActionView::SetUserLimit {
            user_id: Some(id as i64),
            name: limit_name_in(name),
            value: limit_value_in(value),
        }),
{
    let words = seq![decimal(id), name, value];
    lemma_decimal_is_read(id);
    assert forall|i: int| 0 <= i < words.len() implies is_word(#[trigger] words[i]) by {}
    assert(is_small("limit"@)) by {
        reveal_strlit("limit");
    }
    lemma_small("limit"@);
    law_messages_are_read_as_written("limit"@, words, rest);
    let text = written("limit"@, words, rest);
    assert(word_at(text, 1) == Some(words[0]));
    assert(word_at(text, 2) == Some(words[1]));
    assert(word_at(text, 3) == Some(words[2]));
    lemma_names();
    lemma_asks("limit"@, words, rest, urls);
}

/// `/limits` and `/stats` are about the one who asks, or about the user whose
/// number is given; `/stats all` is about everyone.
pub proof fn law_limits_and_statistics_are_shown(
    id: nat,
    word: Seq<char>,
    rest: Seq<char>,
    urls: Seq<Seq<char>>,
)
    requires
        0 < id <= i64::MAX,
        is_word(word),
        follows_command(rest),
    ensures
        ({
            let nothing = Seq::<Seq<char>>::empty();
            let number = seq![decimal(id)];
            let other = seq![word];
            let none = Seq::<char>::empty();
            &&& action_of(written("limits"@, nothing, none), urls) == ActionView::ShowUserLimits(
                None,
            )
            &&& action_of(written("limits"@, number, rest), urls) == ActionView::ShowUserLimits(
                Some(id as i64),
            )
            &&& i64_in(word) is None ==> action_of(written("limits"@, other, rest), urls)
                == ActionView::Reply("Usage: /limits [user-id]"@)
            &&& action_of(written("stats"@, nothing, none), urls) == ActionView::ShowStats(
                StatsTarget::Own,
            )
            &&& action_of(written("stats"@, number, rest), urls) == ActionView::ShowStats(
                StatsTarget::User(id as i64),
            )
            &&& equal_ignoring_ascii_case(word, "all"@) ==> action_of(
                written("stats"@, other, rest),
                urls,
            ) == ActionView::ShowStats(StatsTarget::All)
            &&& i64_in(word) is None && !equal_ignoring_ascii_case(word, "all"@) ==> action_of(
                written("stats"@, other, rest),
                urls,
            ) == ActionView::Reply("Usage: /stats [user-id|all]"@)
        }),
{
    let nothing = Seq::<Seq<char>>::empty();
    let number = seq![decimal(id)];
    let other = seq![word];
    let none = Seq::<char>::empty();
    lemma_decimal_is_read(id);
    assert(is_word(number[0]));
    assert(is_word(other[0]));
    assert(is_small("limits"@)) by {
        reveal_strlit("limits");
    }
    assert(is_small("stats"@)) by {
        reveal_strlit("stats");
    }
    assert(!equal_ignoring_ascii_case(decimal(id), "all"@)) by {
        reveal_strlit("all");
        assert(ascii_lowered(decimal(id))[0] == ascii_lower(decimal(id)[0]));
        assert(ascii_lowered("all"@)[0] == 'a');
    }
    lemma_small("limits"@);
    lemma_small("stats"@);
    law_messages_are_read_as_written("limits"@, nothing, none);
    law_messages_are_read_as_written("limits"@, number, rest);
    law_messages_are_read_as_written("limits"@, other, rest);
    law_messages_are_read_as_written("stats"@, nothing, none);
    law_messages_are_read_as_written("stats"@, number, rest);
    law_messages_are_read_as_written("stats"@, other, rest);
    assert(word_at(written("limits"@, nothing, none), 1) == word_at(none, 0));
    assert(word_at(written("limits"@, number, rest), 1) == Some(number[0]));
    assert(word_at(written("limits"@, other, rest), 1) == Some(other[0]));
    assert(word_at(written("stats"@, nothing, none), 1) == word_at(none, 0));
    assert(word_at(written("stats"@, number, rest), 1) == Some(number[0]));
    assert(word_at(written("stats"@, other, rest), 1) == Some(other[0]));
    lemma_names();
    lemma_asks("limits"@, nothing, none, urls);
    lemma_asks("limits"@, number, rest, urls);
    lemma_asks("limits"@, other, rest, urls);
    lemma_asks("stats"@, nothing, none, urls);
    lemma_asks("stats"@, number, rest, urls);
    lemma_asks("stats"@, other, rest, urls);
}

// ---------------------------------------------------------------------------
// Jobs and the rest
// ---------------------------------------------------------------------------

/// `/cancel` is about the job whose number is given, if one is.
pub proof fn law_cancellations_name_a_job(
    id: u64,
    word: Seq<char>,
    rest: Seq<char>,
    urls: Seq<Seq<char>>,
)
    requires
        is_word(word),
        !is_digit(word[0]),
        word[0] != '+',
        follows_command(rest),
    ensures
        action_of(written("cancel"@, seq![decimal(id as nat)], rest), urls) == ActionView::Cancel(
            Some(id),
        ),
        action_of(written("cancel"@, seq![word], rest), urls) == ActionView::Cancel(None),
        action_of(written("cancel"@, Seq::empty(), Seq::empty()), urls) == ActionView::Cancel(None),
{
    let nothing = Seq::<Seq<char>>::empty();
    let number = seq![decimal(id as nat)];
    let other = seq![word];
    let none = Seq::<char>::empty();
    lemma_decimal_is_read(id as nat);
    lemma_no_number(word);
    assert(is_word(number[0]));
    assert(is_word(other[0]));
    assert(is_small("cancel"@)) by {
        reveal_strlit("cancel");
    }
    lemma_small("cancel"@);
    law_messages_are_read_as_written("cancel"@, nothing, none);
    law_messages_are_read_as_written("cancel"@, number, rest);
    law_messages_are_read_as_written("cancel"@, other, rest);
    assert(word_at(written("cancel"@, nothing, none), 1) == word_at(none, 0));
    assert(word_at(written("cancel"@, number, rest), 1) == Some(number[0]));
    assert(word_at(written("cancel"@, other, rest), 1) == Some(other[0]));
    lemma_names();
    lemma_asks("cancel"@, nothing, none, urls);
    lemma_asks("cancel"@, number, rest, urls);
    lemma_asks("cancel"@, other, rest, urls);
}

/// `/users` and `/packages` ask for lists, and `/insta` hands in cookies, whatever is
/// said behind them.
pub proof fn law_lists_are_asked_for(
    words: Seq<Seq<char>>,
    rest: Seq<char>,
    urls: Seq<Seq<char>>,
)
    requires
        can_be_written(words, rest),
    ensures
        action_of(written("users"@, words, rest), urls) == ActionView::ListUsers,
        action_of(written("packages"@, words, rest), urls) == ActionView::ListPackages,
        action_of(written("insta"@, words, rest), urls) == ActionView::InstagramCookies,
{
    assert(action_of(written("users"@, words, rest), urls) == ActionView::ListUsers) by {
        assert(is_small("users"@)) by {
            reveal_strlit("users");
        }
        lemma_names();
        lemma_asks("users"@, words, rest, urls);
    }
    assert(action_of(written("packages"@, words, rest), urls) == ActionView::ListPackages) by {
        assert(is_small("packages"@)) by {
            reveal_strlit("packages");
        }
        lemma_names();
        lemma_asks("packages"@, words, rest, urls);
    }
    assert(action_of(written("insta"@, words, rest), urls) == ActionView::InstagramCookies) by {
        assert(is_small("insta"@)) by {
            reveal_strlit("insta");
        }
        lemma_names();
        lemma_asks("insta"@, words, rest, urls);
    }
}

/// `/ping` and `/h` ask for a sign of life, and `/status` and `/queue` for the state
/// of the queue, whatever is said behind them.
pub proof fn law_signs_of_life_are_asked_for(
    words: Seq<Seq<char>>,
    rest: Seq<char>,
    urls: Seq<Seq<char>>,
)
    requires
        can_be_written(words, rest),
    ensures
        action_of(written("ping"@, words, rest), urls) == ActionView::HealthCheck,
        action_of(written("h"@, words, rest), urls) == ActionView::HealthCheck,
        action_of(written("status"@, words, rest), urls) == ActionView::QueueStatus,
        action_of(written("queue"@, words, rest), urls) == ActionView::QueueStatus,
{
    assert(action_of(written("ping"@, words, rest), urls) == ActionView::HealthCheck) by {
        assert(is_small("ping"@)) by {
            reveal_strlit("ping");
        }
        lemma_names();
        lemma_asks("ping"@, words, rest, urls);
    }
    assert(action_of(written("h"@, words, rest), urls) == ActionView::HealthCheck) by {
        assert(is_small("h"@)) by {
            reveal_strlit("h");
        }
        lemma_names();
        lemma_asks("h"@, words, rest, urls);
    }
    assert(action_of(written("status"@, words, rest), urls) == ActionView::QueueStatus) by {
        assert(is_small("status"@)) by {
            reveal_strlit("status");
        }
        lemma_names();
        lemma_asks("status"@, words, rest, urls);
    }
    assert(action_of(written("queue"@, words, rest), urls) == ActionView::QueueStatus) by {
        assert(is_small("queue"@)) by {
            reveal_strlit("queue");
        }
        lemma_names();
        lemma_asks("queue"@, words, rest, urls);
    }
}

/// `/retry` asks for another try, and `/help` for the list of commands, whatever is
/// said behind them.
pub proof fn law_retries_and_help_are_asked_for(
    words: Seq<Seq<char>>,
    rest: Seq<char>,
    urls: Seq<Seq<char>>,
)
    requires
        can_be_written(words, rest),
    ensures
        action_of(written("retry"@, words, rest), urls) == ActionView::Retry,
        action_of(written("help"@, words, rest), urls) == ActionView::Reply(crate::commands::HELP@),
{
    assert(action_of(written("retry"@, words, rest), urls) == ActionView::Retry) by {
        assert(is_small("retry"@)) by {
            reveal_strlit("retry");
        }
        lemma_names();
        lemma_asks("retry"@, words, rest, urls);
    }
    assert(action_of(written("help"@, words, rest), urls) == ActionView::Reply(crate::commands::HELP@)) by {
        assert(is_small("help"@)) by {
            reveal_strlit("help");
        }
        lemma_names();
        lemma_asks("help"@, words, rest, urls);
    }
}

} // verus!
