//! What a message asks for.

use vstd::prelude::*;

use crate::links::{regex_matches, UrlPattern};
use crate::media::downloader::clip_timestamp;
use crate::media::request::{ClipRange, DownloadMode, DownloadRequest, RequestView};
use crate::number::{
    all_digits, decimal, digits_value, i64_in, law_decimal_reads_back, lemma_padded_reads_back,
    padded_decimal, parse_digits, parse_i64, parse_u32, parse_u64, u32_in, u64_in,
};
use crate::policy::{
    limit_name_in, limit_value_in, package_in, PackageName, UserLimitName, UserLimitValue,
};
use crate::text::{
    ascii_lowered, eq_ignore_ascii_case, equal_ignoring_ascii_case, is_ascii_alphanumeric,
    is_white_space, is_word, lemma_first_word, lemma_split_after, lemma_split_has_a_part,
    lemma_split_whole, lowercase, lowered, same_text, split, split_parts, starts_with,
    strip_prefix, stripped_prefix, texts, trim_trailing, without_trailing, words, words_of,
};
use crate::time::Duration;

verus! {

pub const CLIP_USAGE: &'static str =
    "Usage: /clip <start> <end> <url> (timestamps: SS, MM:SS, or HH:MM:SS[.mmm])";

pub const HELP: &'static str =
    "Send links, or use /audio <url>, /video [height] <url>, /best <url>, /clip <start> <end> <url>, /cancel <job-id>, /retry, /status, /limits, /stats, /packages, or /ping. Superusers can use /add, /remove, /package <user-id> <name> (legacy alias: /tier), /limit, /stats all, and /users.";

/// Whose statistics are asked for.
#[derive(Clone, Copy, Debug, PartialEq, Eq, Structural)]
pub enum StatsTarget {
    Own,
    User(i64),
    All,
}

/// What a message asks for. A part that was asked for but could not be read is
/// `None`.
pub enum MessageAction {
    AddUser(Option<i64>),
    RemoveUser(Option<i64>),
    ListUsers,
    SetUserPackage { user_id: Option<i64>, package: Option<PackageName> },
    ListPackages,
    ShowUserLimits(Option<i64>),
    SetUserLimit {
        user_id: Option<i64>,
        name: Option<UserLimitName>,
        value: Option<UserLimitValue>,
    },
    ShowStats(StatsTarget),
    InstagramCookies,
    HealthCheck,
    QueueStatus,
    Cancel(Option<u64>),
    Retry,
    Downloads(Vec<DownloadRequest>),
    Reply(&'static str),
    Nothing,
}

/// An action, its texts taken as sequences of characters.
pub ghost enum ActionView {
    AddUser(Option<i64>),
    RemoveUser(Option<i64>),
    ListUsers,
    SetUserPackage { user_id: Option<i64>, package: Option<Seq<char>> },
    ListPackages,
    ShowUserLimits(Option<i64>),
    SetUserLimit {
        user_id: Option<i64>,
        name: Option<UserLimitName>,
        value: Option<UserLimitValue>,
    },
    ShowStats(StatsTarget),
    InstagramCookies,
    HealthCheck,
    QueueStatus,
    Cancel(Option<u64>),
    Retry,
    Downloads(Seq<RequestView>),
    Reply(Seq<char>),
    Nothing,
}

pub open spec fn request_views(requests: Seq<DownloadRequest>) -> Seq<RequestView> {
    requests.map_values(|request: DownloadRequest| request@)
}

impl View for MessageAction {
    type V = ActionView;

    open spec fn view(&self) -> ActionView {
        match *self {
            MessageAction::AddUser(id) => ActionView::AddUser(id),
            MessageAction::RemoveUser(id) => ActionView::RemoveUser(id),
            MessageAction::ListUsers => ActionView::ListUsers,
            MessageAction::SetUserPackage { user_id, package } => ActionView::SetUserPackage {
                user_id,
                package: match package {
                    Some(name) => Some(name@),
                    None => None,
                },
            },
            MessageAction::ListPackages => ActionView::ListPackages,
            MessageAction::ShowUserLimits(id) => ActionView::ShowUserLimits(id),
            MessageAction::SetUserLimit { user_id, name, value } => ActionView::SetUserLimit {
                user_id,
                name,
                value,
            },
            MessageAction::ShowStats(target) => ActionView::ShowStats(target),
            MessageAction::InstagramCookies => ActionView::InstagramCookies,
            MessageAction::HealthCheck => ActionView::HealthCheck,
            MessageAction::QueueStatus => ActionView::QueueStatus,
            MessageAction::Cancel(id) => ActionView::Cancel(id),
            MessageAction::Retry => ActionView::Retry,
            MessageAction::Downloads(requests) => ActionView::Downloads(request_views(requests@)),
            MessageAction::Reply(text) => ActionView::Reply(text@),
            MessageAction::Nothing => ActionView::Nothing,
        }
    }
}

// ---------------------------------------------------------------------------
// Timestamps
// ---------------------------------------------------------------------------

/// The number in a non-empty row of digits.
pub open spec fn whole_in(text: Seq<char>) -> Option<nat> {
    if text.len() > 0 && all_digits(text) {
        Some(digits_value(text))
    } else {
        None
    }
}

/// The milliseconds that one to three digits after a decimal point stand for.
pub open spec fn fraction_in(text: Seq<char>) -> Option<nat> {
    if !all_digits(text) {
        None
    } else if text.len() == 1 {
        Some(digits_value(text) * 100)
    } else if text.len() == 2 {
        Some(digits_value(text) * 10)
    } else if text.len() == 3 {
        Some(digits_value(text))
    } else {
        None
    }
}

/// Seconds and milliseconds: `SS` or `SS.mmm`.
pub open spec fn seconds_in(text: Seq<char>) -> Option<(nat, nat)> {
    let parts = split_parts(text, '.');
    if parts.len() == 1 {
        match whole_in(parts[0]) {
            Some(seconds) => Some((seconds, 0)),
            None => None,
        }
    } else if parts.len() == 2 {
        match (whole_in(parts[0]), fraction_in(parts[1])) {
            (Some(seconds), Some(millis)) => Some((seconds, millis)),
            _ => None,
        }
    } else {
        None
    }
}

/// The milliseconds that a timestamp stands for: `SS`, `MM:SS` or `HH:MM:SS`,
/// each with up to three decimals. Below hours and minutes, minutes and
/// seconds stay under sixty.
pub open spec fn timestamp_millis(text: Seq<char>) -> Option<nat> {
    let parts = split_parts(text, ':');
    match seconds_in(parts.last()) {
        None => None,
        Some((seconds, millis)) => if parts.len() == 1 {
            Some(seconds * 1_000 + millis)
        } else if parts.len() == 2 && seconds < 60 {
            match whole_in(parts[0]) {
                Some(minutes) => Some((minutes * 60 + seconds) * 1_000 + millis),
                None => None,
            }
        } else if parts.len() == 3 && seconds < 60 {
            match (whole_in(parts[0]), whole_in(parts[1])) {
                (Some(hours), Some(minutes)) if minutes < 60 => Some(
                    (hours * 3_600 + minutes * 60 + seconds) * 1_000 + millis,
                ),
                _ => None,
            }
        } else {
            None
        },
    }
}

/// The span of time that a timestamp stands for. One that does not fit in
/// `u64::MAX` milliseconds is none.
pub open spec fn timestamp_in(text: Seq<char>) -> Option<Duration> {
    match timestamp_millis(text) {
        Some(millis) if millis <= u64::MAX => Some(
            Duration::of((millis / 1_000) as u64, ((millis % 1_000) * 1_000_000) as u32),
        ),
        _ => None,
    }
}

/// Reads a non-empty row of digits.
pub fn parse_whole(value: &str) -> (result: Option<u64>)
    ensures
        match (result, whole_in(value@)) {
            (Some(number), Some(expected)) => number == expected,
            (None, Some(expected)) => expected > u64::MAX,
            (None, None) => true,
            (Some(_), None) => false,
        },
{
    parse_digits(value, u64::MAX)
}

/// Reads one to three digits after a decimal point.
fn parse_fraction(value: &str) -> (result: Option<u64>)
    ensures
        match (result, fraction_in(value@)) {
            (Some(number), Some(expected)) => number == expected && number < 1_000,
            (None, None) => true,
            _ => false,
        },
{
    let length = crate::text::chars_of(value).len();
    if length == 0 || length > 3 {
        return None;
    }
    proof {
        reveal_with_fuel(digits_value, 4);
    }
    let number = match parse_digits(value, 999) {
        Some(number) => number,
        None => {
            return None;
        },
    };
    if length == 1 {
        Some(number * 100)
    } else if length == 2 {
        Some(number * 10)
    } else {
        Some(number)
    }
}

/// Reads `SS` or `SS.mmm`.
pub fn parse_seconds(value: &str) -> (result: Option<(u64, u64)>)
    ensures
        match (result, seconds_in(value@)) {
            (Some(pair), Some(expected)) => pair.0 == expected.0 && pair.1 == expected.1 && pair.1
                < 1_000,
            (None, Some(expected)) => expected.0 > u64::MAX,
            (None, None) => true,
            (Some(_), None) => false,
        },
{
    let parts = split(value, '.');
    proof {
        lemma_split_has_a_part(value@, '.');
        assert(parts@.len() == split_parts(value@, '.').len());
        assert(texts(parts@)[0] == parts@[0]@);
    }
    if parts.len() > 2 {
        return None;
    }
    let seconds = match parse_whole(parts[0].as_str()) {
        Some(seconds) => seconds,
        None => {
            return None;
        },
    };
    if parts.len() == 1 {
        return Some((seconds, 0));
    }
    assert(texts(parts@)[1] == parts@[1]@);
    match parse_fraction(parts[1].as_str()) {
        Some(millis) => Some((seconds, millis)),
        None => None,
    }
}

/// Reads a timestamp: `SS`, `MM:SS` or `HH:MM:SS`, with up to three decimals.
pub fn parse_timestamp(value: &str) -> (result: Option<Duration>)
    ensures
        result == timestamp_in(value@),
{
    let parts = split(value, ':');
    proof {
        lemma_split_has_a_part(value@, ':');
        assert(parts@.len() == split_parts(value@, ':').len());
        assert(forall|i: int| 0 <= i < parts@.len() ==> texts(parts@)[i] == (#[trigger] parts@[i])@);
    }
    let count: usize = parts.len();
    let (seconds, millis) = match parse_seconds(parts[count - 1].as_str()) {
        Some(pair) => pair,
        None => {
            return None;
        },
    };
    let total: u128 = if count == 1 {
        seconds as u128
    } else if count == 2 && seconds < 60 {
        match parse_whole(parts[0].as_str()) {
            Some(minutes) => minutes as u128 * 60 + seconds as u128,
            None => {
                return None;
            },
        }
    } else if count == 3 && seconds < 60 {
        let minutes = match parse_whole(parts[1].as_str()) {
            Some(minutes) if minutes < 60 => minutes,
            _ => {
                return None;
            },
        };
        match parse_whole(parts[0].as_str()) {
            Some(hours) => hours as u128 * 3_600 + minutes as u128 * 60 + seconds as u128,
            None => {
                return None;
            },
        }
    } else {
        return None;
    };
    let total_millis: u128 = total * 1_000 + millis as u128;
    if total_millis > u64::MAX as u128 {
        return None;
    }
    Some(Duration::from_millis(total_millis as u64))
}

// ---------------------------------------------------------------------------
// Commands
// ---------------------------------------------------------------------------

/// The word of a message at position `at`, counted from zero.
pub open spec fn word_at(text: Seq<char>, at: int) -> Option<Seq<char>> {
    if 0 <= at < words_of(text).len() {
        Some(words_of(text)[at])
    } else {
        None
    }
}

/// The command that a message starts with, in lower case: what stands between
/// a slash and the name of a bot.
pub open spec fn command_in(text: Seq<char>) -> Option<Seq<char>> {
    match word_at(text, 0) {
        None => None,
        Some(first) => match stripped_prefix(first, "/"@) {
            None => None,
            Some(body) => {
                let name = split_parts(body, '@')[0];
                if name.len() == 0 {
                    None
                } else {
                    Some(lowered(name))
                }
            },
        },
    }
}

/// A user ID: a positive number.
pub open spec fn user_id_in(word: Option<Seq<char>>) -> Option<i64> {
    match word {
        Some(text) => match i64_in(text) {
            Some(id) if id > 0 => Some(id),
            _ => None,
        },
        None => None,
    }
}

/// The height that `/video` may name before the link.
pub open spec fn max_height_in(word: Option<Seq<char>>) -> Option<u32> {
    match word {
        Some(text) if !"http://"@.is_prefix_of(text) && !"https://"@.is_prefix_of(text) => u32_in(
            without_trailing(text, "pP"@),
        ),
        _ => None,
    }
}

/// One request for each link, or `otherwise` where there is none.
pub open spec fn downloads_or(
    urls: Seq<Seq<char>>,
    mode: DownloadMode,
    otherwise: ActionView,
) -> ActionView {
    if urls.len() == 0 {
        otherwise
    } else {
        ActionView::Downloads(urls.map_values(|url: Seq<char>| RequestView { url, mode }))
    }
}

/// What `/clip` asks for.
pub open spec fn clip_action(text: Seq<char>, urls: Seq<Seq<char>>) -> ActionView {
    match (word_at(text, 1), word_at(text, 2)) {
        (Some(first), Some(second)) => match (timestamp_in(first), timestamp_in(second)) {
            (Some(start), Some(end)) if start.total_nanos() < end.total_nanos() => downloads_or(
                urls,
                DownloadMode::Clip(ClipRange::between(start, end)),
                ActionView::Reply(CLIP_USAGE@),
            ),
            _ => ActionView::Reply(CLIP_USAGE@),
        },
        _ => ActionView::Reply(CLIP_USAGE@),
    }
}

/// What the command `name` asks for in a message with these links; `None` if
/// there is no such command.
pub open spec fn command_action(
    name: Seq<char>,
    text: Seq<char>,
    urls: Seq<Seq<char>>,
) -> Option<ActionView> {
    if name == "add"@ {
        Some(ActionView::AddUser(user_id_in(word_at(text, 1))))
    } else if name == "remove"@ {
        Some(ActionView::RemoveUser(user_id_in(word_at(text, 1))))
    } else if name == "users"@ {
        Some(ActionView::ListUsers)
    } else if name == "package"@ || name == "tier"@ {
        Some(
            ActionView::SetUserPackage {
                user_id: user_id_in(word_at(text, 1)),
                package: match word_at(text, 2) {
                    Some(word) => package_in(word),
                    None => None,
                },
            },
        )
    } else if name == "packages"@ {
        Some(ActionView::ListPackages)
    } else if name == "limits"@ {
        Some(
            match (word_at(text, 1), user_id_in(word_at(text, 1))) {
                (None, _) => ActionView::ShowUserLimits(None),
                (Some(_), Some(id)) => ActionView::ShowUserLimits(Some(id)),
                (Some(_), None) => ActionView::Reply("Usage: /limits [user-id]"@),
            },
        )
    } else if name == "limit"@ {
        Some(
            ActionView::SetUserLimit {
                user_id: user_id_in(word_at(text, 1)),
                name: match word_at(text, 2) {
                    Some(word) => limit_name_in(word),
                    None => None,
                },
                value: match word_at(text, 3) {
                    Some(word) => limit_value_in(word),
                    None => None,
                },
            },
        )
    } else if name == "stats"@ {
        Some(
            match (word_at(text, 1), user_id_in(word_at(text, 1))) {
                (None, _) => ActionView::ShowStats(StatsTarget::Own),
                (Some(word), _) if equal_ignoring_ascii_case(
                    word,
                    "all"@,
                ) => ActionView::ShowStats(StatsTarget::All),
                (Some(_), Some(id)) => ActionView::ShowStats(StatsTarget::User(id)),
                (Some(_), None) => ActionView::Reply("Usage: /stats [user-id|all]"@),
            },
        )
    } else if name == "insta"@ {
        Some(ActionView::InstagramCookies)
    } else if name == "h"@ || name == "ping"@ {
        Some(ActionView::HealthCheck)
    } else if name == "status"@ || name == "queue"@ {
        Some(ActionView::QueueStatus)
    } else if name == "help"@ {
        Some(ActionView::Reply(HELP@))
    } else if name == "cancel"@ {
        Some(
            ActionView::Cancel(
                match word_at(text, 1) {
                    Some(word) => u64_in(word),
                    None => None,
                },
            ),
        )
    } else if name == "retry"@ {
        Some(ActionView::Retry)
    } else if name == "clip"@ {
        Some(clip_action(text, urls))
    } else if name == "audio"@ {
        Some(downloads_or(urls, DownloadMode::Audio, ActionView::Reply("Usage: /audio <url>"@)))
    } else if name == "video"@ {
        Some(
            downloads_or(
                urls,
                DownloadMode::Video { max_height: max_height_in(word_at(text, 1)) },
                ActionView::Reply("Usage: /video [height] <url> or /best <url>"@),
            ),
        )
    } else if name == "best"@ {
        Some(
            downloads_or(
                urls,
                DownloadMode::Video { max_height: None },
                ActionView::Reply("Usage: /video [height] <url> or /best <url>"@),
            ),
        )
    } else {
        None
    }
}

/// What a message with these links asks for. Where it starts with no command
/// that is known, each link is a video to download.
pub open spec fn action_of(text: Seq<char>, urls: Seq<Seq<char>>) -> ActionView {
    let plain = downloads_or(
        urls,
        DownloadMode::Video { max_height: None },
        ActionView::Nothing,
    );
    match command_in(text) {
        None => plain,
        Some(name) => match command_action(name, text, urls) {
            Some(action) => action,
            None => plain,
        },
    }
}

/// The command that a message starts with.
pub fn command_name(text: &str) -> (result: Option<String>)
    ensures
        match (result, command_in(text@)) {
            (Some(name), Some(expected)) => name@ == expected,
            (None, None) => true,
            _ => false,
        },
{
    let parts = words(text);
    assert(parts@.len() == words_of(text@).len());
    if parts.len() == 0 {
        return None;
    }
    assert(texts(parts@)[0] == parts@[0]@);
    let body = match strip_prefix(parts[0].as_str(), "/") {
        Some(body) => body,
        None => {
            return None;
        },
    };
    let names = split(body.as_str(), '@');
    proof {
        lemma_split_has_a_part(body@, '@');
        assert(names@.len() == split_parts(body@, '@').len());
        assert(texts(names@)[0] == names@[0]@);
    }
    if names[0].as_str().is_empty() {
        return None;
    }
    Some(lowercase(names[0].as_str()))
}

/// The user ID in the word at position `at`.
fn parse_user_id(parts: &[String], at: usize) -> (result: Option<i64>)
    ensures
        result == user_id_in(
            if at < parts@.len() {
                Some(texts(parts@)[at as int])
            } else {
                None
            },
        ),
{
    if at < parts.len() {
        match parse_i64(parts[at].as_str()) {
            Some(id) if id > 0 => Some(id),
            _ => None,
        }
    } else {
        None
    }
}

/// One request for each link.
fn requests(urls: &[String], mode: DownloadMode) -> (result: Vec<DownloadRequest>)
    ensures
        request_views(result@) == texts(urls@).map_values(
            |url: Seq<char>| RequestView { url, mode },
        ),
{
    let mut result: Vec<DownloadRequest> = Vec::new();
    let mut i: usize = 0;
    let ghost wanted = texts(urls@).map_values(|url: Seq<char>| RequestView { url, mode });
    assert(request_views(result@) =~= wanted.take(0));
    while i < urls.len()
        invariant
            i <= urls@.len(),
            wanted == texts(urls@).map_values(|url: Seq<char>| RequestView { url, mode }),
            request_views(result@) == wanted.take(i as int),
        decreases urls.len() - i,
    {
        let url = urls[i].clone();
        let request = match mode {
            DownloadMode::Video { max_height } => DownloadRequest::video(url, max_height),
            DownloadMode::Audio => DownloadRequest::audio(url),
            DownloadMode::Clip(range) => DownloadRequest::clip(url, range),
        };
        let ghost before = request_views(result@);
        let ghost added = request@;
        result.push(request);
        i = i + 1;
        assert(request_views(result@) =~= before.push(added));
        assert(wanted.take(i as int) =~= wanted.take(i - 1).push(added));
    }
    assert(wanted.take(i as int) =~= wanted);
    result
}

/// One request for each link, or `otherwise` where there is none.
fn downloads(urls: &[String], mode: DownloadMode, otherwise: MessageAction) -> (result:
    MessageAction)
    ensures
        result@ == downloads_or(texts(urls@), mode, otherwise@),
{
    if urls.len() == 0 {
        otherwise
    } else {
        MessageAction::Downloads(requests(urls, mode))
    }
}

fn classify_clip(text: &str, urls: &[String]) -> (result: MessageAction)
    ensures
        result@ == clip_action(text@, texts(urls@)),
{
    let parts = words(text);
    assert(parts@.len() == words_of(text@).len());
    if parts.len() < 3 {
        return MessageAction::Reply(CLIP_USAGE);
    }
    assert(texts(parts@)[1] == parts@[1]@ && texts(parts@)[2] == parts@[2]@);
    let (start, end) = match (
        parse_timestamp(parts[1].as_str()),
        parse_timestamp(parts[2].as_str()),
    ) {
        (Some(start), Some(end)) => (start, end),
        _ => {
            return MessageAction::Reply(CLIP_USAGE);
        },
    };
    match ClipRange::new(start, end) {
        Some(range) => downloads(urls, DownloadMode::Clip(range), MessageAction::Reply(CLIP_USAGE)),
        None => MessageAction::Reply(CLIP_USAGE),
    }
}

/// The height that `/video` names.
fn parse_max_height(parts: &[String]) -> (result: Option<u32>)
    ensures
        result == max_height_in(
            if 1 < parts@.len() {
                Some(texts(parts@)[1])
            } else {
                None
            },
        ),
{
    if parts.len() > 1 {
        let word = parts[1].as_str();
        if starts_with(word, "http://") || starts_with(word, "https://") {
            None
        } else {
            parse_u32(trim_trailing(word, "pP").as_str())
        }
    } else {
        None
    }
}

/// What a message asks for, given the links that were found in it.
pub fn classify_with_links(text: &str, urls: Vec<String>) -> (result: MessageAction)
    ensures
        result@ == action_of(text@, texts(urls@)),
{
    let plain = DownloadMode::Video { max_height: None };
    let command = match command_name(text) {
        Some(command) => command,
        None => {
            return downloads(&urls, plain, MessageAction::Nothing);
        },
    };
    let name = command.as_str();
    let parts = words(text);
    proof {
        assert(parts@.len() == words_of(text@).len());
        assert(forall|i: int| 0 <= i < parts@.len() ==> texts(parts@)[i] == (#[trigger] parts@[i])@);
    }
    let count: usize = parts.len();
    if same_text(name, "add") {
        MessageAction::AddUser(parse_user_id(&parts, 1))
    } else if same_text(name, "remove") {
        MessageAction::RemoveUser(parse_user_id(&parts, 1))
    } else if same_text(name, "users") {
        MessageAction::ListUsers
    } else if same_text(name, "package") || same_text(name, "tier") {
        MessageAction::SetUserPackage {
            user_id: parse_user_id(&parts, 1),
            package: if count > 2 {
                PackageName::parse(parts[2].as_str())
            } else {
                None
            },
        }
    } else if same_text(name, "packages") {
        MessageAction::ListPackages
    } else if same_text(name, "limits") {
        if count < 2 {
            MessageAction::ShowUserLimits(None)
        } else {
            match parse_user_id(&parts, 1) {
                Some(id) => MessageAction::ShowUserLimits(Some(id)),
                None => MessageAction::Reply("Usage: /limits [user-id]"),
            }
        }
    } else if same_text(name, "limit") {
        MessageAction::SetUserLimit {
            user_id: parse_user_id(&parts, 1),
            name: if count > 2 {
                UserLimitName::parse(parts[2].as_str())
            } else {
                None
            },
            value: if count > 3 {
                UserLimitValue::parse(parts[3].as_str())
            } else {
                None
            },
        }
    } else if same_text(name, "stats") {
        if count < 2 {
            MessageAction::ShowStats(StatsTarget::Own)
        } else if eq_ignore_ascii_case(parts[1].as_str(), "all") {
            MessageAction::ShowStats(StatsTarget::All)
        } else {
            match parse_user_id(&parts, 1) {
                Some(id) => MessageAction::ShowStats(StatsTarget::User(id)),
                None => MessageAction::Reply("Usage: /stats [user-id|all]"),
            }
        }
    } else if same_text(name, "insta") {
        MessageAction::InstagramCookies
    } else if same_text(name, "h") || same_text(name, "ping") {
        MessageAction::HealthCheck
    } else if same_text(name, "status") || same_text(name, "queue") {
        MessageAction::QueueStatus
    } else if same_text(name, "help") {
        MessageAction::Reply(HELP)
    } else if same_text(name, "cancel") {
        MessageAction::Cancel(
            if count > 1 {
                parse_u64(parts[1].as_str())
            } else {
                None
            },
        )
    } else if same_text(name, "retry") {
        MessageAction::Retry
    } else if same_text(name, "clip") {
        classify_clip(text, &urls)
    } else if same_text(name, "audio") {
        downloads(&urls, DownloadMode::Audio, MessageAction::Reply("Usage: /audio <url>"))
    } else if same_text(name, "video") {
        downloads(
            &urls,
            DownloadMode::Video { max_height: parse_max_height(&parts) },
            MessageAction::Reply("Usage: /video [height] <url> or /best <url>"),
        )
    } else if same_text(name, "best") {
        downloads(
            &urls,
            plain,
            MessageAction::Reply("Usage: /video [height] <url> or /best <url>"),
        )
    } else {
        downloads(&urls, plain, MessageAction::Nothing)
    }
}

/// What a message asks for.
pub fn classify_message(text: &str, url_pattern: &UrlPattern) -> (result: MessageAction)
    ensures
        result@ == action_of(text@, regex_matches(url_pattern@, text@)),
{
    classify_with_links(text, url_pattern.find_all(text))
}

// ---------------------------------------------------------------------------
// Laws
// ---------------------------------------------------------------------------

/// Whatever a message asks to download, it asks for one download per link, in
/// the order of the links, all of them in the same way.
pub proof fn law_one_request_per_link(text: Seq<char>, urls: Seq<Seq<char>>)
    requires
        action_of(text, urls) is Downloads,
    ensures
        urls.len() > 0,
        action_of(text, urls)->Downloads_0.len() == urls.len(),
        forall|i: int|
            0 <= i < urls.len() ==> (#[trigger] action_of(text, urls)->Downloads_0[i]).url == urls[i],
        forall|i: int|
            0 <= i < urls.len() ==> (#[trigger] action_of(text, urls)->Downloads_0[i]).mode
                == action_of(text, urls)->Downloads_0[0].mode,
{
}

/// A message that starts with no command and holds links asks for each of them
/// as a video of any height.
pub proof fn law_plain_links_are_videos(text: Seq<char>, urls: Seq<Seq<char>>)
    requires
        command_in(text) is None,
        urls.len() > 0,
    ensures
        action_of(text, urls) == ActionView::Downloads(
            urls.map_values(
                |url: Seq<char>| RequestView { url, mode: DownloadMode::Video { max_height: None } },
            ),
        ),
{
}

/// A clip is only ever requested as a section that moves forward.
pub proof fn law_clips_move_forward(text: Seq<char>, urls: Seq<Seq<char>>)
    requires
        clip_action(text, urls) is Downloads,
    ensures
        word_at(text, 1) is Some,
        word_at(text, 2) is Some,
        timestamp_in(word_at(text, 1)->0) is Some,
        timestamp_in(word_at(text, 2)->0) is Some,
        timestamp_in(word_at(text, 1)->0)->0.total_nanos() < timestamp_in(
            word_at(text, 2)->0,
        )->0.total_nanos(),
{
}

proof fn lemma_split_before_separator(text: Seq<char>, separator: char, rest: Seq<char>)
    requires
        !text.contains(separator),
    ensures
        split_parts(text, separator) == seq![text],
        split_parts(text.push(separator) + rest, separator)[0] == text,
        split_parts(text.push(separator) + rest, separator).len() >= 2,
    decreases text.len(), rest.len(),
{
    if rest.len() > 0 {
        lemma_split_before_separator(text, separator, rest.drop_last());
        let whole = text.push(separator) + rest;
        assert(whole.drop_last() =~= text.push(separator) + rest.drop_last());
    } else {
        if text.len() > 0 {
            assert(!text.drop_last().contains(separator)) by {
                if text.drop_last().contains(separator) {
                    let i = choose|i: int|
                        0 <= i < text.drop_last().len() && text.drop_last()[i] == separator;
                    assert(text[i] == separator);
                }
            }
            lemma_split_before_separator(text.drop_last(), separator, Seq::empty());
            assert(text[text.len() - 1] != separator);
            assert(text.drop_last().push(text.last()) =~= text);
            assert(split_parts(text, separator) =~= seq![text]);
        } else {
            assert(text =~= Seq::empty());
            assert(split_parts(text, separator) =~= seq![text]);
        }
        let whole = text.push(separator) + rest;
        assert(whole =~= text.push(separator));
        assert(whole.drop_last() =~= text);
    }
}

/// A command may carry the name of a bot behind an `@`: it is the same command
/// with the name and without.
pub proof fn law_bot_name_is_ignored(
    plain: Seq<char>,
    addressed: Seq<char>,
    name: Seq<char>,
    bot: Seq<char>,
)
    requires
        !name.contains('@'),
        word_at(plain, 0) == Some("/"@ + name),
        word_at(addressed, 0) == Some("/"@ + name + "@"@ + bot),
    ensures
        command_in(plain) == command_in(addressed),
{
    reveal_strlit("/");
    reveal_strlit("@");
    lemma_split_before_separator(name, '@', bot);
    let short = "/"@ + name;
    let long = "/"@ + name + "@"@ + bot;
    assert("/"@ =~= short.subrange(0, 1));
    assert("/"@ =~= long.subrange(0, 1));
    assert(short.skip(1) =~= name);
    assert(long.skip(1) =~= name.push('@') + bot);
}

/// The aliases: `/tier` is `/package`, `/h` is `/ping`, and `/queue` is
/// `/status`.
pub proof fn law_aliases(text: Seq<char>, urls: Seq<Seq<char>>)
    ensures
        command_action("tier"@, text, urls) == command_action("package"@, text, urls),
        command_action("h"@, text, urls) == command_action("ping"@, text, urls),
        command_action("queue"@, text, urls) == command_action("status"@, text, urls),
{
    reveal_strlit("add");
    reveal_strlit("remove");
    reveal_strlit("users");
    reveal_strlit("package");
    reveal_strlit("tier");
    reveal_strlit("packages");
    reveal_strlit("limits");
    reveal_strlit("limit");
    reveal_strlit("stats");
    reveal_strlit("insta");
    reveal_strlit("h");
    reveal_strlit("ping");
    reveal_strlit("status");
    reveal_strlit("queue");
    assert("add"@.len() == 3 && "remove"@.len() == 6 && "users"@.len() == 5 && "package"@.len() == 7);
    assert("tier"@.len() == 4 && "packages"@.len() == 8 && "limits"@.len() == 6);
    assert("limit"@.len() == 5 && "stats"@.len() == 5 && "insta"@.len() == 5 && "h"@.len() == 1);
    assert("ping"@.len() == 4 && "status"@.len() == 6 && "queue"@.len() == 5);
    assert("tier"@[0] != "ping"@[0]);
    assert("users"@[0] != "stats"@[0] && "queue"@[0] != "users"@[0] && "queue"@[0] != "limit"@[0]
        && "queue"@[0] != "stats"@[0] && "queue"@[0] != "insta"@[0]);
    assert("status"@[0] != "remove"@[0] && "status"@[0] != "limits"@[0]);
}

/// Whether `text` is made of ASCII letters and digits, as the names of commands
/// are.
pub open spec fn is_plain_name(text: Seq<char>) -> bool {
    text.len() > 0 && forall|i: int|
        0 <= i < text.len() ==> is_ascii_alphanumeric(#[trigger] text[i])
}

/// What can follow a command: nothing, or white space and anything.
pub open spec fn follows_command(rest: Seq<char>) -> bool {
    rest.len() == 0 || is_white_space(rest[0])
}

/// A message starts with the command that is written at its start, and its other
/// words are those of what follows.
pub proof fn lemma_message(name: Seq<char>, tail: Seq<char>, rest: Seq<char>)
    requires
        is_plain_name(name),
        tail.len() == 0 || tail[0] == '@',
        forall|i: int| 0 <= i < tail.len() ==> !is_white_space(#[trigger] tail[i]),
        follows_command(rest),
    ensures
        command_in("/"@ + name + tail + rest) == Some(ascii_lowered(name)),
        forall|k: int|
            k > 0 ==> #[trigger] word_at("/"@ + name + tail + rest, k) == word_at(rest, k - 1),
{
    reveal_strlit("/");
    let head = "/"@ + name + tail;
    assert(head.skip(1) =~= name + tail);
    assert("/"@ =~= head.subrange(0, 1));
    assert(is_word(head));
    lemma_first_word(head, rest);
    assert(words_of(head + rest)[0] == head);
    assert(!name.contains('@'));
    if tail.len() == 0 {
        lemma_split_whole(name, '@');
        assert(name + tail =~= name);
    } else {
        lemma_split_before_separator(name, '@', tail.skip(1));
        assert(name + tail =~= name.push('@') + tail.skip(1));
    }
    assert(vstd::utf8::is_ascii_chars(name));
    assert forall|k: int| k > 0 implies #[trigger] word_at(head + rest, k) == word_at(
        rest,
        k - 1,
    ) by {}
}

/// Messages that start with commands of the same meaning, and go on in the same
/// way, ask for the same.
proof fn lemma_same_request(one: Seq<char>, other: Seq<char>, urls: Seq<Seq<char>>)
    requires
        command_in(one) is Some,
        command_in(other) is Some,
        forall|k: int| k > 0 ==> #[trigger] word_at(one, k) == word_at(other, k),
        command_action(command_in(one)->0, one, urls) == command_action(
            command_in(other)->0,
            one,
            urls,
        ),
    ensures
        action_of(one, urls) == action_of(other, urls),
{
    assert(word_at(one, 1) == word_at(other, 1));
    assert(word_at(one, 2) == word_at(other, 2));
    assert(word_at(one, 3) == word_at(other, 3));
}

/// A command may be written in any letter case, and with the name of a bot
/// behind an `@`: in a message that goes on in the same way, with the same
/// links, it asks for the same.
pub proof fn law_case_and_bot_are_ignored(
    name: Seq<char>,
    other: Seq<char>,
    bot: Seq<char>,
    rest: Seq<char>,
    urls: Seq<Seq<char>>,
)
    requires
        is_plain_name(name),
        equal_ignoring_ascii_case(name, other),
        forall|i: int| 0 <= i < bot.len() ==> !is_white_space(#[trigger] bot[i]),
        follows_command(rest),
    ensures
        action_of("/"@ + other + rest, urls) == action_of("/"@ + name + rest, urls),
        action_of("/"@ + other + "@"@ + bot + rest, urls) == action_of("/"@ + name + rest, urls),
{
    reveal_strlit("@");
    let none = Seq::<char>::empty();
    let tail = "@"@ + bot;
    assert(ascii_lowered(name).len() == ascii_lowered(other).len());
    assert forall|i: int| 0 <= i < other.len() implies is_ascii_alphanumeric(#[trigger] other[i]) by {
        assert(ascii_lowered(name)[i] == ascii_lowered(other)[i]);
        assert(is_ascii_alphanumeric(name[i]));
    }
    lemma_message(name, none, rest);
    lemma_message(other, none, rest);
    lemma_message(other, tail, rest);
    let plain = "/"@ + name + none + rest;
    let shouted = "/"@ + other + none + rest;
    let addressed = "/"@ + other + tail + rest;
    assert(plain =~= "/"@ + name + rest);
    assert(shouted =~= "/"@ + other + rest);
    assert(addressed =~= "/"@ + other + "@"@ + bot + rest);
    assert forall|k: int| k > 0 implies #[trigger] word_at(shouted, k) == word_at(plain, k) by {}
    assert forall|k: int| k > 0 implies #[trigger] word_at(addressed, k) == word_at(plain, k) by {}
    lemma_same_request(shouted, plain, urls);
    lemma_same_request(addressed, plain, urls);
}

/// Messages that start with one alias or the other, and go on in the same way,
/// ask for the same: `/tier` or `/package`, `/h` or `/ping`, `/queue` or
/// `/status`.
pub proof fn law_aliases_agree(rest: Seq<char>, urls: Seq<Seq<char>>)
    requires
        follows_command(rest),
    ensures
        action_of("/"@ + "tier"@ + rest, urls) == action_of("/"@ + "package"@ + rest, urls),
        action_of("/"@ + "h"@ + rest, urls) == action_of("/"@ + "ping"@ + rest, urls),
        action_of("/"@ + "queue"@ + rest, urls) == action_of("/"@ + "status"@ + rest, urls),
{
    assert(action_of("/"@ + "tier"@ + rest, urls) == action_of("/"@ + "package"@ + rest, urls)) by {
        reveal_strlit("tier");
        reveal_strlit("package");
        law_aliases("/"@ + "tier"@ + rest, urls);
        lemma_aliases_agree("tier"@, "package"@, rest, urls);
    }
    assert(action_of("/"@ + "h"@ + rest, urls) == action_of("/"@ + "ping"@ + rest, urls)) by {
        reveal_strlit("h");
        reveal_strlit("ping");
        law_aliases("/"@ + "h"@ + rest, urls);
        lemma_aliases_agree("h"@, "ping"@, rest, urls);
    }
    assert(action_of("/"@ + "queue"@ + rest, urls) == action_of("/"@ + "status"@ + rest, urls)) by {
        reveal_strlit("queue");
        reveal_strlit("status");
        law_aliases("/"@ + "queue"@ + rest, urls);
        lemma_aliases_agree("queue"@, "status"@, rest, urls);
    }
}

proof fn lemma_aliases_agree(
    one: Seq<char>,
    other: Seq<char>,
    rest: Seq<char>,
    urls: Seq<Seq<char>>,
)
    requires
        is_plain_name(one),
        is_plain_name(other),
        ascii_lowered(one) =~= one,
        ascii_lowered(other) =~= other,
        follows_command(rest),
        command_action(one, "/"@ + one + rest, urls) == command_action(
            other,
            "/"@ + one + rest,
            urls,
        ),
    ensures
        action_of("/"@ + one + rest, urls) == action_of("/"@ + other + rest, urls),
{
    let none = Seq::<char>::empty();
    lemma_message(one, none, rest);
    lemma_message(other, none, rest);
    let left = "/"@ + one + none + rest;
    let right = "/"@ + other + none + rest;
    assert(left =~= "/"@ + one + rest);
    assert(right =~= "/"@ + other + rest);
    assert forall|k: int| k > 0 implies #[trigger] word_at(left, k) == word_at(right, k) by {}
    lemma_same_request(left, right, urls);
}

/// Digits hold neither a colon nor a point.
pub proof fn lemma_digits_are_unbroken(text: Seq<char>)
    requires
        all_digits(text),
    ensures
        !text.contains(':'),
        !text.contains('.'),
{
}

/// Two digits of seconds, with milliseconds or without, are read as what they
/// were written for.
proof fn lemma_seconds_read_back(seconds: nat, millis: nat)
    requires
        seconds < 60,
        millis < 1_000,
    ensures
        ({
            let whole = padded_decimal(seconds, 2);
            let text = if millis == 0 {
                whole
            } else {
                whole + "."@ + padded_decimal(millis, 3)
            };
            &&& seconds_in(text) == Some((seconds, millis))
            &&& !text.contains(':')
        }),
{
    let whole = padded_decimal(seconds, 2);
    let fraction = padded_decimal(millis, 3);
    lemma_padded_reads_back(seconds, 2);
    lemma_padded_reads_back(millis, 3);
    lemma_digits_are_unbroken(whole);
    lemma_digits_are_unbroken(fraction);
    lemma_split_whole(whole, '.');
    if millis > 0 {
        reveal_strlit(".");
        let text = whole + "."@ + fraction;
        assert(text =~= whole.push('.') + fraction);
        lemma_split_after(whole, fraction, '.');
        assert forall|i: int| 0 <= i < text.len() implies text[i] != ':' by {
            if i < whole.len() {
                assert(whole.contains(whole[i]));
            } else if i > whole.len() {
                assert(fraction.contains(fraction[i - whole.len() - 1]));
            }
        }
    }
}

/// The positions of a clip are handed on in a form in which they could have
/// been asked for: reading one gives back the very position.
pub proof fn law_clip_timestamps_read_back(millis: nat)
    ensures
        timestamp_millis(clip_timestamp(millis)) == Some(millis),
        millis <= u64::MAX ==> timestamp_in(clip_timestamp(millis)) == Some(
            Duration::of((millis / 1_000) as u64, ((millis % 1_000) * 1_000_000) as u32),
        ),
{
    let text = clip_timestamp(millis);
    let seconds = millis / 1_000;
    let minutes = seconds / 60;
    let hours = minutes / 60;
    let tail = if millis % 1_000 == 0 {
        padded_decimal(seconds % 60, 2)
    } else {
        padded_decimal(seconds % 60, 2) + "."@ + padded_decimal(millis % 1_000, 3)
    };
    lemma_seconds_read_back(seconds % 60, millis % 1_000);
    reveal_strlit(":");
    if hours == 0 {
        law_decimal_reads_back(minutes);
        lemma_digits_are_unbroken(decimal(minutes));
        lemma_split_whole(decimal(minutes), ':');
        lemma_split_after(decimal(minutes), tail, ':');
        assert(text =~= decimal(minutes).push(':') + tail);
    } else {
        let middle = padded_decimal(minutes % 60, 2);
        let front = decimal(hours).push(':') + middle;
        law_decimal_reads_back(hours);
        lemma_padded_reads_back(minutes % 60, 2);
        lemma_digits_are_unbroken(decimal(hours));
        lemma_digits_are_unbroken(middle);
        lemma_split_whole(decimal(hours), ':');
        lemma_split_after(decimal(hours), middle, ':');
        lemma_split_after(front, tail, ':');
        assert(text =~= front.push(':') + tail);
    }
}

} // verus!
