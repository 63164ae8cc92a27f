//! Cookies that a superuser hands in: reading them, and deciding what to do with
//! them.

use vstd::prelude::*;

use crate::ids::contains_id;
use crate::media::workspace::random_number;
use crate::number::{decimal, padded_hex, write_hex, write_usize};
use crate::paths::{with_extension, with_extension_in};
use crate::text::{
    chars_of, is_white_space, is_word, join, joined, lemma_lines_are_unbroken, lemma_split_after,
    lemma_split_whole, lemma_tabbed_words, lemma_trimmed, lemma_words, lines, lines_of,
    split_parts, text_between, texts, trim, trimmed, white_space, without_carriage_return, words,
    words_of,
};

verus! {

// ---------------------------------------------------------------------------
// Cookie files
// ---------------------------------------------------------------------------

/// Why a text is no cookie file.
#[derive(Clone, Copy, Debug, PartialEq, Eq, Structural)]
pub enum CookieError {
    /// The line of that number, counted from one, has too few fields.
    TooFewFields { line: usize, fields: usize },
    /// There is no cookie.
    NoRecords,
}

impl CookieError {
    /// What the error says.
    pub open spec fn says(self) -> Seq<char> {
        match self {
            CookieError::TooFewFields { line, fields } => "cookie line "@ + decimal(line as nat)
                + " has "@ + decimal(fields as nat) + " fields; expected at least 7"@,
            CookieError::NoRecords => "cookie content contains no Netscape cookie records"@,
        }
    }

    pub fn message(&self) -> (result: String)
        ensures
            result@ == self.says(),
    {
        match self {
            CookieError::TooFewFields { line, fields } => "cookie line ".to_owned().concat(
                write_usize(*line).as_str(),
            ).concat(" has ").concat(write_usize(*fields).as_str()).concat(
                " fields; expected at least 7",
            ),
            CookieError::NoRecords => "cookie content contains no Netscape cookie records".to_owned(),
        }
    }
}

/// Whether a line is blank or a comment.
pub open spec fn is_remark(line: Seq<char>) -> bool {
    trimmed(line).len() == 0 || trimmed(line)[0] == '#'
}

/// The fields of a cookie.
pub open spec fn cookie_fields(line: Seq<char>) -> Seq<Seq<char>> {
    words_of(trimmed(line))
}

/// Whether a line is a cookie with too few fields.
pub open spec fn is_malformed(line: Seq<char>) -> bool {
    !is_remark(line) && cookie_fields(line).len() < 7
}

/// A line as it stands in a proper file: a remark without surrounding space, or
/// a cookie with tabs between its fields.
pub open spec fn proper_line(line: Seq<char>) -> Seq<char> {
    if is_remark(line) {
        trimmed(line)
    } else {
        joined(cookie_fields(line), "\t"@)
    }
}

/// The lines as they stand in a proper file, each with a line feed.
pub open spec fn proper_text(lines: Seq<Seq<char>>) -> Seq<char>
    decreases lines.len(),
{
    if lines.len() == 0 {
        Seq::empty()
    } else {
        proper_text(lines.drop_last()) + proper_line(lines.last()).push('\n')
    }
}

/// The first malformed line from `from` on.
pub open spec fn first_malformed(lines: Seq<Seq<char>>, from: int) -> Option<int>
    decreases lines.len() - from,
{
    if from < 0 || from >= lines.len() {
        None
    } else if is_malformed(lines[from]) {
        Some(from)
    } else {
        first_malformed(lines, from + 1)
    }
}

/// Whether there is a cookie among the lines.
pub open spec fn has_cookie(lines: Seq<Seq<char>>) -> bool {
    exists|i: int| 0 <= i < lines.len() && !is_remark(#[trigger] lines[i])
}

/// The proper file that `content` stands for, or what is wrong with it.
pub open spec fn normalized(content: Seq<char>) -> Result<Seq<char>, CookieError> {
    let lines = lines_of(content);
    match first_malformed(lines, 0) {
        Some(at) => Err(
            CookieError::TooFewFields {
                line: (at + 1) as usize,
                fields: cookie_fields(lines[at]).len() as usize,
            },
        ),
        None => if has_cookie(lines) {
            Ok(proper_text(lines))
        } else {
            Err(CookieError::NoRecords)
        },
    }
}

/// Makes a proper file of `content`.
pub fn normalize_netscape(content: &str) -> (result: Result<String, CookieError>)
    ensures
        match (result, normalized(content@)) {
            (Ok(text), Ok(expected)) => text@ == expected,
            (Err(error), Err(expected)) => error == expected,
            _ => false,
        },
{
    let rows = lines(content);
    let ghost views = lines_of(content@);
    let mut text = String::new();
    let mut found = false;
    let mut i: usize = 0;
    let total: usize = rows.len();
    assert(text@ =~= proper_text(views.take(0)));
    while i < total
        invariant
            i <= total,
            total == rows@.len(),
            views == lines_of(content@),
            texts(rows@) == views,
            text@ == proper_text(views.take(i as int)),
            first_malformed(views, 0) == first_malformed(views, i as int),
            found == exists|k: int| 0 <= k < i && !is_remark(#[trigger] views[k]),
        decreases total - i,
    {
        let ghost line = views[i as int];
        assert(line == rows@[i as int]@);
        assert(views.take(i + 1).drop_last() =~= views.take(i as int));
        let row = trim(rows[i].as_str());
        let chars = chars_of(row.as_str());
        if chars.len() == 0 || chars[0] == '#' {
            let ghost before = text@;
            text.append(row.as_str());
            text.push('\n');
            assert(text@ =~= before + proper_line(line).push('\n'));
            assert(is_remark(views[i as int]));
        } else {
            let fields = words(row.as_str());
            assert(texts(fields@) == cookie_fields(line));
            assert(fields@.len() == cookie_fields(line).len());
            if fields.len() < 7 {
                return Err(CookieError::TooFewFields { line: i + 1, fields: fields.len() });
            }
            let ghost before = text@;
            let record = join(fields.as_slice(), "\t");
            text.append(record.as_str());
            text.push('\n');
            found = true;
            assert(text@ =~= before + proper_line(line).push('\n'));
            assert(!is_remark(views[i as int]));
        }
        i = i + 1;
    }
    assert(views.take(i as int) =~= views);
    if found {
        Ok(text)
    } else {
        Err(CookieError::NoRecords)
    }
}

// ---------------------------------------------------------------------------
// The command
// ---------------------------------------------------------------------------

/// What follows the first white space of `text`, without surrounding space.
pub open spec fn after_command(text: Seq<char>) -> Seq<char>
    decreases text.len(),
{
    if text.len() == 0 {
        Seq::empty()
    } else if is_white_space(text[0]) {
        trimmed(text.skip(1))
    } else {
        after_command(text.skip(1))
    }
}

fn command_content(text: &str) -> (result: String)
    ensures
        result@ == after_command(text@),
{
    let chars = chars_of(text);
    let mut i: usize = 0;
    assert(text@.skip(0) =~= text@);
    while i < chars.len()
        invariant
            i <= chars@.len(),
            chars@ == text@,
            after_command(text@) == after_command(text@.skip(i as int)),
        decreases chars@.len() - i,
    {
        assert(text@.skip(i as int)[0] == chars@[i as int]);
        assert(text@.skip(i as int).skip(1) =~= text@.skip(i + 1));
        if white_space(chars[i]) {
            let rest = text_between(&chars, i + 1, chars.len());
            assert(rest@ =~= text@.skip(i + 1));
            return trim(rest.as_str());
        }
        i = i + 1;
    }
    assert(text@.skip(i as int) =~= Seq::empty());
    String::new()
}

/// What to do with a message that hands in cookies.
#[derive(Debug, PartialEq, Eq)]
pub enum CookieStep {
    /// Answer, and leave everything as it is.
    Reply(String),
    /// Delete the message and install these cookies.
    Install(String),
}

pub ghost enum CookieStepView {
    Reply(Seq<char>),
    Install(Seq<char>),
}

impl View for CookieStep {
    type V = CookieStepView;

    open spec fn view(&self) -> CookieStepView {
        match self {
            CookieStep::Reply(text) => CookieStepView::Reply(text@),
            CookieStep::Install(content) => CookieStepView::Install(content@),
        }
    }
}

/// What to do with a message that hands in cookies: only a superuser may, and
/// only a proper file replaces the old one.
pub open spec fn cookie_step(text: Seq<char>, sender_id: i64, super_users: Seq<i64>) -> CookieStepView {
    let content = after_command(text);
    if !super_users.contains(sender_id) {
        CookieStepView::Reply("You are not authorized to use this command."@)
    } else if content.len() == 0 {
        CookieStepView::Reply("Please provide the cookie content after the command."@)
    } else {
        match normalized(content) {
            Ok(_) => CookieStepView::Install(content),
            Err(error) => CookieStepView::Reply("Invalid cookie content: "@ + error.says()),
        }
    }
}

/// What to do with a message that hands in cookies.
pub fn handle_update(text: &str, sender_id: i64, super_users: &[i64]) -> (result: CookieStep)
    ensures
        result@ == cookie_step(text@, sender_id, super_users@),
{
    if !contains_id(super_users, sender_id) {
        return CookieStep::Reply("You are not authorized to use this command.".to_owned());
    }
    let content = command_content(text);
    if content.as_str().is_empty() {
        return CookieStep::Reply(
            "Please provide the cookie content after the command.".to_owned(),
        );
    }
    match normalize_netscape(content.as_str()) {
        Ok(_) => CookieStep::Install(content),
        Err(error) => CookieStep::Reply(
            "Invalid cookie content: ".to_owned().concat(error.message().as_str()),
        ),
    }
}

/// How an installation went.
pub enum Installation {
    Installed,
    Failed { error: String },
    Crashed { error: String },
}

/// What a superuser is told of an installation.
pub fn installation_reply(installation: Installation) -> (result: String)
    ensures
        result@ == (match installation {
            Installation::Installed => "Instagram cookies updated successfully."@,
            Installation::Failed { error } => "Failed to update cookies: "@ + error@,
            Installation::Crashed { error } => "Cookie installation task failed: "@ + error@,
        }),
{
    match installation {
        Installation::Installed => "Instagram cookies updated successfully.".to_owned(),
        Installation::Failed { error } => "Failed to update cookies: ".to_owned().concat(
            error.as_str(),
        ),
        Installation::Crashed { error } => "Cookie installation task failed: ".to_owned().concat(
            error.as_str(),
        ),
    }
}

/// What to write where, in order to put cookies in the file at `path`: the
/// proper text goes to a temporary file, which then takes the place of `path`.
pub struct InstallPlan {
    pub temporary: String,
    pub text: String,
}

/// The temporary file beside `path` that carries `number` in its name.
pub open spec fn temporary_beside(path: Seq<char>, number: u64) -> Seq<char> {
    with_extension_in(path, "tmp-"@ + padded_hex(number as nat, 16))
}

/// What to write where, in order to put cookies in the file at `path`, with a
/// temporary file that carries `number` in its name.
pub fn install_numbered(path: &str, content: &str, number: u64) -> (result: Result<
    InstallPlan,
    CookieError,
>)
    ensures
        match (result, normalized(content@)) {
            (Ok(plan), Ok(text)) => plan.text@ == text && plan.temporary@ == temporary_beside(
                path@,
                number,
            ),
            (Err(error), Err(expected)) => error == expected,
            _ => false,
        },
{
    match normalize_netscape(content) {
        Ok(text) => {
            let extension = "tmp-".to_owned().concat(write_hex(number, 16).as_str());
            Ok(InstallPlan { temporary: with_extension(path, extension.as_str()), text })
        },
        Err(error) => Err(error),
    }
}

/// What to write where, in order to put cookies in the file at `path`, with a
/// temporary file whose name is left to chance.
pub fn install(path: &str, content: &str) -> (result: Result<InstallPlan, CookieError>)
    ensures
        match (result, normalized(content@)) {
            (Ok(plan), Ok(text)) => plan.text@ == text && exists|number: u64|
                plan.temporary@ == #[trigger] temporary_beside(path@, number),
            (Err(error), Err(expected)) => error == expected,
            _ => false,
        },
{
    let number: u64 = random_number();
    install_numbered(path, content, number)
}

// ---------------------------------------------------------------------------
// Laws
// ---------------------------------------------------------------------------

/// Who is no superuser cannot change the cookies, whatever they send.
pub proof fn law_only_superusers_install_cookies(
    text: Seq<char>,
    sender_id: i64,
    super_users: Seq<i64>,
)
    ensures
        cookie_step(text, sender_id, super_users) is Install ==> super_users.contains(sender_id),
{
}

/// Content that is accepted can be installed: what is rejected never replaces
/// what is there.
pub proof fn law_only_proper_cookies_are_installed(
    text: Seq<char>,
    sender_id: i64,
    super_users: Seq<i64>,
)
    ensures
        cookie_step(text, sender_id, super_users) matches CookieStepView::Install(content) ==>
            normalized(content) is Ok,
{
}

/// The lines, each as it stands in a proper file.
spec fn proper_lines(lines: Seq<Seq<char>>) -> Seq<Seq<char>> {
    lines.map_values(|line: Seq<char>| proper_line(line))
}

/// A proper line is proper as it stands, and of the same sort as the line that
/// it was made of.
proof fn lemma_proper_lines_stay(line: Seq<char>)
    requires
        !line.contains('\n'),
    ensures
        is_remark(proper_line(line)) == is_remark(line),
        proper_line(proper_line(line)) == proper_line(line),
        cookie_fields(proper_line(line)) == cookie_fields(line) || is_remark(line),
        !proper_line(line).contains('\n'),
        without_carriage_return(proper_line(line)) == proper_line(line),
{
    lemma_trimmed(line);
    if !is_remark(line) {
        lemma_words(trimmed(line));
        lemma_tabbed_words(cookie_fields(line));
        let row = proper_line(line);
        assert(is_word(cookie_fields(line)[0]));
        assert(trimmed(row) == row);
    }
}

/// A proper text is read as the lines that it is made of.
proof fn lemma_proper_text_reads_back(lines: Seq<Seq<char>>)
    requires
        forall|i: int| 0 <= i < lines.len() ==> !(#[trigger] lines[i]).contains('\n'),
    ensures
        split_parts(proper_text(lines), '\n') == proper_lines(lines).push(Seq::empty()),
        lines.len() > 0 ==> proper_text(lines).len() > 0 && proper_text(lines).last() == '\n'
            && split_parts(proper_text(lines).drop_last(), '\n') == proper_lines(lines),
    decreases lines.len(),
{
    let text = proper_text(lines);
    if lines.len() == 0 {
        assert(proper_lines(lines).push(Seq::empty()) =~= seq![Seq::<char>::empty()]);
    } else {
        let fewer = lines.drop_last();
        let before = proper_text(fewer);
        let row = proper_line(lines.last());
        assert(!lines[lines.len() - 1].contains('\n'));
        lemma_proper_lines_stay(lines.last());
        assert forall|i: int| 0 <= i < fewer.len() implies !(#[trigger] fewer[i]).contains(
            '\n',
        ) by {
            assert(fewer[i] == lines[i]);
        }
        lemma_proper_text_reads_back(fewer);
        assert(text.drop_last() =~= before + row);
        if fewer.len() == 0 {
            assert(before + row =~= row);
            lemma_split_whole(row, '\n');
            assert(proper_lines(lines) =~= seq![row]);
        } else {
            lemma_split_after(before.drop_last(), row, '\n');
            assert(before + row =~= before.drop_last().push('\n') + row);
            assert(proper_lines(lines) =~= proper_lines(fewer).push(row));
        }
        lemma_split_after(before + row, Seq::empty(), '\n');
        assert(text =~= (before + row).push('\n') + Seq::empty());
    }
}

proof fn lemma_none_malformed(lines: Seq<Seq<char>>, from: int)
    requires
        0 <= from,
    ensures
        first_malformed(lines, from) is None <==> forall|i: int|
            from <= i < lines.len() ==> !is_malformed(#[trigger] lines[i]),
    decreases lines.len() - from,
{
    if from < lines.len() {
        lemma_none_malformed(lines, from + 1);
    }
}

proof fn lemma_proper_lines_make_the_same_text(lines: Seq<Seq<char>>)
    requires
        forall|i: int| 0 <= i < lines.len() ==> !(#[trigger] lines[i]).contains('\n'),
    ensures
        proper_text(proper_lines(lines)) == proper_text(lines),
    decreases lines.len(),
{
    if lines.len() > 0 {
        let fewer = lines.drop_last();
        assert(!lines[lines.len() - 1].contains('\n'));
        lemma_proper_lines_stay(lines.last());
        assert forall|i: int| 0 <= i < fewer.len() implies !(#[trigger] fewer[i]).contains(
            '\n',
        ) by {
            assert(fewer[i] == lines[i]);
        }
        lemma_proper_lines_make_the_same_text(fewer);
        assert(proper_lines(lines).drop_last() =~= proper_lines(fewer));
    }
}

/// What is installed is a proper file already: making one of it again changes
/// nothing.
pub proof fn law_proper_files_stay_as_they_are(content: Seq<char>)
    ensures
        normalized(content) matches Ok(text) ==> normalized(text) == Ok::<Seq<char>, CookieError>(
            text,
        ),
{
    if let Ok(text) = normalized(content) {
        let lines = lines_of(content);
        let rows = proper_lines(lines);
        lemma_lines_are_unbroken(content);
        lemma_none_malformed(lines, 0);
        lemma_proper_text_reads_back(lines);
        lemma_proper_lines_make_the_same_text(lines);
        assert(rows.push(Seq::<char>::empty()).drop_last() =~= rows);
        assert forall|i: int| 0 <= i < rows.len() implies !is_malformed(#[trigger] rows[i])
            && is_remark(rows[i]) == is_remark(lines[i]) && without_carriage_return(rows[i])
            == rows[i] by {
            assert(!is_malformed(lines[i]));
            lemma_proper_lines_stay(lines[i]);
        }
        assert(lines_of(text) =~= rows);
        lemma_none_malformed(rows, 0);
        let k = choose|k: int| 0 <= k < lines.len() && !is_remark(#[trigger] lines[k]);
        assert(!is_remark(rows[k]));
    }
}

} // verus!
