//! The commit-message linter: a header, an optional body and an optional
//! footer, separated by blank lines.

use crate::pattern::{found, occurs};
use crate::text::{
    after_first_line, after_last_blank, all_lines, whitespace, find_char, find_whitespace, first_blank,
    first_line, first_where, index_of, equal_to, last_blank, lemma_all_lines_step, blank_at, is_first_blank, lacks, lemma_lines_empty,
    lemma_first_where, lemma_first_where_is, line_at, lines, skip_whitespace, non_whitespace, spells, split_at_first_blank,
    to_chars, trim_start, without_whitespace,
};
use crate::unicode::{char_is_lowercase, is_lowercase, is_whitespace};
use vstd::prelude::*;

verus! {

/// The longest line a message may hold, in characters.
pub const LINE_LIMIT: usize = 100;

/// The header type that announces a revert.
pub const REVERT: &'static str = "revert";

/// The footer keyword that announces closed issues.
pub const CLOSES: &'static str = "Closes";

/// A header type: one of the seven known words, then any number of scopes in
/// parentheses.
pub const TYPE_PATTERN: &'static str =
    "^(?:feat|fix|docs|style|refactor|test|chore)(?:\\([[:alpha:]]+\\))*$";

/// The sentence that names the reverted commit by its forty hex digits.
pub const REVERT_PATTERN: &'static str = "This reverts commit [[:xdigit:]]{40}\\.";

/// A reference to an issue: a hash sign and its number.
pub const ISSUE_PATTERN: &'static str = "^#\\d+$";

/// Why a commit message was turned down.
#[derive(Debug, Clone, Copy, PartialEq, Eq, Structural)]
pub enum MsgError {
    /// The message is not a header followed by a blank line.
    General,
    /// The header has no known type in front of a colon.
    Header,
    /// A revert does not repeat a valid header or does not name the commit.
    Revert,
    /// A line is longer than `LINE_LIMIT`.
    LenLimit,
    /// A `Closes` line lists something that is not an issue reference.
    CloseIssue,
    /// The subject is missing, starts in upper case or ends with a period.
    Subject,
}

/// The explanation shown for each kind of error.
pub open spec fn explanation(e: MsgError) -> Seq<char> {
    match e {
        MsgError::General =>
            "\ncommit message format:\n<type>(<scope>): <subject>\n<BLANK LINE>\n[<body>]\n<BLANK LINE>\n[<footer>]"@,
        MsgError::Header =>
            "\n<header> format: <type>[<scope>]: <subject>\n<type> should be one of the follows:\nfeat (feature)\nfix (bug fix)\ndocs (documentation)\nstyle (formatting, missing semi colons, \u{e2}\u{20ac}\u{a6})\nrefactor\ntest (when adding missing tests)\nchore (maintain)"@,
        MsgError::Revert =>
            "\nrevert commit format:\nrevert: <reverted commit header>\n<BLANK LINE>\nThis reverts commit <commit hash>."@,
        MsgError::LenLimit => "Any line of the commit message cannot be longer 100 characters!"@,
        MsgError::CloseIssue => "\nCloses issue format:\nCloses #<num> [, #<num>...]"@,
        MsgError::Subject =>
            "\n<subject> must be provided and should satisfy follow requirements:\n- use imperative, present tense: \"change\" not \"changed\" nor \"changes\"\n- don't capitalize first letter\n- no dot (.) at the end"@,
    }
}

impl MsgError {
    /// The explanation of the expected format, as shown to the user.
    pub fn message(&self) -> (text: String)
        ensures
            text@ == explanation(*self),
    {
        match self {
            MsgError::General => String::from_str(
                "\ncommit message format:\n<type>(<scope>): <subject>\n<BLANK LINE>\n[<body>]\n<BLANK LINE>\n[<footer>]",
            ),
            MsgError::Header => String::from_str(
                "\n<header> format: <type>[<scope>]: <subject>\n<type> should be one of the follows:\nfeat (feature)\nfix (bug fix)\ndocs (documentation)\nstyle (formatting, missing semi colons, \u{e2}\u{20ac}\u{a6})\nrefactor\ntest (when adding missing tests)\nchore (maintain)",
            ),
            MsgError::Revert => String::from_str(
                "\nrevert commit format:\nrevert: <reverted commit header>\n<BLANK LINE>\nThis reverts commit <commit hash>.",
            ),
            MsgError::LenLimit => String::from_str(
                "Any line of the commit message cannot be longer 100 characters!",
            ),
            MsgError::CloseIssue => String::from_str(
                "\nCloses issue format:\nCloses #<num> [, #<num>...]",
            ),
            MsgError::Subject => String::from_str(
                "\n<subject> must be provided and should satisfy follow requirements:\n- use imperative, present tense: \"change\" not \"changed\" nor \"changes\"\n- don't capitalize first letter\n- no dot (.) at the end",
            ),
        }
    }
}

/// Whether a line is a comment, which the linter skips.
pub open spec fn is_comment(line: Seq<char>) -> bool {
    line.len() > 0 && line[0] == '#'
}

/// The message as the linter reads it: comment lines are dropped and every
/// other line is ended by a single line feed.
pub open spec fn normalized(text: Seq<char>) -> Seq<char>
    decreases text.len(),
{
    if text.len() == 0 {
        Seq::empty()
    } else {
        proof {
            lemma_first_where(text, equal_to('\n'));
        }
        let rest = normalized(after_first_line(text));
        if is_comment(first_line(text)) {
            rest
        } else {
            first_line(text).push('\n') + rest
        }
    }
}

/// The lines of at most `LINE_LIMIT` characters.
pub open spec fn short() -> spec_fn(Seq<char>) -> bool {
    |line: Seq<char>| line.len() <= LINE_LIMIT
}

/// Whether a subject is given, starts with a lowercase letter and does not
/// end with a period.
pub open spec fn subject_ok(subject: Seq<char>) -> bool {
    subject.len() > 0 && is_lowercase(subject[0]) && subject.last() != '.'
}

/// Whether a header has a colon.
pub open spec fn has_colon(header: Seq<char>) -> bool {
    index_of(header, ':') < header.len()
}

/// What stands before the first colon of a header.
pub open spec fn type_of(header: Seq<char>) -> Seq<char> {
    header.take(index_of(header, ':'))
}

/// What stands after the first colon of a header, less leading whitespace.
pub open spec fn subject_of(header: Seq<char>) -> Seq<char> {
    trim_start(header.skip(index_of(header, ':') + 1))
}

/// Whether a header announces a revert.
pub open spec fn is_revert(header: Seq<char>) -> bool {
    has_colon(header) && type_of(header) == REVERT@
}

/// The verdict on a header. A revert repeats the header of the commit it
/// reverts, and any fault in that inner header is reported as `Revert`.
pub open spec fn header_verdict(header: Seq<char>) -> Result<(), MsgError>
    decreases header.len(),
{
    if !has_colon(header) {
        Err(MsgError::Header)
    } else if type_of(header) == REVERT@ {
        proof {
            lemma_first_where(header, equal_to(':'));
            lemma_first_where(header.skip(index_of(header, ':') + 1), non_whitespace());
        }
        if header_verdict(subject_of(header)) is Ok {
            Ok(())
        } else {
            Err(MsgError::Revert)
        }
    } else if !found(TYPE_PATTERN@, type_of(header)) {
        Err(MsgError::Header)
    } else if !subject_ok(subject_of(header)) {
        Err(MsgError::Subject)
    } else {
        Ok(())
    }
}

/// The issue references of a `Closes` line: the parts between commas. A
/// comma at the very end opens no further part.
pub open spec fn issue_refs(list: Seq<char>) -> Seq<Seq<char>>
    decreases list.len(),
{
    if list.len() == 0 {
        Seq::empty()
    } else {
        proof {
            lemma_first_where(list, equal_to(','));
        }
        let comma = index_of(list, ',');
        seq![list.take(comma)] + issue_refs(
            if comma < list.len() {
                list.skip(comma + 1)
            } else {
                Seq::empty()
            },
        )
    }
}

/// Whether every part of a list of issue references is a hash sign and a
/// number.
pub open spec fn issues_ok(list: Seq<char>) -> bool {
    forall|k: int|
        0 <= k < issue_refs(list).len() ==> found(ISSUE_PATTERN@, #[trigger] issue_refs(list)[k])
}

/// The first word of a line: what stands between its leading whitespace and
/// the next whitespace.
pub open spec fn first_word(line: Seq<char>) -> Seq<char> {
    trim_start(line).take(first_where(trim_start(line), whitespace()))
}

/// What follows the first word of a line, with all whitespace taken out.
pub open spec fn after_first_word(line: Seq<char>) -> Seq<char> {
    trim_start(line).skip(first_where(trim_start(line), whitespace())).filter(non_whitespace())
}

/// Whether a footer line is acceptable: a line whose first word is `Closes`
/// must go on with issue references only.
pub open spec fn closes_ok(line: Seq<char>) -> bool {
    first_word(line) == CLOSES@ ==> issues_ok(after_first_word(line))
}

/// The footer lines that are acceptable.
pub open spec fn closing() -> spec_fn(Seq<char>) -> bool {
    |line: Seq<char>| closes_ok(line)
}

/// The verdict on a header and on what follows its blank line, if anything
/// does.
pub open spec fn parts_verdict(header: Seq<char>, rest: Option<Seq<char>>) -> Result<
    (),
    MsgError,
> {
    if header_verdict(header) is Err {
        header_verdict(header)
    } else if is_revert(header) && !(rest is Some && found(REVERT_PATTERN@, rest->0)) {
        Err(MsgError::Revert)
    } else if rest is Some && !all_lines(after_last_blank(rest->0), closing()) {
        Err(MsgError::CloseIssue)
    } else {
        Ok(())
    }
}

/// The verdict on a whole message.
pub open spec fn message_verdict(text: Seq<char>) -> Result<(), MsgError> {
    let message = normalized(text);
    if !all_lines(message, short()) {
        Err(MsgError::LenLimit)
    } else {
        match split_at_first_blank(message) {
            Some((header, rest)) => parts_verdict(header, Some(rest)),
            None => if lines(message).len() == 1 {
                parts_verdict(message.drop_last(), None)
            } else {
                Err(MsgError::General)
            },
        }
    }
}

/// Decides on a header that is not a revert, from whether its type matched
/// `TYPE_PATTERN` and whether its subject starts with a lowercase letter.
pub fn header_rule(type_known: bool, subject: &[char], lowercase_start: bool) -> (r: Result<
    (),
    MsgError,
>)
    ensures
        r == if !type_known {
            Err::<(), MsgError>(MsgError::Header)
        } else if subject@.len() == 0 || !lowercase_start || subject@.last() == '.' {
            Err(MsgError::Subject)
        } else {
            Ok(())
        },
{
    if !type_known {
        Err(MsgError::Header)
    } else if subject.len() == 0 || !lowercase_start || subject[subject.len() - 1] == '.' {
        Err(MsgError::Subject)
    } else {
        Ok(())
    }
}

/// Decides on a revert from the verdict on the header it repeats.
pub fn revert_rule(inner: Result<(), MsgError>) -> (r: Result<(), MsgError>)
    ensures
        r == if inner is Ok {
            Ok::<(), MsgError>(())
        } else {
            Err(MsgError::Revert)
        },
{
    match inner {
        Ok(()) => Ok(()),
        Err(_) => Err(MsgError::Revert),
    }
}

/// Decides on a message from what was found in it: the verdict on its header,
/// whether the header announces a revert, whether the rest names the reverted
/// commit, and whether the footer is acceptable.
pub fn message_rule(header: Result<(), MsgError>, revert: bool, names_commit: bool, footer_ok: bool) -> (r:
    Result<(), MsgError>)
    ensures
        r == if header is Err {
            header
        } else if revert && !names_commit {
            Err(MsgError::Revert)
        } else if !footer_ok {
            Err(MsgError::CloseIssue)
        } else {
            Ok(())
        },
{
    if header.is_err() {
        header
    } else if revert && !names_commit {
        Err(MsgError::Revert)
    } else if !footer_ok {
        Err(MsgError::CloseIssue)
    } else {
        Ok(())
    }
}

/// The header of a commit message: what stands before its first blank line.
pub struct Header<'a> {
    header: &'a [char],
}

impl<'a> View for Header<'a> {
    type V = Seq<char>;

    closed spec fn view(&self) -> Seq<char> {
        self.header@
    }
}

impl<'a> Header<'a> {
    /// Wraps the characters of a header.
    pub fn new(header: &'a [char]) -> (h: Self)
        ensures
            h@ == header@,
    {
        Self { header }
    }

    /// Checks the header against `<type>[(<scope>)]: <subject>`. After
    /// `revert:` the header of the reverted commit is checked in its place.
    pub fn check(&self) -> (r: Result<(), MsgError>)
        ensures
            r == header_verdict(self@),
        decreases self@.len(),
    {
        let h = self.header;
        let colon = find_char(h, 0, ':');
        assert(h@.skip(0) =~= h@);
        if colon >= h.len() {
            return Err(MsgError::Header);
        }
        let ty = &h[0..colon];
        let start = skip_whitespace(h, colon + 1);
        let subject = &h[start..h.len()];
        proof {
            assert(ty@ =~= type_of(h@));
            assert(subject@ =~= h@.skip(start as int));
            assert(subject@ == subject_of(h@));
        }
        if spells(ty, REVERT) {
            return revert_rule(Header::new(subject).check());
        }
        let type_known = occurs(TYPE_PATTERN, ty);
        let lowercase_start = subject.len() > 0 && char_is_lowercase(subject[0]);
        header_rule(type_known, subject, lowercase_start)
    }

    /// Whether the type of the header is `revert`.
    pub fn is_revert(&self) -> (b: bool)
        ensures
            b == is_revert(self@),
    {
        let h = self.header;
        let colon = find_char(h, 0, ':');
        assert(h@.skip(0) =~= h@);
        if colon < h.len() {
            let ty = &h[0..colon];
            assert(ty@ =~= h@.take(colon as int));
            spells(ty, REVERT)
        } else {
            false
        }
    }
}

/// Checks the issue references after `Closes`.
fn check_issues(list: &[char]) -> (b: bool)
    ensures
        b == issues_ok(list@),
{
    let mut pos: usize = 0;
    assert(list@.skip(0) =~= list@);
    while pos < list.len()
        invariant
            pos <= list@.len(),
            issues_ok(list@) == issues_ok(list@.skip(pos as int)),
        decreases list@.len() - pos,
    {
        let comma = find_char(list, pos, ',');
        let part = &list[pos..comma];
        let next = if comma < list.len() {
            comma + 1
        } else {
            comma
        };
        proof {
            let rest = list@.skip(pos as int);
            assert(part@ =~= rest.take(comma - pos));
            if comma < list@.len() {
                assert(list@.skip(next as int) =~= rest.skip(comma - pos + 1));
            } else {
                assert(list@.skip(next as int) =~= Seq::<char>::empty());
            }
            lemma_issues_step(rest);
        }
        if !occurs(ISSUE_PATTERN, part) {
            return false;
        }
        pos = next;
    }
    assert(issue_refs(list@.skip(pos as int)).len() == 0);
    true
}

/// Every issue reference of a list is well formed exactly when the first one
/// is and those after it are.
proof fn lemma_issues_step(list: Seq<char>)
    requires
        list.len() > 0,
    ensures
        issues_ok(list) <==> found(ISSUE_PATTERN@, list.take(index_of(list, ','))) && issues_ok(
            if index_of(list, ',') < list.len() {
                list.skip(index_of(list, ',') + 1)
            } else {
                Seq::empty()
            },
        ),
{
    let comma = index_of(list, ',');
    let tail = if comma < list.len() {
        list.skip(comma + 1)
    } else {
        Seq::empty()
    };
    let rest = issue_refs(tail);
    assert(issue_refs(list) =~= seq![list.take(comma)] + rest);
    if issues_ok(list) {
        assert(issue_refs(list)[0] == list.take(comma));
        assert forall|k: int| 0 <= k < rest.len() implies found(
            ISSUE_PATTERN@,
            #[trigger] rest[k],
        ) by {
            assert(issue_refs(list)[k + 1] == rest[k]);
        }
    }
    if found(ISSUE_PATTERN@, list.take(comma)) && issues_ok(tail) {
        assert forall|k: int| 0 <= k < issue_refs(list).len() implies found(
            ISSUE_PATTERN@,
            #[trigger] issue_refs(list)[k],
        ) by {
            if k > 0 {
                assert(issue_refs(list)[k] == rest[k - 1]);
            }
        }
    }
}

/// Checks one footer line.
fn check_closes(line: &[char]) -> (b: bool)
    ensures
        b == closes_ok(line@),
{
    let start = skip_whitespace(line, 0);
    let end = find_whitespace(line, start);
    let word = &line[start..end];
    let tail = &line[end..line.len()];
    proof {
        assert(line@.skip(0) =~= line@);
        assert(word@ =~= first_word(line@));
        assert(tail@ =~= trim_start(line@).skip(first_where(trim_start(line@), whitespace())));
    }
    if !spells(word, CLOSES) {
        return true;
    }
    let list = without_whitespace(tail);
    check_issues(list.as_slice())
}

/// Checks every line of a footer.
fn check_footer(footer: &[char]) -> (b: bool)
    ensures
        b == all_lines(footer@, closing()),
{
    let mut pos: usize = 0;
    assert(footer@.skip(0) =~= footer@);
    while pos < footer.len()
        invariant
            pos <= footer@.len(),
            all_lines(footer@, closing()) == all_lines(footer@.skip(pos as int), closing()),
        decreases footer@.len() - pos,
    {
        let (stop, next) = line_at(footer, pos);
        let line = &footer[pos..stop];
        proof {
            lemma_all_lines_step(footer@.skip(pos as int), closing());
        }
        if !check_closes(line) {
            return false;
        }
        pos = next;
    }
    true
}

/// Whether no line of `message` is longer than `LINE_LIMIT`.
fn within_limit(message: &[char]) -> (b: bool)
    ensures
        b == all_lines(message@, short()),
{
    let mut pos: usize = 0;
    assert(message@.skip(0) =~= message@);
    while pos < message.len()
        invariant
            pos <= message@.len(),
            all_lines(message@, short()) == all_lines(message@.skip(pos as int), short()),
        decreases message@.len() - pos,
    {
        let (stop, next) = line_at(message, pos);
        proof {
            lemma_all_lines_step(message@.skip(pos as int), short());
        }
        if stop - pos > LINE_LIMIT {
            return false;
        }
        pos = next;
    }
    true
}

/// Drops the comment lines of `text` and ends every other line with a line
/// feed.
fn normalize(text: &[char]) -> (message: Vec<char>)
    ensures
        message@ == normalized(text@),
{
    let mut message: Vec<char> = Vec::new();
    let mut pos: usize = 0;
    assert(text@.skip(0) =~= text@);
    while pos < text.len()
        invariant
            pos <= text@.len(),
            normalized(text@) == message@ + normalized(text@.skip(pos as int)),
        decreases text@.len() - pos,
    {
        let (stop, next) = line_at(text, pos);
        let ghost before = message@;
        let ghost line = text@.subrange(pos as int, stop as int);
        if !(stop > pos && text[pos] == '#') {
            let mut i: usize = pos;
            while i < stop
                invariant
                    pos <= i <= stop <= text@.len(),
                    message@ == before + text@.subrange(pos as int, i as int),
                decreases stop - i,
            {
                message.push(text[i]);
                i += 1;
                assert(text@.subrange(pos as int, i as int) =~= text@.subrange(
                    pos as int,
                    i - 1,
                ).push(text@[i - 1]));
            }
            message.push('\n');
            assert(message@ =~= before + line.push('\n'));
        }
        assert(normalized(text@) =~= message@ + normalized(text@.skip(next as int)));
        pos = next;
    }
    assert(message@ + Seq::<char>::empty() =~= message@);
    message
}

/// Checks a header and what follows its blank line.
fn check_parts(header: &[char], rest: Option<&[char]>) -> (r: Result<(), MsgError>)
    ensures
        r == parts_verdict(
            header@,
            match rest {
                Some(rest) => Some(rest@),
                None => None,
            },
        ),
{
    let header = Header::new(header);
    let verdict = header.check();
    let revert = header.is_revert();
    match rest {
        Some(rest) => {
            let names_commit = occurs(REVERT_PATTERN, rest);
            let end = rest.len();
            let footer = match last_blank(rest) {
                Some(at) => &rest[at + 2..end],
                None => rest,
            };
            assert(footer@ =~= after_last_blank(rest@));
            let footer_ok = check_footer(footer);
            message_rule(verdict, revert, names_commit, footer_ok)
        },
        None => message_rule(verdict, revert, false, true),
    }
}

/// A commit message as it was read.
pub struct CommitMessage {
    contents: String,
}

impl View for CommitMessage {
    type V = Seq<char>;

    closed spec fn view(&self) -> Seq<char> {
        self.contents@
    }
}

impl CommitMessage {
    /// Holds the text of a commit message.
    pub fn new(contents: String) -> (message: Self)
        ensures
            message@ == contents@,
    {
        Self { contents }
    }

    /// Lints the message.
    pub fn check(&self) -> (r: Result<(), MsgError>)
        ensures
            r == message_verdict(self@),
    {
        let text = to_chars(self.contents.as_str());
        let message = normalize(text.as_slice());
        let message = message.as_slice();
        if !within_limit(message) {
            return Err(MsgError::LenLimit);
        }
        let end = message.len();
        match first_blank(message) {
            Some(at) => {
                let header = &message[0..at];
                let rest = &message[at + 2..end];
                proof {
                    assert(header@ =~= message@.take(at as int));
                    assert(rest@ =~= message@.skip(at + 2));
                    assert(blank_at(message@, at as int));
                    let first = choose|i: int| is_first_blank(message@, i);
                    assert(is_first_blank(message@, at as int));
                    assert(first == at);
                }
                check_parts(header, Some(rest))
            },
            None => {
                proof {
                    assert(message@.skip(0) =~= message@);
                    lemma_lines_empty(after_first_line(message@));
                    assert(!(exists|i: int| blank_at(message@, i)));
                }
                if end > 0 && line_at(message, 0).1 == end {
                    let header = &message[0..end - 1];
                    proof {
                        assert(header@ =~= message@.drop_last());
                        assert(lines(message@).len() == 1);
                    }
                    check_parts(header, None)
                } else {
                    proof {
                        assert(lines(message@).len() != 1);
                    }
                    Err(MsgError::General)
                }
            },
        }
    }
}

/// A line without the carriage return that may end it.
pub open spec fn without_return(line: Seq<char>) -> Seq<char> {
    if line.len() > 0 && line.last() == '\r' {
        line.drop_last()
    } else {
        line
    }
}

/// A message of one line that is no comment is its own header, with nothing
/// after it, as long as the line is within the limit.
pub proof fn lemma_single_line(text: Seq<char>)
    requires
        0 < text.len() <= LINE_LIMIT,
        lacks(text, '\n'),
        text[0] != '#',
    ensures
        normalized(text) == text.push('\n'),
        message_verdict(text) == parts_verdict(text, None),
{
    lemma_first_where_is(text, equal_to('\n'), text.len() as int);
    assert(first_line(text) =~= text);
    assert(after_first_line(text) =~= Seq::<char>::empty());
    let message = text.push('\n');
    assert(normalized(after_first_line(text)) =~= Seq::<char>::empty());
    assert(normalized(text) =~= message);
    lemma_first_where_is(message, equal_to('\n'), text.len() as int);
    assert(after_first_line(message) =~= Seq::<char>::empty());
    assert(lines(after_first_line(message)) =~= Seq::<Seq<char>>::empty());
    assert(lines(message) =~= seq![first_line(message)]);
    assert(first_line(message).len() <= text.len());
    assert(all_lines(message, short()));
    assert forall|i: int| !blank_at(message, i) by {
        if 0 <= i && i + 1 < message.len() {
            assert(message[i] == text[i]);
        }
    }
    assert(message.drop_last() =~= text);
}

/// A comment line in front of a message changes nothing: the message is read
/// and judged as it is without that line.
pub proof fn lemma_comment_is_skipped(comment: Seq<char>, rest: Seq<char>)
    requires
        comment.len() > 0,
        comment[0] == '#',
        lacks(comment, '\n'),
    ensures
        normalized(comment + seq!['\n'] + rest) == normalized(rest),
        message_verdict(comment + seq!['\n'] + rest) == message_verdict(rest),
{
    let text = comment + seq!['\n'] + rest;
    lemma_first_where_is(text, equal_to('\n'), comment.len() as int);
    assert(first_line(text).len() > 0 && first_line(text)[0] == '#');
    assert(after_first_line(text) =~= rest);
}

/// A message that is nothing but a header of the form `type: subject` is
/// accepted: the type fits `TYPE_PATTERN`, the subject starts with a
/// lowercase letter and does not end with a period, any whitespace but a
/// line feed may stand between colon and subject, and the line is within the
/// limit.
pub proof fn lemma_plain_header_is_accepted(ty: Seq<char>, gap: Seq<char>, subject: Seq<char>)
    requires
        found(TYPE_PATTERN@, ty),
        ty != REVERT@,
        lacks(ty, ':'),
        lacks(ty, '\n'),
        ty.len() > 0 ==> ty[0] != '#',
        forall|i: int| 0 <= i < gap.len() ==> is_whitespace(gap[i]) && gap[i] != '\n',
        subject_ok(subject),
        !is_whitespace(subject[0]),
        lacks(subject, '\n'),
        ty.len() + 1 + gap.len() + subject.len() <= LINE_LIMIT,
    ensures
        message_verdict(ty + seq![':'] + gap + subject) == Ok::<(), MsgError>(()),
{
    let text = ty + seq![':'] + gap + subject;
    lemma_header_parts(ty, gap, subject);
    lemma_single_line(text);
}

/// The message `type: subject`, with one space after the colon, is accepted
/// under the same conditions on type and subject.
pub proof fn lemma_type_and_subject_is_accepted(ty: Seq<char>, subject: Seq<char>)
    requires
        found(TYPE_PATTERN@, ty),
        ty != REVERT@,
        lacks(ty, ':'),
        lacks(ty, '\n'),
        ty.len() > 0 ==> ty[0] != '#',
        subject_ok(subject),
        !is_whitespace(subject[0]),
        lacks(subject, '\n'),
        ty.len() + 2 + subject.len() <= LINE_LIMIT,
    ensures
        message_verdict(ty + seq![':', ' '] + subject) == Ok::<(), MsgError>(()),
{
    lemma_plain_header_is_accepted(ty, seq![' '], subject);
    assert(ty + seq![':', ' '] + subject =~= ty + seq![':'] + seq![' '] + subject);
}

/// A header whose type is neither `revert` nor fits `TYPE_PATTERN` is
/// rejected as `Header`, whatever follows the colon.
pub proof fn lemma_unknown_type_header(ty: Seq<char>, tail: Seq<char>)
    requires
        !found(TYPE_PATTERN@, ty),
        ty != REVERT@,
        lacks(ty, ':'),
    ensures
        header_verdict(ty + seq![':'] + tail) == Err::<(), MsgError>(MsgError::Header),
{
    let header = ty + seq![':'] + tail;
    lemma_first_where_is(header, equal_to(':'), ty.len() as int);
    assert(type_of(header) =~= ty);
}

/// A message that is nothing but a header whose type is neither `revert` nor
/// fits `TYPE_PATTERN` is rejected as `Header`, whatever its subject.
pub proof fn lemma_unknown_type_is_rejected(ty: Seq<char>, tail: Seq<char>)
    requires
        !found(TYPE_PATTERN@, ty),
        ty != REVERT@,
        lacks(ty, ':'),
        lacks(ty, '\n'),
        ty.len() > 0 ==> ty[0] != '#',
        lacks(tail, '\n'),
        ty.len() + 1 + tail.len() <= LINE_LIMIT,
    ensures
        message_verdict(ty + seq![':'] + tail) == Err::<(), MsgError>(MsgError::Header),
{
    lemma_unknown_type_header(ty, tail);
    lemma_single_line(ty + seq![':'] + tail);
}

/// A message whose header has a type that is neither `revert` nor fits
/// `TYPE_PATTERN` is rejected as `Header` whatever its body and footer hold,
/// as long as no line of them is longer than the limit.
pub proof fn lemma_unknown_type_with_body_is_rejected(
    ty: Seq<char>,
    tail: Seq<char>,
    body: Seq<char>,
)
    requires
        !found(TYPE_PATTERN@, ty),
        ty != REVERT@,
        lacks(ty, ':'),
        lacks(ty, '\n'),
        ty.len() > 0 ==> ty[0] != '#',
        lacks(tail, '\n'),
        ty.len() + 1 + tail.len() <= LINE_LIMIT,
        all_lines(normalized(body), short()),
    ensures
        message_verdict(ty + seq![':'] + tail + seq!['\n', '\n'] + body) == Err::<(), MsgError>(
            MsgError::Header,
        ),
{
    let header = ty + seq![':'] + tail;
    lemma_header_and_body(header, body);
    assert(without_return(header) =~= ty + seq![':'] + without_return(tail));
    lemma_unknown_type_header(ty, without_return(tail));
}

/// A message that starts with one line that is no comment, then a blank
/// line, is judged by that line as its header, less the carriage return that
/// may end it, and by what is read of the rest.
pub proof fn lemma_header_and_body(header: Seq<char>, body: Seq<char>)
    requires
        0 < header.len() <= LINE_LIMIT,
        lacks(header, '\n'),
        header[0] != '#',
    ensures
        normalized(header + seq!['\n', '\n'] + body) == without_return(header) + seq!['\n', '\n']
            + normalized(body),
        message_verdict(header + seq!['\n', '\n'] + body) == if all_lines(
            normalized(body),
            short(),
        ) {
            parts_verdict(without_return(header), Some(normalized(body)))
        } else {
            Err(MsgError::LenLimit)
        },
{
    let text = header + seq!['\n', '\n'] + body;
    let read = without_return(header);
    let rest = normalized(body);
    // The first line of the text is the header, the second one is empty.
    lemma_first_where_is(text, equal_to('\n'), header.len() as int);
    assert(first_line(text) =~= read);
    let second = seq!['\n'] + body;
    assert(after_first_line(text) =~= second);
    lemma_first_where_is(second, equal_to('\n'), 0);
    assert(first_line(second) =~= Seq::<char>::empty());
    assert(after_first_line(second) =~= body);
    assert(normalized(second) =~= seq!['\n'] + rest);
    let message = read + seq!['\n', '\n'] + rest;
    assert(normalized(text) =~= message);
    // The same two lines open the message as it is read.
    lemma_first_where_is(message, equal_to('\n'), read.len() as int);
    assert(first_line(message).len() <= header.len());
    let tail = seq!['\n'] + rest;
    assert(after_first_line(message) =~= tail);
    lemma_first_where_is(tail, equal_to('\n'), 0);
    assert(first_line(tail) =~= Seq::<char>::empty());
    assert(after_first_line(tail) =~= rest);
    lemma_all_lines_step(message, short());
    lemma_all_lines_step(tail, short());
    assert(all_lines(message, short()) == all_lines(rest, short()));
    // The blank line after the header is the first one.
    assert(is_first_blank(message, read.len() as int)) by {
        assert forall|j: int| 0 <= j < read.len() implies !blank_at(message, j) by {
            assert(message[j] == read[j]);
        }
    }
    let first = choose|i: int| is_first_blank(message, i);
    assert(first == read.len());
    assert(message.take(read.len() as int) =~= read);
    assert(message.skip(read.len() as int + 2) =~= rest);
}

/// Whatever is wrong with the header that a revert repeats, the revert is
/// rejected as `Revert` and as nothing else.
pub proof fn lemma_revert_hides_inner_faults(header: Seq<char>)
    requires
        is_revert(header),
    ensures
        header_verdict(header) is Ok <==> header_verdict(subject_of(header)) is Ok,
        header_verdict(header) is Err ==> header_verdict(header) == Err::<(), MsgError>(
            MsgError::Revert,
        ),
{
}

/// A revert whose header is in order is still rejected as `Revert` when
/// nothing follows the header, or when what follows does not name the
/// reverted commit.
pub proof fn lemma_revert_must_name_commit(header: Seq<char>, rest: Option<Seq<char>>)
    requires
        is_revert(header),
        rest is Some ==> !found(REVERT_PATTERN@, rest->0),
    ensures
        parts_verdict(header, rest) == Err::<(), MsgError>(MsgError::Revert),
{
}

/// The header `ty:gap subject` has `ty` for its type and `subject` for its
/// subject.
proof fn lemma_header_parts(ty: Seq<char>, gap: Seq<char>, subject: Seq<char>)
    requires
        lacks(ty, ':'),
        forall|i: int| 0 <= i < gap.len() ==> is_whitespace(gap[i]),
        subject.len() > 0,
        !is_whitespace(subject[0]),
    ensures
        has_colon(ty + seq![':'] + gap + subject),
        type_of(ty + seq![':'] + gap + subject) == ty,
        subject_of(ty + seq![':'] + gap + subject) == subject,
{
    let text = ty + seq![':'] + gap + subject;
    lemma_first_where_is(text, equal_to(':'), ty.len() as int);
    assert(type_of(text) =~= ty);
    let after = text.skip(ty.len() as int + 1);
    assert(after =~= gap + subject);
    lemma_first_where_is(after, non_whitespace(), gap.len() as int);
    assert(after.skip(gap.len() as int) =~= subject);
}

/// Every line of a message that is no comment is a line of the message as
/// the linter reads it, less the carriage return that may end it.
pub proof fn lemma_kept_line_is_read(text: Seq<char>, k: int)
    requires
        0 <= k < lines(text).len(),
        !is_comment(lines(text)[k]),
    ensures
        exists|j: int|
            0 <= j < lines(normalized(text)).len() && #[trigger] lines(normalized(text))[j]
                == without_return(lines(text)[k]),
    decreases text.len(),
{
    lemma_first_where(text, equal_to('\n'));
    let line = first_line(text);
    let rest = after_first_line(text);
    let message = normalized(text);
    assert(lines(text) =~= seq![line] + lines(rest));
    if is_comment(line) {
        assert(lines(text)[k] == lines(rest)[k - 1]);
        lemma_kept_line_is_read(rest, k - 1);
    } else {
        let read = line.push('\n') + normalized(rest);
        assert(message =~= read);
        lemma_first_where_is(message, equal_to('\n'), line.len() as int);
        assert(first_line(message) =~= without_return(line));
        assert(after_first_line(message) =~= normalized(rest));
        assert(lines(message) =~= seq![first_line(message)] + lines(normalized(rest)));
        if k == 0 {
            assert(lines(message)[0] == without_return(lines(text)[k]));
        } else {
            assert(lines(text)[k] == lines(rest)[k - 1]);
            lemma_kept_line_is_read(rest, k - 1);
            let j = choose|j: int|
                0 <= j < lines(normalized(rest)).len() && #[trigger] lines(normalized(rest))[j]
                    == without_return(lines(rest)[k - 1]);
            assert(lines(message)[j + 1] == lines(normalized(rest))[j]);
        }
    }
}

/// A message with a line of more than `LINE_LIMIT` characters, not counting
/// its line ending, is rejected as `LenLimit` whatever else it holds, unless
/// that line is a comment.
pub proof fn lemma_long_line_is_rejected(text: Seq<char>, k: int)
    requires
        0 <= k < lines(text).len(),
        !is_comment(lines(text)[k]),
        without_return(lines(text)[k]).len() > LINE_LIMIT,
    ensures
        message_verdict(text) == Err::<(), MsgError>(MsgError::LenLimit),
{
    lemma_kept_line_is_read(text, k);
    let j = choose|j: int|
        0 <= j < lines(normalized(text)).len() && #[trigger] lines(normalized(text))[j]
            == without_return(lines(text)[k]);
    assert(!short()(lines(normalized(text))[j]));
}

} // verus!
