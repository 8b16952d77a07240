//! What a check reports: one failure per file, gathered into one report.

use crate::text::{after_first_line, first_line, lacks, line_at, lines, texts, to_chars};
use colored::Colorize;
use vstd::prelude::*;

verus! {

/// The text of a diff between a file and its canonical form.
#[derive(Debug)]
pub struct FileDiffError {
    pub diffs: String,
}

/// What went wrong with one file.
#[derive(Debug)]
pub enum ErrorType {
    /// The file differs from its canonical form.
    Diff(FileDiffError),
    /// The tool reported a defect, or could not be run; the text says why.
    Other(String),
}

/// The failure of one file. An empty path stands for a failure that belongs
/// to no single file.
#[derive(Debug)]
pub struct FileError {
    pub path: String,
    pub err: ErrorType,
}

/// The report of a whole run: every failure that was found. A run succeeds
/// when there is nothing to report.
#[derive(Debug)]
pub struct DiffsError {
    pub errs: Vec<FileError>,
}

/// The kind of a failure and its text.
pub enum Cause {
    Diff(Seq<char>),
    Other(Seq<char>),
}

/// A failure as a value: the path it belongs to and its cause.
pub struct Failure {
    pub path: Seq<char>,
    pub cause: Cause,
}

impl View for FileDiffError {
    type V = Seq<char>;

    open spec fn view(&self) -> Seq<char> {
        self.diffs@
    }
}

impl View for ErrorType {
    type V = Cause;

    open spec fn view(&self) -> Cause {
        match self {
            ErrorType::Diff(diff) => Cause::Diff(diff@),
            ErrorType::Other(text) => Cause::Other(text@),
        }
    }
}

impl View for FileError {
    type V = Failure;

    open spec fn view(&self) -> Failure {
        Failure { path: self.path@, cause: self.err@ }
    }
}

/// The failures that a vector of file errors holds.
pub open spec fn failures(errs: Seq<FileError>) -> Seq<Failure> {
    Seq::new(errs.len(), |i: int| errs[i]@)
}

impl View for DiffsError {
    type V = Seq<Failure>;

    open spec fn view(&self) -> Seq<Failure> {
        failures(self.errs@)
    }
}

/// The failure that belongs to no file: an empty path and the given text.
pub open spec fn unattributed(text: Seq<char>) -> Failure {
    Failure { path: Seq::empty(), cause: Cause::Other(text) }
}

impl FileError {
    /// The failure of the file at `path` whose diff is `diffs`.
    pub fn diff(path: String, diffs: String) -> (e: Self)
        ensures
            e@ == (Failure { path: path@, cause: Cause::Diff(diffs@) }),
    {
        FileError { path, err: ErrorType::Diff(FileDiffError { diffs }) }
    }

    /// The failure of the file at `path` for the reason that `text` gives.
    pub fn other(path: String, text: String) -> (e: Self)
        ensures
            e@ == (Failure { path: path@, cause: Cause::Other(text@) }),
    {
        FileError { path, err: ErrorType::Other(text) }
    }

    /// A failure that belongs to no single file.
    pub fn unattributed(text: String) -> (e: Self)
        ensures
            e@ == unattributed(text@),
    {
        FileError { path: String::new(), err: ErrorType::Other(text) }
    }
}

impl DiffsError {
    /// Turns the failures of a run into its result: `Ok` when there are none.
    pub fn from_failures(errs: Vec<FileError>) -> (r: Result<(), DiffsError>)
        ensures
            match r {
                Ok(()) => errs@.len() == 0,
                Err(report) => report@ == failures(errs@) && errs@.len() > 0,
            },
    {
        if errs.len() == 0 {
            Ok(())
        } else {
            Err(DiffsError { errs })
        }
    }
}

/// How a line of a diff is shown.
#[derive(Debug, Clone, Copy, PartialEq, Eq, Structural)]
pub enum Tone {
    /// The line is only in the file as it is: it starts with `<`.
    Removed,
    /// The line is only in the canonical form: it starts with `>`.
    Added,
    /// Any other line.
    Plain,
}

/// The tone of a line of a diff.
pub open spec fn tone_of(line: Seq<char>) -> Tone {
    if line.len() > 0 && line[0] == '<' {
        Tone::Removed
    } else if line.len() > 0 && line[0] == '>' {
        Tone::Added
    } else {
        Tone::Plain
    }
}

/// The items of a list, each one after a line feed.
pub open spec fn listed(items: Seq<Seq<char>>) -> Seq<char>
    decreases items.len(),
{
    if items.len() == 0 {
        Seq::empty()
    } else {
        listed(items.drop_last()) + "\n"@ + items.last()
    }
}

/// The code that starts red text.
pub const RED: &'static str = "\u{1b}[31m";

/// The code that starts green text.
pub const GREEN: &'static str = "\u{1b}[32m";

/// The code that ends coloured text.
pub const RESET: &'static str = "\u{1b}[0m";

/// Whether `shown` is `line` in the colour that `code` starts, as a terminal
/// with or without colours gets it: the line between `code` and `RESET`, or
/// the line alone. Where colours are switched off while the line is being
/// written, the line is followed by `RESET` alone.
pub open spec fn tinted(code: Seq<char>, line: Seq<char>, shown: Seq<char>) -> bool {
    ||| shown == code + line + RESET@
    ||| shown == line
    ||| shown == line + RESET@
}

/// Whether `shown` is what is shown for the line `line` of a diff: a plain
/// line as it is, a line of the file in red and a line of the canonical form
/// in green. Of a line that holds an escape character itself, only a plain
/// one is pinned down.
pub open spec fn shown_as(line: Seq<char>, shown: Seq<char>) -> bool {
    match tone_of(line) {
        Tone::Plain => shown == line,
        Tone::Removed => lacks(line, '\u{1b}') ==> tinted(RED@, line, shown),
        Tone::Added => lacks(line, '\u{1b}') ==> tinted(GREEN@, line, shown),
    }
}

/// Whether `shown` holds, for each line of a diff in order, what is shown for
/// it.
pub open spec fn paints(diff_lines: Seq<Seq<char>>, shown: Seq<Seq<char>>) -> bool {
    &&& shown.len() == diff_lines.len()
    &&& forall|k: int| 0 <= k < shown.len() ==> shown_as(diff_lines[k], #[trigger] shown[k])
}

/// Whether `out` shows a diff: its lines, painted, each after a line feed,
/// and a line feed at the end.
pub open spec fn shows_diff(diffs: Seq<char>, out: Seq<char>) -> bool {
    exists|shown: Seq<Seq<char>>| paints(lines(diffs), shown) && out == listed(shown) + "\n"@
}

/// Whether `out` shows a cause: a diff as `shows_diff` says, any other cause
/// by its text.
pub open spec fn shows_cause(cause: Cause, out: Seq<char>) -> bool {
    match cause {
        Cause::Diff(diffs) => shows_diff(diffs, out),
        Cause::Other(text) => out == text,
    }
}

/// Whether `out` shows a failure: the path, a line feed, and the cause.
pub open spec fn shows_failure(failure: Failure, out: Seq<char>) -> bool {
    exists|cause: Seq<char>|
        shows_cause(failure.cause, cause) && out == failure.path + "\n"@ + cause
}

/// Whether `out` shows a report: every failure in order, each after a line
/// feed.
pub open spec fn shows_report(report: Seq<Failure>, out: Seq<char>) -> bool {
    exists|items: Seq<Seq<char>>|
        items.len() == report.len() && (forall|k: int|
            0 <= k < items.len() ==> shows_failure(report[k], #[trigger] items[k])) && out
            == listed(items)
}

/// Calls `colored::Colorize::red` and formats the result. Trusted: a line
/// without an escape character comes back between the code for red and the
/// reset code, or as it is where colours are off; the formatter asks more
/// than once whether colours are on, so the reset code may follow alone.
/// Nothing is claimed of a line that holds an escape character.
#[verifier::external_body]
fn paint_red(line: &[char]) -> (shown: String)
    ensures
        lacks(line@, '\u{1b}') ==> tinted(RED@, line@, shown@),
{
    let text: String = line.iter().collect();
    format!("{}", text.red())
}

/// Calls `colored::Colorize::green` and formats the result. Trusted: a line
/// without an escape character comes back between the code for green and the
/// reset code, or as it is where colours are off; the formatter asks more
/// than once whether colours are on, so the reset code may follow alone.
/// Nothing is claimed of a line that holds an escape character.
#[verifier::external_body]
fn paint_green(line: &[char]) -> (shown: String)
    ensures
        lacks(line@, '\u{1b}') ==> tinted(GREEN@, line@, shown@),
{
    let text: String = line.iter().collect();
    format!("{}", text.green())
}

/// Calls `colored::Colorize::normal` and formats the result. Trusted: a text
/// without colour or style is printed as it is.
#[verifier::external_body]
fn paint_normal(line: &[char]) -> (shown: String)
    ensures
        shown@ == line@,
{
    let text: String = line.iter().collect();
    format!("{}", text.normal())
}

/// Tells the tone of a line of a diff.
pub fn tone(line: &[char]) -> (t: Tone)
    ensures
        t == tone_of(line@),
{
    if line.len() > 0 && line[0] == '<' {
        Tone::Removed
    } else if line.len() > 0 && line[0] == '>' {
        Tone::Added
    } else {
        Tone::Plain
    }
}

/// Puts each item after a line feed.
pub fn list(items: &Vec<String>) -> (out: String)
    ensures
        out@ == listed(texts(items@)),
{
    let mut out = String::new();
    let mut i: usize = 0;
    let ghost all = texts(items@);
    assert(all.take(0) =~= Seq::<Seq<char>>::empty());
    while i < items.len()
        invariant
            i <= items@.len(),
            all == texts(items@),
            out@ == listed(all.take(i as int)),
        decreases items@.len() - i,
    {
        proof {
            assert(all.take(i + 1).drop_last() =~= all.take(i as int));
            assert(all.take(i + 1).last() == items@[i as int]@);
        }
        out.append("\n");
        out.append(items[i].as_str());
        i += 1;
    }
    assert(all.take(items@.len() as int) =~= all);
    out
}

impl FileDiffError {
    /// Paints the lines of the diff: red where the file has a line of its
    /// own, green where the canonical form has one.
    pub fn paint(&self) -> (shown: Vec<String>)
        ensures
            paints(lines(self@), texts(shown@)),
    {
        let diffs = to_chars(self.diffs.as_str());
        let diffs = diffs.as_slice();
        let mut shown: Vec<String> = Vec::new();
        let mut pos: usize = 0;
        let ghost mut seen: Seq<Seq<char>> = Seq::empty();
        assert(diffs@.skip(0) =~= diffs@);
        assert(lines(diffs@) =~= seen + lines(diffs@));
        while pos < diffs.len()
            invariant
                pos <= diffs@.len(),
                lines(diffs@) == seen + lines(diffs@.skip(pos as int)),
                paints(seen, texts(shown@)),
            decreases diffs@.len() - pos,
        {
            let (stop, next) = line_at(diffs, pos);
            let line = &diffs[pos..stop];
            let painted = match tone(line) {
                Tone::Removed => paint_red(line),
                Tone::Added => paint_green(line),
                Tone::Plain => paint_normal(line),
            };
            proof {
                let rest = diffs@.skip(pos as int);
                assert(lines(rest) =~= seq![first_line(rest)] + lines(after_first_line(rest)));
                assert(lines(diffs@) =~= seen.push(line@) + lines(diffs@.skip(next as int)));
                assert(texts(shown@.push(painted)) =~= texts(shown@).push(painted@));
                seen = seen.push(line@);
            }
            shown.push(painted);
            pos = next;
        }
        assert(lines(diffs@.skip(pos as int)) =~= Seq::<Seq<char>>::empty());
        assert(seen + Seq::<Seq<char>>::empty() =~= seen);
        shown
    }

    /// Shows the diff, painted line by line.
    pub fn render(&self) -> (out: String)
        ensures
            shows_diff(self@, out@),
    {
        let shown = self.paint();
        let mut out = list(&shown);
        out.append("\n");
        out
    }
}

impl ErrorType {
    /// Shows what went wrong with a file.
    pub fn render(&self) -> (out: String)
        ensures
            shows_cause(self@, out@),
    {
        match self {
            ErrorType::Diff(diff) => diff.render(),
            ErrorType::Other(text) => text.clone(),
        }
    }
}

impl FileError {
    /// Shows the failure: the path, then on a new line what went wrong.
    pub fn render(&self) -> (out: String)
        ensures
            shows_failure(self@, out@),
    {
        let cause = self.err.render();
        let mut out = self.path.clone();
        out.append("\n");
        out.append(cause.as_str());
        out
    }
}

impl DiffsError {
    /// Shows the whole report: every failure, each on a new line.
    pub fn render(&self) -> (out: String)
        ensures
            shows_report(self@, out@),
    {
        let mut items: Vec<String> = Vec::new();
        let mut i: usize = 0;
        while i < self.errs.len()
            invariant
                i <= self.errs@.len(),
                items@.len() == i,
                forall|k: int| 0 <= k < i ==> shows_failure(self.errs@[k]@, #[trigger] items@[k]@),
            decreases self.errs@.len() - i,
        {
            items.push(self.errs[i].render());
            i += 1;
        }
        let out = list(&items);
        assert(texts(items@).len() == self@.len());
        assert forall|k: int| 0 <= k < texts(items@).len() implies shows_failure(
            self@[k],
            #[trigger] texts(items@)[k],
        ) by {
            assert(texts(items@)[k] == items@[k]@);
        }
        out
    }
}

} // verus!
