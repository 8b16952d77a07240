//! The source checks: which tools to run on a file, what their outcome means,
//! and how the outcomes of all workers become one report.

use crate::report::{failures, unattributed, Cause, DiffsError, Failure, FileError};
use crate::text::{text_of, texts};
use vstd::prelude::*;

verus! {

/// A program to run and its arguments.
#[derive(Debug)]
pub struct Invocation {
    pub program: String,
    pub args: Vec<String>,
}

/// An invocation as a value.
pub struct Call {
    pub program: Seq<char>,
    pub args: Seq<Seq<char>>,
}

impl View for Invocation {
    type V = Call;

    open spec fn view(&self) -> Call {
        Call { program: self.program@, args: texts(self.args@) }
    }
}

/// The calls that a vector of invocations holds.
pub open spec fn calls(invocations: Seq<Invocation>) -> Seq<Call> {
    Seq::new(invocations.len(), |i: int| invocations[i]@)
}

/// What running the tools on one file gave.
#[derive(Debug)]
pub enum ToolOutcome {
    /// The deciding process ended; `stdout` is what it printed.
    Exited { success: bool, stdout: String },
    /// A process could not be started or waited for; `cause` says why.
    Failed { cause: String },
}

/// A tool outcome as a value.
pub enum Outcome {
    Exited { success: bool, stdout: Seq<char> },
    Failed { cause: Seq<char> },
}

impl View for ToolOutcome {
    type V = Outcome;

    open spec fn view(&self) -> Outcome {
        match self {
            ToolOutcome::Exited { success, stdout } => Outcome::Exited {
                success: *success,
                stdout: stdout@,
            },
            ToolOutcome::Failed { cause } => Outcome::Failed { cause: cause@ },
        }
    }
}

/// One file and what the tools gave for it.
#[derive(Debug)]
pub struct FileRun {
    pub path: String,
    pub outcome: ToolOutcome,
}

/// A file run as a value.
pub struct Run {
    pub path: Seq<char>,
    pub outcome: Outcome,
}

impl View for FileRun {
    type V = Run;

    open spec fn view(&self) -> Run {
        Run { path: self.path@, outcome: self.outcome@ }
    }
}

/// The runs that a vector of file runs holds.
pub open spec fn runs(list: Seq<FileRun>) -> Seq<Run> {
    Seq::new(list.len(), |i: int| list[i]@)
}

/// What one worker handed back when it was joined.
#[derive(Debug)]
pub enum WorkerOutput {
    /// The worker went through its whole chunk, file by file.
    Finished(Vec<FileRun>),
    /// The worker panicked; `cause` says what is known of it.
    Panicked { cause: String },
}

/// A worker's output as a value.
pub enum Work {
    Finished(Seq<Run>),
    Panicked(Seq<char>),
}

impl View for WorkerOutput {
    type V = Work;

    open spec fn view(&self) -> Work {
        match self {
            WorkerOutput::Finished(list) => Work::Finished(runs(list@)),
            WorkerOutput::Panicked { cause } => Work::Panicked(cause@),
        }
    }
}

/// The work that a vector of worker outputs holds.
pub open spec fn works(outputs: Seq<WorkerOutput>) -> Seq<Work> {
    Seq::new(outputs.len(), |i: int| outputs[i]@)
}

/// The name of a tool: `base`, or `base-version` when a version is asked for.
pub open spec fn tool_name(base: Seq<char>, version: Option<Seq<char>>) -> Seq<char> {
    match version {
        Some(v) => base + "-"@ + v,
        None => base,
    }
}

/// The formatter prints the canonical form of the file at `path`.
pub open spec fn format_call(version: Option<Seq<char>>, path: Seq<char>) -> Call {
    Call {
        program: tool_name("clang-format"@, version),
        args: seq!["--Werror"@, "--style=file"@, path],
    }
}

/// The diff compares the file at `path` with what it reads from its input.
pub open spec fn diff_call(path: Seq<char>) -> Call {
    Call { program: "diff"@, args: seq![path, "-"@] }
}

/// The linter checks the file at `path` against the compile commands under
/// `build`.
pub open spec fn lint_call(
    version: Option<Seq<char>>,
    checks: Option<Seq<char>>,
    build: Seq<char>,
    extra_arg: Seq<char>,
    path: Seq<char>,
) -> Call {
    Call {
        program: tool_name("clang-tidy"@, version),
        args: match checks {
            Some(filter) => seq!["--checks="@ + filter],
            None => Seq::empty(),
        } + seq!["-p="@ + build, "-extra-arg="@ + extra_arg, path],
    }
}

/// What a format check makes of an outcome: a failed diff is the file's
/// failure, and a process that could not be run belongs to no file.
pub open spec fn format_failure(path: Seq<char>, outcome: Outcome) -> Option<Failure> {
    match outcome {
        Outcome::Exited { success, stdout } => if success {
            None
        } else {
            Some(Failure { path, cause: Cause::Diff(stdout) })
        },
        Outcome::Failed { cause } => Some(unattributed(cause)),
    }
}

/// What a lint check makes of an outcome: a linter that exits with an error
/// is the file's failure, without further text, and a process that could not
/// be run belongs to no file.
pub open spec fn lint_failure(path: Seq<char>, outcome: Outcome) -> Option<Failure> {
    match outcome {
        Outcome::Exited { success, stdout } => if success {
            None
        } else {
            Some(Failure { path, cause: Cause::Other(Seq::empty()) })
        },
        Outcome::Failed { cause } => Some(unattributed(cause)),
    }
}

/// The failures among the runs of one worker, in the order of its files.
pub open spec fn run_failures<C: FileCheck>(check: C, list: Seq<Run>) -> Seq<Failure>
    decreases list.len(),
{
    if list.len() == 0 {
        Seq::empty()
    } else {
        let before = run_failures(check, list.drop_last());
        match check.failure_of(list.last().path, list.last().outcome) {
            Some(failure) => before.push(failure),
            None => before,
        }
    }
}

/// What one worker contributes to the report. A worker that panicked
/// contributes one failure that belongs to no file.
pub open spec fn work_failures<C: FileCheck>(check: C, work: Work) -> Seq<Failure> {
    match work {
        Work::Finished(list) => run_failures(check, list),
        Work::Panicked(cause) => seq![unattributed(cause)],
    }
}

/// The report of a run: the failures of each worker, those of the worker
/// joined last in front.
pub open spec fn merged<C: FileCheck>(check: C, outputs: Seq<Work>) -> Seq<Failure>
    decreases outputs.len(),
{
    if outputs.len() == 0 {
        Seq::empty()
    } else {
        work_failures(check, outputs.last()) + merged(check, outputs.drop_last())
    }
}

/// Whether `r` reports exactly `found`: success when nothing was found.
pub open spec fn reports(r: Result<(), DiffsError>, found: Seq<Failure>) -> bool {
    match r {
        Ok(()) => found.len() == 0,
        Err(report) => report@ == found && found.len() > 0,
    }
}

/// Copies a vector of strings.
pub fn copy_strings(strings: &Vec<String>) -> (copy: Vec<String>)
    ensures
        texts(copy@) == texts(strings@),
{
    let mut copy: Vec<String> = Vec::new();
    let mut i: usize = 0;
    while i < strings.len()
        invariant
            i <= strings@.len(),
            copy@.len() == i,
            forall|k: int| 0 <= k < i ==> copy@[k]@ == strings@[k]@,
        decreases strings@.len() - i,
    {
        copy.push(strings[i].clone());
        i += 1;
    }
    assert(texts(copy@) =~= texts(strings@));
    copy
}

/// Copies an optional string.
pub fn copy_option(string: &Option<String>) -> (copy: Option<String>)
    ensures
        text_of(copy) == text_of(*string),
{
    match string {
        Some(s) => Some(s.clone()),
        None => None,
    }
}

/// Builds the name of a tool from its base name and the version asked for.
pub fn tool_program(base: &str, version: &Option<String>) -> (program: String)
    ensures
        program@ == tool_name(base@, text_of(*version)),
{
    match version {
        Some(v) => String::from_str(base).concat("-").concat(v.as_str()),
        None => String::from_str(base),
    }
}

/// A check that runs tools on one file at a time.
pub trait FileCheck: Sized {
    /// The directories to scan.
    spec fn roots(&self) -> Seq<Seq<char>>;

    /// The processes to run on the file at `path`, each reading what the one
    /// before it prints; the last one decides.
    spec fn pipeline(&self, path: Seq<char>) -> Seq<Call>;

    /// The failure that an outcome means for the file at `path`, if any.
    spec fn failure_of(&self, path: Seq<char>, outcome: Outcome) -> Option<Failure>;

    /// Builds the processes to run on one file.
    fn commands(&self, path: &str) -> (list: Vec<Invocation>)
        ensures
            calls(list@) == self.pipeline(path@),
    ;

    /// Judges the outcome of the tools on one file.
    fn per_file_check(&self, path: String, outcome: ToolOutcome) -> (r: Result<(), FileError>)
        ensures
            match r {
                Ok(()) => self.failure_of(path@, outcome@) is None,
                Err(e) => self.failure_of(path@, outcome@) == Some(e@),
            },
    ;

    /// The directories to scan.
    fn get_root_path(&self) -> (list: Vec<String>)
        ensures
            texts(list@) == self.roots(),
    ;

    /// The same check over other directories.
    fn sub_dir_self(&self, path: Vec<String>) -> (narrowed: Self)
        ensures
            narrowed.roots() == texts(path@),
            forall|p: Seq<char>| #[trigger] narrowed.pipeline(p) == self.pipeline(p),
            forall|p: Seq<char>, o: Outcome| #[trigger]
                narrowed.failure_of(p, o) == self.failure_of(p, o),
    ;
}

/// Gathers the failures of one worker, in the order of its files.
pub fn gather<C: FileCheck>(policy: &C, list: Vec<FileRun>) -> (errs: Vec<FileError>)
    ensures
        failures(errs@) == run_failures(*policy, runs(list@)),
{
    let mut errs: Vec<FileError> = Vec::new();
    let ghost all = runs(list@);
    assert(all.take(0) =~= Seq::<Run>::empty());
    for run in it: list
        invariant
            it.seq() == list@,
            all == runs(list@),
            failures(errs@) == run_failures(*policy, all.take(it.index() as int)),
    {
        let ghost before = failures(errs@);
        let ghost i = it.index() as int;
        proof {
            assert(all.take(i + 1).drop_last() =~= all.take(i));
            assert(all.take(i + 1).last() == run@);
        }
        let FileRun { path, outcome } = run;
        match policy.per_file_check(path, outcome) {
            Ok(()) => {},
            Err(e) => {
                errs.push(e);
                assert(failures(errs@) =~= before.push(e@));
            },
        }
    }
    assert(all.take(list@.len() as int) =~= all);
    errs
}

/// Turns what the workers handed back into the result of the run.
pub fn check<C: FileCheck>(policy: &C, outputs: Vec<WorkerOutput>) -> (r: Result<(), DiffsError>)
    ensures
        reports(r, merged(*policy, works(outputs@))),
{
    let ghost all = works(outputs@);
    let mut outputs = outputs;
    let mut errs: Vec<FileError> = Vec::new();
    assert(all.take(all.len() as int) =~= all);
    while outputs.len() > 0
        invariant
            outputs@.len() <= all.len(),
            works(outputs@) == all.take(outputs@.len() as int),
            merged(*policy, all) == failures(errs@) + merged(*policy, works(outputs@)),
        decreases outputs@.len(),
    {
        let ghost before = failures(errs@);
        let ghost left = works(outputs@);
        let output = outputs.pop().unwrap();
        proof {
            assert(works(outputs@) =~= left.drop_last());
            assert(left.last() == output@);
            assert(works(outputs@) =~= all.take(outputs@.len() as int));
        }
        match output {
            WorkerOutput::Finished(list) => {
                let mut found = gather(policy, list);
                let ghost found_failures = failures(found@);
                errs.append(&mut found);
                assert(failures(errs@) =~= before + found_failures);
            },
            WorkerOutput::Panicked { cause } => {
                let e = FileError::unattributed(cause);
                errs.push(e);
                assert(failures(errs@) =~= before + seq![e@]);
            },
        }
        assert(merged(*policy, all) =~= failures(errs@) + merged(*policy, works(outputs@)));
    }
    assert(failures(errs@) + Seq::<Failure>::empty() =~= failures(errs@));
    DiffsError::from_failures(errs)
}

/// The number of runs in `list` that mean a failure.
pub open spec fn failed_runs<C: FileCheck>(check: C, list: Seq<Run>) -> nat
    decreases list.len(),
{
    if list.len() == 0 {
        0
    } else {
        failed_runs(check, list.drop_last()) + if check.failure_of(
            list.last().path,
            list.last().outcome,
        ) is Some {
            1nat
        } else {
            0nat
        }
    }
}

/// The number of failures that the workers found, all together.
pub open spec fn found_by_all<C: FileCheck>(check: C, outputs: Seq<Work>) -> nat
    decreases outputs.len(),
{
    if outputs.len() == 0 {
        0
    } else {
        found_by_all(check, outputs.drop_last()) + work_failures(check, outputs.last()).len()
    }
}

/// A worker finds one failure for each of its runs that means one.
pub proof fn lemma_one_failure_per_failed_run<C: FileCheck>(check: C, list: Seq<Run>)
    ensures
        run_failures(check, list).len() == failed_runs(check, list),
    decreases list.len(),
{
    if list.len() > 0 {
        lemma_one_failure_per_failed_run(check, list.drop_last());
    }
}

/// The report holds as many failures as the workers found: merging loses
/// none and adds none.
pub proof fn lemma_report_is_complete<C: FileCheck>(check: C, outputs: Seq<Work>)
    ensures
        merged(check, outputs).len() == found_by_all(check, outputs),
    decreases outputs.len(),
{
    if outputs.len() > 0 {
        lemma_report_is_complete(check, outputs.drop_last());
    }
}

/// Whether `part` stands in `all` from position `at` on.
pub open spec fn stands_at<T>(all: Seq<T>, part: Seq<T>, at: int) -> bool {
    0 <= at && at + part.len() <= all.len() && all.subrange(at, at + part.len()) == part
}

/// The failures of one worker stand in the report side by side and in the
/// worker's own order.
pub proof fn lemma_worker_order_is_kept<C: FileCheck>(check: C, outputs: Seq<Work>, w: int)
    requires
        0 <= w < outputs.len(),
    ensures
        exists|at: int|
            stands_at(merged(check, outputs), work_failures(check, outputs[w]), at),
    decreases outputs.len(),
{
    let all = merged(check, outputs);
    let head = work_failures(check, outputs.last());
    let mine = work_failures(check, outputs[w]);
    if w == outputs.len() - 1 {
        assert(all.subrange(0, 0int + mine.len()) =~= mine);
        assert(stands_at(all, mine, 0));
    } else {
        lemma_worker_order_is_kept(check, outputs.drop_last(), w);
        let tail = merged(check, outputs.drop_last());
        let at = choose|at: int| stands_at(tail, mine, at);
        assert(all.subrange(head.len() + at, head.len() + at + mine.len()) =~= tail.subrange(
            at,
            at + mine.len(),
        ));
        assert(stands_at(all, mine, head.len() + at));
    }
}

/// A run that means a failure has that failure among those of its worker.
pub proof fn lemma_failed_run_is_found<C: FileCheck>(check: C, list: Seq<Run>, i: int)
    requires
        0 <= i < list.len(),
        check.failure_of(list[i].path, list[i].outcome) is Some,
    ensures
        run_failures(check, list).contains(check.failure_of(list[i].path, list[i].outcome)->0),
    decreases list.len(),
{
    let failure = check.failure_of(list[i].path, list[i].outcome)->0;
    let before = run_failures(check, list.drop_last());
    if i == list.len() - 1 {
        assert(run_failures(check, list) == before.push(failure));
        assert(before.push(failure)[before.len() as int] == failure);
    } else {
        lemma_failed_run_is_found(check, list.drop_last(), i);
        let at = choose|at: int| 0 <= at < before.len() && before[at] == failure;
        assert(run_failures(check, list)[at] == failure);
    }
}

/// Every failure of every worker is in the report.
pub proof fn lemma_failed_run_is_reported<C: FileCheck>(
    check: C,
    outputs: Seq<Work>,
    w: int,
    i: int,
)
    requires
        0 <= w < outputs.len(),
        outputs[w] is Finished,
        0 <= i < outputs[w]->Finished_0.len(),
        check.failure_of(outputs[w]->Finished_0[i].path, outputs[w]->Finished_0[i].outcome) is Some,
    ensures
        merged(check, outputs).contains(
            check.failure_of(
                outputs[w]->Finished_0[i].path,
                outputs[w]->Finished_0[i].outcome,
            )->0,
        ),
{
    let list = outputs[w]->Finished_0;
    let failure = check.failure_of(list[i].path, list[i].outcome)->0;
    let mine = work_failures(check, outputs[w]);
    lemma_failed_run_is_found(check, list, i);
    lemma_worker_order_is_kept(check, outputs, w);
    let all = merged(check, outputs);
    let at = choose|at: int| stands_at(all, mine, at);
    let k = choose|k: int| 0 <= k < mine.len() && mine[k] == failure;
    assert(all.subrange(at, at + mine.len())[k] == all[at + k]);
}

/// When every worker finished and none of its runs means a failure, there is
/// nothing to report.
pub proof fn lemma_clean_run<C: FileCheck>(check: C, outputs: Seq<Work>)
    requires
        forall|w: int| 0 <= w < outputs.len() ==> (#[trigger] outputs[w]) is Finished,
        forall|w: int, i: int|
            0 <= w < outputs.len() && 0 <= i < outputs[w]->Finished_0.len() ==> check.failure_of(
                (#[trigger] outputs[w]->Finished_0[i]).path,
                outputs[w]->Finished_0[i].outcome,
            ) is None,
    ensures
        merged(check, outputs).len() == 0,
    decreases outputs.len(),
{
    if outputs.len() > 0 {
        let rest = outputs.drop_last();
        assert forall|w: int, i: int|
            0 <= w < rest.len() && 0 <= i < rest[w]->Finished_0.len() implies check.failure_of(
            (#[trigger] rest[w]->Finished_0[i]).path,
            rest[w]->Finished_0[i].outcome,
        ) is None by {
            assert(rest[w] == outputs[w]);
        }
        lemma_clean_run(check, rest);
        let last = outputs.last()->Finished_0;
        assert(outputs.last() == outputs[outputs.len() - 1]);
        lemma_one_failure_per_failed_run(check, last);
        lemma_no_failed_run(check, last);
    }
}

/// When no run means a failure, the count of failed runs is zero.
proof fn lemma_no_failed_run<C: FileCheck>(check: C, list: Seq<Run>)
    requires
        forall|i: int|
            0 <= i < list.len() ==> check.failure_of((#[trigger] list[i]).path, list[i].outcome)
                is None,
    ensures
        failed_runs(check, list) == 0,
    decreases list.len(),
{
    if list.len() > 0 {
        assert forall|i: int| 0 <= i < list.drop_last().len() implies check.failure_of(
            (#[trigger] list.drop_last()[i]).path,
            list.drop_last()[i].outcome,
        ) is None by {
            assert(list.drop_last()[i] == list[i]);
        }
        lemma_no_failed_run(check, list.drop_last());
        assert(list.last() == list[list.len() - 1]);
    }
}

/// Whether the tools exited with success.
pub open spec fn passed(outcome: Outcome) -> bool {
    outcome is Exited && outcome->success
}

/// Whether the tools ran and exited with an error.
pub open spec fn errored(outcome: Outcome) -> bool {
    outcome is Exited && !outcome->success
}

/// Whether every worker finished and every tool exited with success.
pub open spec fn all_passed(outputs: Seq<Work>) -> bool {
    &&& forall|w: int| 0 <= w < outputs.len() ==> (#[trigger] outputs[w]) is Finished
    &&& forall|w: int, i: int|
        0 <= w < outputs.len() && 0 <= i < outputs[w]->Finished_0.len() ==> passed(
            (#[trigger] outputs[w]->Finished_0[i]).outcome,
        )
}

/// The format check: every file must equal what the formatter prints for it.
#[derive(Debug)]
pub struct ClangFmt {
    pub path: Vec<String>,
    pub tool_version: Option<String>,
}

/// The lint check: the linter must find no fault in any file.
#[derive(Debug)]
pub struct ClangTidy {
    pub build_path: String,
    pub root_path: Vec<String>,
    pub checks: Option<String>,
    pub tool_version: Option<String>,
    pub extra_arg: String,
}

impl FileCheck for ClangFmt {
    open spec fn roots(&self) -> Seq<Seq<char>> {
        texts(self.path@)
    }

    open spec fn pipeline(&self, path: Seq<char>) -> Seq<Call> {
        seq![format_call(text_of(self.tool_version), path), diff_call(path)]
    }

    open spec fn failure_of(&self, path: Seq<char>, outcome: Outcome) -> Option<Failure> {
        format_failure(path, outcome)
    }

    fn commands(&self, path: &str) -> (list: Vec<Invocation>) {
        let mut format_args: Vec<String> = Vec::new();
        format_args.push(String::from_str("--Werror"));
        format_args.push(String::from_str("--style=file"));
        format_args.push(String::from_str(path));
        let format = Invocation {
            program: tool_program("clang-format", &self.tool_version),
            args: format_args,
        };
        let mut diff_args: Vec<String> = Vec::new();
        diff_args.push(String::from_str(path));
        diff_args.push(String::from_str("-"));
        let diff = Invocation { program: String::from_str("diff"), args: diff_args };
        proof {
            assert(format@.args =~= format_call(text_of(self.tool_version), path@).args);
            assert(diff@.args =~= diff_call(path@).args);
        }
        let mut list: Vec<Invocation> = Vec::new();
        list.push(format);
        list.push(diff);
        assert(calls(list@) =~= self.pipeline(path@));
        list
    }

    fn per_file_check(&self, path: String, outcome: ToolOutcome) -> (r: Result<(), FileError>) {
        match outcome {
            ToolOutcome::Exited { success, stdout } => {
                if success {
                    Ok(())
                } else {
                    Err(FileError::diff(path, stdout))
                }
            },
            ToolOutcome::Failed { cause } => Err(FileError::unattributed(cause)),
        }
    }

    fn get_root_path(&self) -> (list: Vec<String>) {
        copy_strings(&self.path)
    }

    fn sub_dir_self(&self, path: Vec<String>) -> (narrowed: Self)
        ensures
            text_of(narrowed.tool_version) == text_of(self.tool_version),
    {
        Self { path, tool_version: copy_option(&self.tool_version) }
    }
}

impl FileCheck for ClangTidy {
    open spec fn roots(&self) -> Seq<Seq<char>> {
        texts(self.root_path@)
    }

    open spec fn pipeline(&self, path: Seq<char>) -> Seq<Call> {
        seq![
            lint_call(
                text_of(self.tool_version),
                text_of(self.checks),
                self.build_path@,
                self.extra_arg@,
                path,
            ),
        ]
    }

    open spec fn failure_of(&self, path: Seq<char>, outcome: Outcome) -> Option<Failure> {
        lint_failure(path, outcome)
    }

    fn commands(&self, path: &str) -> (list: Vec<Invocation>) {
        let mut args: Vec<String> = Vec::new();
        match &self.checks {
            Some(filter) => {
                args.push(String::from_str("--checks=").concat(filter.as_str()));
            },
            None => {},
        }
        args.push(String::from_str("-p=").concat(self.build_path.as_str()));
        args.push(String::from_str("-extra-arg=").concat(self.extra_arg.as_str()));
        args.push(String::from_str(path));
        let lint = Invocation { program: tool_program("clang-tidy", &self.tool_version), args };
        proof {
            assert(lint@.args =~= lint_call(
                text_of(self.tool_version),
                text_of(self.checks),
                self.build_path@,
                self.extra_arg@,
                path@,
            ).args);
        }
        let mut list: Vec<Invocation> = Vec::new();
        list.push(lint);
        assert(calls(list@) =~= self.pipeline(path@));
        list
    }

    fn per_file_check(&self, path: String, outcome: ToolOutcome) -> (r: Result<(), FileError>) {
        match outcome {
            ToolOutcome::Exited { success, stdout } => {
                if success {
                    Ok(())
                } else {
                    Err(FileError::other(path, String::new()))
                }
            },
            ToolOutcome::Failed { cause } => Err(FileError::unattributed(cause)),
        }
    }

    fn get_root_path(&self) -> (list: Vec<String>) {
        copy_strings(&self.root_path)
    }

    fn sub_dir_self(&self, path: Vec<String>) -> (narrowed: Self)
        ensures
            narrowed.build_path@ == self.build_path@,
            text_of(narrowed.checks) == text_of(self.checks),
            text_of(narrowed.tool_version) == text_of(self.tool_version),
            narrowed.extra_arg@ == self.extra_arg@,
    {
        Self {
            build_path: self.build_path.clone(),
            root_path: path,
            checks: copy_option(&self.checks),
            tool_version: copy_option(&self.tool_version),
            extra_arg: self.extra_arg.clone(),
        }
    }
}

/// The check to run.
#[derive(Debug)]
pub enum SubCheck {
    ClangFormat(ClangFmt),
    ClangTidy(ClangTidy),
}

impl SubCheck {
    /// The directories to scan.
    pub open spec fn roots(&self) -> Seq<Seq<char>> {
        match self {
            SubCheck::ClangFormat(fmt) => fmt.roots(),
            SubCheck::ClangTidy(tidy) => tidy.roots(),
        }
    }

    /// The processes to run on the file at `path`.
    pub open spec fn pipeline(&self, path: Seq<char>) -> Seq<Call> {
        match self {
            SubCheck::ClangFormat(fmt) => fmt.pipeline(path),
            SubCheck::ClangTidy(tidy) => tidy.pipeline(path),
        }
    }

    /// The report of a run of this check.
    pub open spec fn report(&self, outputs: Seq<Work>) -> Seq<Failure> {
        match self {
            SubCheck::ClangFormat(fmt) => merged(*fmt, outputs),
            SubCheck::ClangTidy(tidy) => merged(*tidy, outputs),
        }
    }

    /// The directories to scan.
    pub fn get_root_path(&self) -> (list: Vec<String>)
        ensures
            texts(list@) == self.roots(),
    {
        match self {
            SubCheck::ClangFormat(fmt) => fmt.get_root_path(),
            SubCheck::ClangTidy(tidy) => tidy.get_root_path(),
        }
    }

    /// Builds the processes to run on one file.
    pub fn commands(&self, path: &str) -> (list: Vec<Invocation>)
        ensures
            calls(list@) == self.pipeline(path@),
    {
        match self {
            SubCheck::ClangFormat(fmt) => fmt.commands(path),
            SubCheck::ClangTidy(tidy) => tidy.commands(path),
        }
    }

    /// Turns what the workers handed back into the result of the run: `Ok`
    /// when no file failed, otherwise every failure.
    pub fn check(self, outputs: Vec<WorkerOutput>) -> (r: Result<(), DiffsError>)
        ensures
            reports(r, self.report(works(outputs@))),
    {
        match self {
            SubCheck::ClangFormat(fmt) => check(&fmt, outputs),
            SubCheck::ClangTidy(tidy) => check(&tidy, outputs),
        }
    }
}

/// A run in which every tool exited with success has nothing to report,
/// whichever check it was: checking files that are already in order succeeds,
/// however often it is done. The same holds when there was no file at all.
pub proof fn lemma_passing_run_reports_nothing(check: SubCheck, outputs: Seq<Work>)
    requires
        all_passed(outputs),
    ensures
        check.report(outputs).len() == 0,
        check.report(Seq::empty()).len() == 0,
{
    match check {
        SubCheck::ClangFormat(fmt) => lemma_clean_run(fmt, outputs),
        SubCheck::ClangTidy(tidy) => lemma_clean_run(tidy, outputs),
    }
}

/// A file whose tool exited with an error is reported under its own path:
/// with its diff by the format check, without text by the lint check.
pub proof fn lemma_failed_file_is_reported(check: SubCheck, outputs: Seq<Work>, w: int, i: int)
    requires
        0 <= w < outputs.len(),
        outputs[w] is Finished,
        0 <= i < outputs[w]->Finished_0.len(),
        errored(outputs[w]->Finished_0[i].outcome),
    ensures
        check.report(outputs).contains(
            Failure {
                path: outputs[w]->Finished_0[i].path,
                cause: match check {
                    SubCheck::ClangFormat(_) => Cause::Diff(
                        outputs[w]->Finished_0[i].outcome->stdout,
                    ),
                    SubCheck::ClangTidy(_) => Cause::Other(Seq::empty()),
                },
            },
        ),
{
    match check {
        SubCheck::ClangFormat(fmt) => lemma_failed_run_is_reported(fmt, outputs, w, i),
        SubCheck::ClangTidy(tidy) => lemma_failed_run_is_reported(tidy, outputs, w, i),
    }
}

/// The report of either check holds exactly as many failures as the workers
/// found.
pub proof fn lemma_report_counts_every_failure(check: SubCheck, outputs: Seq<Work>)
    ensures
        check.report(outputs).len() == match check {
            SubCheck::ClangFormat(fmt) => found_by_all(fmt, outputs),
            SubCheck::ClangTidy(tidy) => found_by_all(tidy, outputs),
        },
{
    match check {
        SubCheck::ClangFormat(fmt) => lemma_report_is_complete(fmt, outputs),
        SubCheck::ClangTidy(tidy) => lemma_report_is_complete(tidy, outputs),
    }
}

} // verus!
