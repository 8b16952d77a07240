use git_hooks::partition::{chunk_bounds, partition, plan, worker_count};
use git_hooks::pre_commit::{
    check, gather, ClangFmt, ClangTidy, FileCheck, FileRun, SubCheck, ToolOutcome, WorkerOutput,
};
use git_hooks::report::{DiffsError, ErrorType, FileError};

fn fmt() -> ClangFmt {
    ClangFmt { path: vec![String::from("src")], tool_version: None }
}

fn tidy() -> ClangTidy {
    ClangTidy {
        build_path: String::from("build"),
        root_path: vec![String::from("src"), String::from("include")],
        checks: Some(String::from("modernize-*")),
        tool_version: Some(String::from("14")),
        extra_arg: String::from("-I/usr/lib/llvm-14/include/c++/v1/"),
    }
}

fn passed(path: &str) -> FileRun {
    FileRun {
        path: String::from(path),
        outcome: ToolOutcome::Exited { success: true, stdout: String::new() },
    }
}

fn differs(path: &str, diff: &str) -> FileRun {
    FileRun {
        path: String::from(path),
        outcome: ToolOutcome::Exited { success: false, stdout: String::from(diff) },
    }
}

fn broken(path: &str, cause: &str) -> FileRun {
    FileRun { path: String::from(path), outcome: ToolOutcome::Failed { cause: String::from(cause) } }
}

fn paths(report: &DiffsError) -> Vec<String> {
    report.errs.iter().map(|e| e.path.clone()).collect()
}

#[test]
fn worker_count_is_the_smaller_number() {
    assert_eq!(worker_count(0, 8), 0);
    assert_eq!(worker_count(3, 8), 3);
    assert_eq!(worker_count(8, 8), 8);
    assert_eq!(worker_count(20, 8), 8);
    assert_eq!(worker_count(5, 0), 0);
}

#[test]
fn chunk_bounds_follow_the_floor_formula() {
    assert_eq!(chunk_bounds(10, 3, 0), (0, 3));
    assert_eq!(chunk_bounds(10, 3, 1), (3, 6));
    assert_eq!(chunk_bounds(10, 3, 2), (6, 10));
    assert_eq!(chunk_bounds(7, 4, 0), (0, 1));
    assert_eq!(chunk_bounds(7, 4, 1), (1, 3));
    assert_eq!(chunk_bounds(7, 4, 2), (3, 5));
    assert_eq!(chunk_bounds(7, 4, 3), (5, 7));
    assert_eq!(chunk_bounds(0, 1, 0), (0, 0));
    assert_eq!(chunk_bounds(usize::MAX, usize::MAX, usize::MAX - 1), (usize::MAX - 1, usize::MAX));
}

#[test]
fn partition_keeps_every_item_in_order() {
    for len in 0..20usize {
        for workers in 1..=len.max(1) {
            let items: Vec<usize> = (0..len).collect();
            let parts = partition(items.clone(), workers);
            assert_eq!(parts.len(), workers);
            let joined: Vec<usize> = parts.iter().flatten().copied().collect();
            assert_eq!(joined, items);
            let sizes: Vec<usize> = parts.iter().map(|p| p.len()).collect();
            let smallest = *sizes.iter().min().unwrap();
            let largest = *sizes.iter().max().unwrap();
            assert!(largest - smallest <= 1);
        }
    }
}

#[test]
fn partition_of_ten_among_three() {
    let parts = partition((0..10).collect::<Vec<u32>>(), 3);
    assert_eq!(parts, vec![vec![0, 1, 2], vec![3, 4, 5], vec![6, 7, 8, 9]]);
}

#[test]
fn partition_without_workers_is_empty() {
    assert!(partition(Vec::<u32>::new(), 0).is_empty());
    assert!(partition(vec![1u32, 2], 0).is_empty());
}

#[test]
fn format_commands() {
    let list = fmt().commands("src/main.cc");
    assert_eq!(list.len(), 2);
    assert_eq!(list[0].program, "clang-format");
    assert_eq!(list[0].args, vec!["--Werror", "--style=file", "src/main.cc"]);
    assert_eq!(list[1].program, "diff");
    assert_eq!(list[1].args, vec!["src/main.cc", "-"]);
    let versioned = ClangFmt { path: vec![], tool_version: Some(String::from("14")) };
    assert_eq!(versioned.commands("a.h")[0].program, "clang-format-14");
}

#[test]
fn lint_commands() {
    let list = tidy().commands("src/main.cc");
    assert_eq!(list.len(), 1);
    assert_eq!(list[0].program, "clang-tidy-14");
    assert_eq!(
        list[0].args,
        vec![
            "--checks=modernize-*",
            "-p=build",
            "-extra-arg=-I/usr/lib/llvm-14/include/c++/v1/",
            "src/main.cc"
        ]
    );
    let plain = ClangTidy {
        build_path: String::from("b"),
        root_path: vec![],
        checks: None,
        tool_version: None,
        extra_arg: String::new(),
    };
    let list = plain.commands("x.cc");
    assert_eq!(list[0].program, "clang-tidy");
    assert_eq!(list[0].args, vec!["-p=b", "-extra-arg=", "x.cc"]);
}

#[test]
fn roots_and_narrowing() {
    assert_eq!(fmt().get_root_path(), vec!["src"]);
    assert_eq!(tidy().get_root_path(), vec!["src", "include"]);
    let narrowed = tidy().sub_dir_self(vec![String::from("lib")]);
    assert_eq!(narrowed.root_path, vec!["lib"]);
    assert_eq!(narrowed.build_path, "build");
    assert_eq!(narrowed.checks.as_deref(), Some("modernize-*"));
    assert_eq!(narrowed.tool_version.as_deref(), Some("14"));
    assert_eq!(narrowed.extra_arg, "-I/usr/lib/llvm-14/include/c++/v1/");
    let narrowed = ClangFmt { path: vec![], tool_version: Some(String::from("15")) }
        .sub_dir_self(vec![String::from("a"), String::from("b")]);
    assert_eq!(narrowed.path, vec!["a", "b"]);
    assert_eq!(narrowed.tool_version.as_deref(), Some("15"));
    assert_eq!(SubCheck::ClangFormat(fmt()).get_root_path(), vec!["src"]);
    assert_eq!(SubCheck::ClangTidy(tidy()).commands("a.cc")[0].program, "clang-tidy-14");
}

#[test]
fn format_judges_the_diff() {
    let ok = fmt().per_file_check(
        String::from("a.cc"),
        ToolOutcome::Exited { success: true, stdout: String::from("ignored") },
    );
    assert!(ok.is_ok());
    let bad = fmt()
        .per_file_check(
            String::from("a.cc"),
            ToolOutcome::Exited { success: false, stdout: String::from("1c1\n< a\n---\n> b\n") },
        )
        .unwrap_err();
    assert_eq!(bad.path, "a.cc");
    assert!(matches!(bad.err, ErrorType::Diff(d) if d.diffs == "1c1\n< a\n---\n> b\n"));
    let lost = fmt()
        .per_file_check(String::from("a.cc"), ToolOutcome::Failed { cause: String::from("no such file") })
        .unwrap_err();
    assert_eq!(lost.path, "");
    assert!(matches!(lost.err, ErrorType::Other(c) if c == "no such file"));
}

#[test]
fn lint_judges_the_exit_status() {
    let ok = tidy().per_file_check(
        String::from("a.cc"),
        ToolOutcome::Exited { success: true, stdout: String::new() },
    );
    assert!(ok.is_ok());
    let bad = tidy()
        .per_file_check(
            String::from("a.cc"),
            ToolOutcome::Exited { success: false, stdout: String::from("warning") },
        )
        .unwrap_err();
    assert_eq!(bad.path, "a.cc");
    assert!(matches!(bad.err, ErrorType::Other(c) if c.is_empty()));
    let lost = tidy()
        .per_file_check(String::from("a.cc"), ToolOutcome::Failed { cause: String::from("denied") })
        .unwrap_err();
    assert_eq!(lost.path, "");
    assert!(matches!(lost.err, ErrorType::Other(c) if c == "denied"));
}

#[test]
fn gather_keeps_the_order_of_the_files() {
    let errs = gather(
        &fmt(),
        vec![differs("a.cc", "x"), passed("b.cc"), differs("c.h", "y"), broken("d.h", "gone")],
    );
    let found: Vec<&str> = errs.iter().map(|e| e.path.as_str()).collect();
    assert_eq!(found, vec!["a.cc", "c.h", ""]);
}

#[test]
fn nothing_to_check_succeeds() {
    assert!(SubCheck::ClangFormat(fmt()).check(vec![]).is_ok());
    assert!(SubCheck::ClangTidy(tidy()).check(vec![]).is_ok());
    assert!(check(&fmt(), vec![WorkerOutput::Finished(vec![])]).is_ok());
}

#[test]
fn canonical_files_give_an_empty_report() {
    let outputs = vec![
        WorkerOutput::Finished(vec![passed("a.cc"), passed("b.cc")]),
        WorkerOutput::Finished(vec![passed("c.cc")]),
    ];
    assert!(SubCheck::ClangFormat(fmt()).check(outputs).is_ok());
}

#[test]
fn two_files_that_differ_give_two_failures() {
    let outputs = vec![
        WorkerOutput::Finished(vec![differs("main1.cc", "d1")]),
        WorkerOutput::Finished(vec![differs("main2.cc", "d2")]),
    ];
    let report = SubCheck::ClangFormat(fmt()).check(outputs).unwrap_err();
    assert_eq!(report.errs.len(), 2);
    assert_eq!(paths(&report), vec!["main2.cc", "main1.cc"]);
    assert!(matches!(&report.errs[0].err, ErrorType::Diff(d) if d.diffs == "d2"));
    assert!(matches!(&report.errs[1].err, ErrorType::Diff(d) if d.diffs == "d1"));
}

#[test]
fn later_workers_come_first_and_keep_their_order() {
    let outputs = vec![
        WorkerOutput::Finished(vec![differs("a", "1"), passed("b"), differs("c", "2")]),
        WorkerOutput::Finished(vec![passed("d")]),
        WorkerOutput::Finished(vec![differs("e", "3"), differs("f", "4")]),
    ];
    let report = check(&fmt(), outputs).unwrap_err();
    assert_eq!(paths(&report), vec!["e", "f", "a", "c"]);
}

#[test]
fn a_panicked_worker_is_one_failure_without_a_path() {
    let outputs = vec![
        WorkerOutput::Finished(vec![differs("a", "1")]),
        WorkerOutput::Panicked { cause: String::from("worker panicked") },
    ];
    let report = SubCheck::ClangTidy(tidy()).check(outputs).unwrap_err();
    assert_eq!(paths(&report), vec!["", "a"]);
    assert!(matches!(&report.errs[0].err, ErrorType::Other(c) if c == "worker panicked"));
    assert!(matches!(&report.errs[1].err, ErrorType::Other(c) if c.is_empty()));
}

#[test]
fn from_failures_is_ok_only_when_empty() {
    assert!(DiffsError::from_failures(vec![]).is_ok());
    let report =
        DiffsError::from_failures(vec![FileError::other(String::from("a"), String::from("b"))])
            .unwrap_err();
    assert_eq!(report.errs.len(), 1);
    assert_eq!(FileError::unattributed(String::from("x")).path, "");
    assert!(matches!(FileError::diff(String::from("p"), String::from("d")).err, ErrorType::Diff(_)));
}

#[test]
fn plan_gives_every_file_to_one_worker() {
    let files: Vec<String> = (0..37).map(|i| format!("f{}.cc", i)).collect();
    let parts = plan(files.clone());
    assert!(!parts.is_empty());
    assert!(parts.len() <= files.len());
    assert!(parts.iter().all(|part| !part.is_empty()));
    let joined: Vec<String> = parts.into_iter().flatten().collect();
    assert_eq!(joined, files);
    assert!(plan(Vec::<String>::new()).is_empty());
    assert_eq!(plan(vec![String::from("only.h")]), vec![vec![String::from("only.h")]]);
}

#[test]
fn report_has_one_entry_for_each_failing_file() {
    let outputs = vec![
        WorkerOutput::Finished(vec![differs("a", "1"), passed("b"), broken("c", "lost")]),
        WorkerOutput::Finished(vec![]),
        WorkerOutput::Finished(vec![passed("d"), differs("e", "2")]),
    ];
    let report = check(&tidy(), outputs).unwrap_err();
    assert_eq!(report.errs.len(), 3);
    assert_eq!(paths(&report), vec!["e", "a", ""]);
}
