use git_hooks::commit_msg::{CommitMessage, Header, MsgError};

fn lint(text: &str) -> Result<(), MsgError> {
    CommitMessage::new(String::from(text)).check()
}

fn lint_header(text: &str) -> Result<(), MsgError> {
    let chars: Vec<char> = text.chars().collect();
    Header::new(&chars).check()
}

#[test]
fn test_break_change() {
    assert!(lint("fix: xxxxxx\n\nxxxx\n\nBREAKING CHANGE:xxxx\n").is_ok());
}

#[test]
fn test_header_only() {
    assert!(lint("feat: xxxxxx").is_ok());
}

#[test]
fn test_revert() {
    assert!(lint(
        "revert: feat: xxxxxx\n\nThis reverts commit 667ecc1654a317a13331b17617d973392f415f02."
    )
    .is_ok());
}

#[test]
fn test_close_issue() {
    assert!(lint("fix: xxxxxx\n\nCloses #234\nxxxx").is_ok());
}

#[test]
fn test_wrong_type() {
    assert!(matches!(lint("bugfix: xxxxxx").err(), Some(err) if err == MsgError::Header));
}

#[test]
fn test_too_long_header() {
    let content = (0..100).fold(String::from("fix: "), |mut acc, _| {
        acc.push('x');
        acc
    });
    assert!(matches!(lint(&content).err(), Some(err) if err == MsgError::LenLimit));
}

#[test]
fn test_subject_end_with_dot() {
    assert!(matches!(lint("fix: xxx.").err(), Some(err) if err == MsgError::Subject));
}

#[test]
fn test_subject_capitalize_first_letter() {
    assert!(matches!(lint("fix: Xxx").err(), Some(err) if err == MsgError::Subject));
}

#[test]
fn test_empty_subject() {
    assert!(matches!(lint("fix: ").err(), Some(err) if err == MsgError::Subject));
}

#[test]
fn test_lack_blank_line() {
    assert!(matches!(lint("fix: xxx.\nxxxxxxxx").err(), Some(err) if err == MsgError::General));
}

#[test]
fn test_invalid_close_issue() {
    assert!(matches!(lint("fix: xxx\n\nCloses 123").err(), Some(err) if err == MsgError::CloseIssue));
}

#[test]
fn test_invalid_revert_subject() {
    assert!(matches!(
        lint("revert: bugfix: xxxxxx\n\nThis reverts commit 667ecc1654a317a13331b17617d973392f415f02.").err(),
        Some(err) if err == MsgError::Revert
    ));
}

#[test]
fn test_revert_lack_footer() {
    assert!(matches!(lint("revert: fix: xxxxxx").err(), Some(err) if err == MsgError::Revert));
}

#[test]
fn every_known_type_is_accepted() {
    for ty in ["feat", "fix", "docs", "style", "refactor", "test", "chore"] {
        assert_eq!(lint(&format!("{}: change the thing", ty)), Ok(()));
    }
}

#[test]
fn scopes_follow_the_type() {
    assert_eq!(lint("feat(core): add"), Ok(()));
    assert_eq!(lint("feat(core)(ui): add"), Ok(()));
    assert_eq!(lint("feat(): add"), Err(MsgError::Header));
    assert_eq!(lint("feat(co1re): add"), Err(MsgError::Header));
    assert_eq!(lint("feat (core): add"), Err(MsgError::Header));
}

#[test]
fn header_without_colon_is_rejected() {
    assert_eq!(lint("feat add"), Err(MsgError::Header));
    assert_eq!(lint_header(""), Err(MsgError::Header));
}

#[test]
fn empty_message_is_general() {
    assert_eq!(lint(""), Err(MsgError::General));
    assert_eq!(lint("# only a comment\n"), Err(MsgError::General));
}

#[test]
fn blank_first_line_gives_empty_header() {
    assert_eq!(lint("\n\nfix: a"), Err(MsgError::Header));
    assert_eq!(lint("\nfix: a"), Err(MsgError::General));
}

#[test]
fn comment_lines_are_skipped() {
    assert_eq!(lint("# note\nfix: a\n# another"), Ok(()));
    assert_eq!(lint("fix: a\n#c\n\nbody"), Ok(()));
    let mut long_comment = String::from("#");
    for _ in 0..200 {
        long_comment.push('c');
    }
    assert_eq!(lint(&format!("{}\nfix: a", long_comment)), Ok(()));
}

#[test]
fn line_of_exactly_the_limit_passes() {
    let mut text = String::from("fix: ");
    for _ in 0..95 {
        text.push('x');
    }
    assert_eq!(text.chars().count(), 100);
    assert_eq!(lint(&text), Ok(()));
    text.push('x');
    assert_eq!(lint(&text), Err(MsgError::LenLimit));
}

#[test]
fn limit_counts_characters() {
    let mut text = String::from("fix: ");
    for _ in 0..95 {
        text.push('\u{e9}');
    }
    assert_eq!(lint(&text), Ok(()));
}

#[test]
fn long_line_wins_over_other_faults() {
    let mut text = String::from("bugfix: x\n\n");
    for _ in 0..101 {
        text.push('y');
    }
    assert_eq!(lint(&text), Err(MsgError::LenLimit));
}

#[test]
fn carriage_returns_end_lines() {
    assert_eq!(lint("fix: a\r\n\r\nCloses #1\r\n"), Ok(()));
    assert_eq!(lint("fix: a\r\n\r\nCloses 1\r\n"), Err(MsgError::CloseIssue));
}

#[test]
fn close_issue_lists() {
    assert_eq!(lint("fix: a\n\nCloses #12,#34"), Ok(()));
    assert_eq!(lint("fix: a\n\nCloses #12, #34"), Ok(()));
    assert_eq!(lint("fix: a\n\n  Closes   #12 ,\t#34,"), Ok(()));
    assert_eq!(lint("fix: a\n\nCloses"), Ok(()));
    assert_eq!(lint("fix: a\n\nCloses #12,,#34"), Err(MsgError::CloseIssue));
    assert_eq!(lint("fix: a\n\nCloses ,"), Err(MsgError::CloseIssue));
    assert_eq!(lint("fix: a\n\nCloses #"), Err(MsgError::CloseIssue));
    assert_eq!(lint("fix: a\n\nCloses #12a"), Err(MsgError::CloseIssue));
    assert_eq!(lint("fix: a\n\ncloses 12"), Ok(()));
    assert_eq!(lint("fix: a\n\nCloses: 12"), Ok(()));
}

#[test]
fn only_the_last_paragraph_is_the_footer() {
    assert_eq!(lint("fix: a\n\nCloses 12\n\nthanks"), Ok(()));
    assert_eq!(lint("fix: a\n\nbody\n\nCloses 12"), Err(MsgError::CloseIssue));
    assert_eq!(lint("fix: a\n\nCloses 12\n\n"), Ok(()));
}

#[test]
fn revert_needs_a_valid_inner_header() {
    let notice = "This reverts commit 667ecc1654a317a13331b17617d973392f415f02.";
    assert_eq!(lint(&format!("revert: fix: xxx\n\n{}", notice)), Ok(()));
    assert_eq!(lint(&format!("revert: fix: Xxx\n\n{}", notice)), Err(MsgError::Revert));
    assert_eq!(lint(&format!("revert: nothing\n\n{}", notice)), Err(MsgError::Revert));
    assert_eq!(lint(&format!("revert: revert: fix: xxx\n\n{}", notice)), Ok(()));
    assert_eq!(lint("revert: fix: xxx\n\nno notice here"), Err(MsgError::Revert));
}

#[test]
fn revert_notice_wants_forty_hex_digits() {
    assert_eq!(
        lint("revert: fix: xxx\n\nThis reverts commit 667ecc1654a317a13331b17617d973392f415f0."),
        Err(MsgError::Revert)
    );
    assert_eq!(
        lint("revert: fix: xxx\n\nThis reverts commit zzzzzzzzzzzzzzzzzzzzzzzzzzzzzzzzzzzzzzzz."),
        Err(MsgError::Revert)
    );
    assert_eq!(
        lint("revert: fix: xxx\n\nbody\n\nsee: This reverts commit 667ECC1654A317A13331B17617D973392F415F02. ok"),
        Ok(())
    );
}

#[test]
fn header_check_alone() {
    assert_eq!(lint_header("fix: a"), Ok(()));
    assert_eq!(lint_header("fix:a"), Ok(()));
    assert_eq!(lint_header("fix:   \t a"), Ok(()));
    assert_eq!(lint_header("fix: a."), Err(MsgError::Subject));
    assert_eq!(lint_header("fix: 1a"), Err(MsgError::Subject));
    assert_eq!(lint_header("fix:"), Err(MsgError::Subject));
    assert_eq!(lint_header("Fix: a"), Err(MsgError::Header));
    assert_eq!(lint_header("revert: fix: a"), Ok(()));
    assert_eq!(lint_header("revert: fix a"), Err(MsgError::Revert));
    assert_eq!(lint_header("fix: a\nb"), Ok(()));
}

#[test]
fn is_revert_reads_the_type() {
    let revert: Vec<char> = "revert: fix: a".chars().collect();
    let plain: Vec<char> = "fix: revert".chars().collect();
    let bare: Vec<char> = "revert".chars().collect();
    assert!(Header::new(&revert).is_revert());
    assert!(!Header::new(&plain).is_revert());
    assert!(!Header::new(&bare).is_revert());
}

#[test]
fn messages_are_the_fixed_texts() {
    assert_eq!(
        MsgError::LenLimit.message(),
        "Any line of the commit message cannot be longer 100 characters!"
    );
    assert_eq!(MsgError::CloseIssue.message(), "\nCloses issue format:\nCloses #<num> [, #<num>...]");
    assert!(MsgError::General.message().starts_with("\ncommit message format:\n<type>(<scope>): <subject>\n"));
    assert!(MsgError::Header.message().ends_with("chore (maintain)"));
    assert!(MsgError::Revert.message().ends_with("This reverts commit <commit hash>."));
    assert!(MsgError::Subject.message().ends_with("- no dot (.) at the end"));
}

#[test]
fn header_only_messages_with_any_gap_are_accepted() {
    for gap in ["", " ", "  ", "\t", " \t "] {
        for ty in ["feat", "fix(parser)", "chore(a)(b)"] {
            assert_eq!(lint(&format!("{}:{}subject without a dot", ty, gap)), Ok(()));
        }
    }
}

#[test]
fn unknown_types_are_rejected_as_header() {
    for ty in ["bugfix", "Feat", "feature", "", "fix ", " fix", "fix()", "x(fix)", "reverts"] {
        assert_eq!(lint(&format!("{}: subject", ty)), Err(MsgError::Header), "{:?}", ty);
    }
}

#[test]
fn long_lines_are_rejected_wherever_they_stand() {
    let long: String = (0..101).map(|_| 'x').collect();
    assert_eq!(lint(&format!("fix: a\n\n{}", long)), Err(MsgError::LenLimit));
    assert_eq!(lint(&format!("fix: a\n\nbody\n\nCloses #1\n{}\n", long)), Err(MsgError::LenLimit));
    assert_eq!(lint(&format!("{}\n\nfix: a", long)), Err(MsgError::LenLimit));
    assert_eq!(lint(&format!("fix: a\n\n{}\r\n", &long[1..])), Ok(()));
    assert_eq!(lint(&format!("fix: a\n\n{}\r\n", long)), Err(MsgError::LenLimit));
}

#[test]
fn subject_rules_use_unicode_classes() {
    assert_eq!(lint("fix: \u{e9}t\u{e9}"), Ok(()));
    assert_eq!(lint("fix: \u{c9}t\u{e9}"), Err(MsgError::Subject));
    assert_eq!(lint("fix:\u{a0}a"), Ok(()));
    assert_eq!(lint("fix: a\n\nCloses\u{2003}#1"), Ok(()));
    assert_eq!(lint("fix: a\n\nCloses #\u{0663}"), Ok(()));
}

#[test]
fn unknown_type_is_rejected_whatever_follows() {
    assert_eq!(lint("bugfix: x\n\nbody"), Err(MsgError::Header));
    assert_eq!(lint("bugfix: x\n\nbody\n\nCloses 12"), Err(MsgError::Header));
    assert_eq!(lint("bugfix: X.\r\n\r\nThis reverts commit nothing."), Err(MsgError::Header));
    assert_eq!(lint_header("bugfix:"), Err(MsgError::Header));
    assert_eq!(lint_header("bugfix: x\ny: z"), Err(MsgError::Header));
}

#[test]
fn a_comment_in_front_changes_nothing() {
    for text in ["fix: a", "bugfix: a", "fix: a\n\nCloses 1", "", "fix: A", "revert: fix: a"] {
        assert_eq!(lint(&format!("# please describe\n{}", text)), lint(text), "{:?}", text);
        assert_eq!(lint(&format!("#\r\n{}", text)), lint(text), "{:?}", text);
    }
}
