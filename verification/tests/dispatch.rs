use dotenv_linter::checks::{available_check_names, checklist, run, Check};
use dotenv_linter::common::{LineEntry, LintKind, Warning};

fn file(texts: &[&str]) -> Vec<LineEntry> {
    let total = texts.len();
    let mut lines = Vec::new();
    for (i, text) in texts.iter().enumerate() {
        lines.push(LineEntry::new(i + 1, total, text));
    }
    lines
}

fn lint(texts: &[&str]) -> Vec<Warning> {
    run(&file(texts), &[])
}

fn found(warnings: &[Warning]) -> Vec<(usize, LintKind)> {
    warnings.iter().map(|w| (w.line_number, w.kind)).collect()
}

#[test]
fn registry_lists_thirteen_kinds_in_order() {
    let names = available_check_names();
    assert_eq!(
        names,
        vec![
            LintKind::DuplicatedKey,
            LintKind::EndingBlankLine,
            LintKind::ExtraBlankLine,
            LintKind::IncorrectDelimiter,
            LintKind::KeyWithoutValue,
            LintKind::LeadingCharacter,
            LintKind::LowercaseKey,
            LintKind::QuoteCharacter,
            LintKind::SpaceCharacter,
            LintKind::SubstitutionKey,
            LintKind::TrailingWhitespace,
            LintKind::UnorderedKey,
            LintKind::ValueWithoutQuotes,
        ]
    );
    let kinds: Vec<LintKind> = checklist().iter().map(|c| c.name()).collect();
    assert_eq!(kinds, names);
}

#[test]
fn four_checks_see_comments() {
    let seeing: Vec<LintKind> =
        checklist().iter().filter(|c| !c.skip_comments()).map(|c| c.name()).collect();
    assert_eq!(
        seeing,
        vec![
            LintKind::EndingBlankLine,
            LintKind::ExtraBlankLine,
            LintKind::TrailingWhitespace,
            LintKind::UnorderedKey,
        ]
    );
}

#[test]
fn no_lines_no_warnings_whatever_is_skipped() {
    assert_eq!(run(&[], &available_check_names()), Vec::new());
    assert_eq!(run(&[], &[LintKind::LowercaseKey]), Vec::new());
}

#[test]
fn valid_file_with_empty_last_line() {
    assert_eq!(lint(&["FOO=BAR", ""]), Vec::new());
}

#[test]
fn single_line_without_value_or_ending() {
    let expected = vec![
        Warning::new(1, LintKind::EndingBlankLine, "No blank line at the end of the file"),
        Warning::new(
            1,
            LintKind::KeyWithoutValue,
            "The FOO key should be with a value or have an equal sign",
        ),
    ];
    assert_eq!(lint(&["FOO"]), expected);
}

#[test]
fn off_comment_suppresses_named_check_only() {
    let expected =
        vec![Warning::new(3, LintKind::LeadingCharacter, "Invalid leading character detected")];
    assert_eq!(lint(&["# dotenv-linter:off KeyWithoutValue", "FOO", "1FOO", ""]), expected);
}

#[test]
fn off_two_then_on_one() {
    let warnings = lint(&[
        "# dotenv-linter:off KeyWithoutValue,LeadingCharacter",
        "1X",
        "# dotenv-linter:on LeadingCharacter",
        "1Y",
        "",
    ]);
    assert_eq!(found(&warnings), vec![(4, LintKind::LeadingCharacter)]);
}

#[test]
fn warnings_come_by_line_then_by_registry() {
    let warnings = lint(&["foo", "bar", "1x", ""]);
    assert_eq!(
        found(&warnings),
        vec![
            (1, LintKind::KeyWithoutValue),
            (1, LintKind::LowercaseKey),
            (2, LintKind::KeyWithoutValue),
            (2, LintKind::LowercaseKey),
            (2, LintKind::UnorderedKey),
            (3, LintKind::KeyWithoutValue),
            (3, LintKind::LeadingCharacter),
            (3, LintKind::LowercaseKey),
        ]
    );
}

#[test]
fn skipping_every_kind_silences_everything() {
    let lines = file(&["foo", "1bar", "A = 'x", "", "", "A=b c "]);
    assert!(!run(&lines, &[]).is_empty());
    assert_eq!(run(&lines, &available_check_names()), Vec::new());
}

#[test]
fn skip_list_tolerates_duplicates() {
    let lines = file(&["FOO", ""]);
    let skip = vec![LintKind::KeyWithoutValue, LintKind::KeyWithoutValue];
    assert_eq!(run(&lines, &skip), Vec::new());
}

#[test]
fn on_restores_after_off() {
    let with = lint(&["# dotenv-linter:off LowercaseKey", "# dotenv-linter:on LowercaseKey", "foo=1", ""]);
    assert_eq!(found(&with), vec![(3, LintKind::LowercaseKey)]);
    let without = lint(&["foo=1", ""]);
    assert_eq!(found(&without), vec![(1, LintKind::LowercaseKey)]);
    assert_eq!(with[0].message, without[0].message);
}

#[test]
fn one_on_undoes_two_offs() {
    let warnings = lint(&[
        "# dotenv-linter:off LowercaseKey",
        "# dotenv-linter:off LowercaseKey",
        "foo=1",
        "# dotenv-linter:on LowercaseKey",
        "goo=1",
        "",
    ]);
    assert_eq!(found(&warnings), vec![(5, LintKind::LowercaseKey)]);
}

#[test]
fn off_twice_is_off_once() {
    let once = lint(&["# dotenv-linter:off LowercaseKey", "foo=1", ""]);
    let twice = lint(&["# dotenv-linter:off LowercaseKey", "# dotenv-linter:off LowercaseKey", "foo=1", ""]);
    assert_eq!(once, Vec::new());
    assert_eq!(twice, Vec::new());
}

#[test]
fn off_without_names_switches_all_off() {
    assert_eq!(lint(&["# dotenv-linter:off", "foo", "1bar "]), Vec::new());
}

#[test]
fn on_without_names_switches_all_on() {
    let warnings = lint(&["# dotenv-linter:off", "foo", "# dotenv-linter:on", "bar", ""]);
    assert_eq!(
        found(&warnings),
        vec![(4, LintKind::KeyWithoutValue), (4, LintKind::LowercaseKey)]
    );
}

#[test]
fn unknown_name_makes_an_ordinary_comment() {
    let warnings = lint(&["# dotenv-linter:off NoSuchCheck", "FOO", ""]);
    assert_eq!(found(&warnings), vec![(2, LintKind::KeyWithoutValue)]);
}

#[test]
fn unknown_word_makes_an_ordinary_comment() {
    let warnings = lint(&["# dotenv-linter:offf KeyWithoutValue", "FOO", ""]);
    assert_eq!(found(&warnings), vec![(2, LintKind::KeyWithoutValue)]);
    let warnings = lint(&["# dotenv-lint:off KeyWithoutValue", "FOO", ""]);
    assert_eq!(found(&warnings), vec![(2, LintKind::KeyWithoutValue)]);
}

#[test]
fn directive_tolerates_spaces() {
    let warnings = lint(&["  #   dotenv-linter:off   KeyWithoutValue ,LowercaseKey  ", "foo", ""]);
    assert_eq!(found(&warnings), vec![(1, LintKind::TrailingWhitespace)]);
}

#[test]
fn control_comment_line_is_parsed() {
    let line = LineEntry::new(1, 2, "# dotenv-linter:off KeyWithoutValue, LeadingCharacter\n");
    let comment = line.get_control_comment().unwrap();
    assert!(comment.is_disabled());
    assert_eq!(comment.checks, vec![LintKind::KeyWithoutValue, LintKind::LeadingCharacter]);
    let line = LineEntry::new(1, 2, "# dotenv-linter:on");
    let comment = line.get_control_comment().unwrap();
    assert!(!comment.is_disabled());
    assert!(comment.checks.is_empty());
    assert!(LineEntry::new(1, 2, "dotenv-linter:off").get_control_comment().is_none());
    assert!(LineEntry::new(1, 2, "# a comment").get_control_comment().is_none());
}

#[test]
fn line_classification() {
    assert!(LineEntry::new(1, 1, "").is_empty());
    assert!(LineEntry::new(1, 1, " \t\n").is_empty());
    assert!(!LineEntry::new(1, 1, "A").is_empty());
    assert!(LineEntry::new(1, 1, "  # x").is_comment());
    assert!(!LineEntry::new(1, 1, "A # x").is_comment());
    assert!(LineEntry::new(3, 3, "A").is_last_line());
    assert!(!LineEntry::new(2, 3, "A").is_last_line());
}

#[test]
fn keys_and_values() {
    let text = |s: &str| -> Vec<char> { s.chars().collect() };
    assert_eq!(LineEntry::new(1, 1, "FOO=BAR").get_key(), Some(text("FOO")));
    assert_eq!(LineEntry::new(1, 1, "FOO =BAR \n").get_key(), Some(text("FOO")));
    assert_eq!(LineEntry::new(1, 1, "FOO\n").get_key(), Some(text("FOO")));
    assert_eq!(LineEntry::new(1, 1, "# FOO=BAR").get_key(), None);
    assert_eq!(LineEntry::new(1, 1, "FOO=BAR \n").get_value(), Some(text("BAR")));
    assert_eq!(LineEntry::new(1, 1, "FOO=A=B").get_value(), Some(text("A=B")));
    assert_eq!(LineEntry::new(1, 1, "FOO").get_value(), None);
    assert_eq!(LineEntry::new(1, 1, "").get_value(), None);
}

#[test]
fn a_check_that_was_off_has_not_seen_the_lines_between() {
    let with = lint(&[
        "# dotenv-linter:off DuplicatedKey",
        "A=1",
        "# dotenv-linter:on DuplicatedKey",
        "A=2",
        "",
    ]);
    assert_eq!(with, Vec::new());
    let without = lint(&["A=1", "A=2", ""]);
    assert_eq!(
        without,
        vec![Warning::new(2, LintKind::DuplicatedKey, "The A key is duplicated")]
    );
}

#[test]
fn every_kind_is_addressed_by_its_label() {
    for kind in available_check_names() {
        let text = format!("# dotenv-linter:off {}", kind.label());
        let comment = LineEntry::new(1, 1, &text).get_control_comment().unwrap();
        assert!(comment.is_disabled());
        assert_eq!(comment.checks, vec![kind]);
    }
    assert_eq!(LintKind::KeyWithoutValue.label(), "KeyWithoutValue");
    assert_eq!(LintKind::ValueWithoutQuotes.label(), "ValueWithoutQuotes");
}

#[test]
fn names_are_matched_exactly() {
    assert!(LineEntry::new(1, 1, "# dotenv-linter:off lowercasekey").get_control_comment().is_none());
    assert!(LineEntry::new(1, 1, "# dotenv-linter:OFF LowercaseKey").get_control_comment().is_none());
    assert!(LineEntry::new(1, 1, "# dotenv-linter: off LowercaseKey").get_control_comment().is_none());
    assert!(LineEntry::new(1, 1, "# dotenv-linter:off LowercaseKey,,QuoteCharacter").get_control_comment().is_none());
}

#[test]
fn lines_out_of_order_give_warnings_out_of_order() {
    let lines = vec![LineEntry::new(2, 3, "FOO"), LineEntry::new(1, 3, "BAR")];
    let warnings = run(&lines, &[LintKind::UnorderedKey]);
    assert_eq!(
        found(&warnings),
        vec![(2, LintKind::KeyWithoutValue), (1, LintKind::KeyWithoutValue)]
    );
}
