use dotenv_linter::checks::{run, Check, Checker};
use dotenv_linter::common::{LineEntry, LintKind, Warning};

fn only(kind: LintKind, texts: &[&str]) -> Vec<Warning> {
    let total = texts.len();
    let mut check = Checker::new(kind);
    let mut warnings = Vec::new();
    for (i, text) in texts.iter().enumerate() {
        if let Some(w) = check.run(&LineEntry::new(i + 1, total + 1, text)) {
            warnings.push(w);
        }
    }
    warnings
}

#[test]
fn duplicated_key_rule() {
    assert_eq!(
        only(LintKind::DuplicatedKey, &["FOO=1", "BAR=2", "FOO=3"]),
        vec![Warning::new(3, LintKind::DuplicatedKey, "The FOO key is duplicated")]
    );
    assert_eq!(only(LintKind::DuplicatedKey, &["FOO=1", "foo=1", ""]), Vec::new());
}

#[test]
fn ending_blank_line_rule() {
    let mut check = Checker::new(LintKind::EndingBlankLine);
    assert_eq!(
        check.run(&LineEntry::new(2, 2, "FOO=BAR")),
        Some(Warning::new(2, LintKind::EndingBlankLine, "No blank line at the end of the file"))
    );
    assert_eq!(check.run(&LineEntry::new(1, 2, "FOO=BAR")), None);
    assert_eq!(check.run(&LineEntry::new(2, 2, "FOO=BAR\n")), None);
    assert_eq!(check.run(&LineEntry::new(2, 2, "")), None);
    assert_eq!(check.run(&LineEntry::new(2, 2, "\n")), None);
}

#[test]
fn extra_blank_line_rule() {
    assert_eq!(
        only(LintKind::ExtraBlankLine, &["A=1", "", "", "B=1", "", "C=1", ""]),
        vec![Warning::new(3, LintKind::ExtraBlankLine, "Extra blank line detected")]
    );
}

#[test]
fn incorrect_delimiter_rule() {
    assert_eq!(
        only(LintKind::IncorrectDelimiter, &["FOO-BAR=1", "FOO_BAR=1", "-FOO=1", "F1=2"]),
        vec![Warning::new(
            1,
            LintKind::IncorrectDelimiter,
            "The FOO-BAR key has incorrect delimiter"
        )]
    );
}

#[test]
fn key_without_value_rule() {
    assert_eq!(
        only(LintKind::KeyWithoutValue, &["FOO", "FOO=", "", "# FOO"]),
        vec![Warning::new(
            1,
            LintKind::KeyWithoutValue,
            "The FOO key should be with a value or have an equal sign"
        )]
    );
}

#[test]
fn leading_character_rule() {
    let warnings = only(LintKind::LeadingCharacter, &["FOO=1", "_FOO=1", "1FOO=1", " FOO=1", ".F=1", ""]);
    let lines: Vec<usize> = warnings.iter().map(|w| w.line_number).collect();
    assert_eq!(lines, vec![3, 4, 5]);
    assert_eq!(
        warnings[0],
        Warning::new(3, LintKind::LeadingCharacter, "Invalid leading character detected")
    );
}

#[test]
fn lowercase_key_rule() {
    assert_eq!(
        only(LintKind::LowercaseKey, &["FOO=bar", "Foo=BAR", "F_1=x"]),
        vec![Warning::new(2, LintKind::LowercaseKey, "The Foo key should be in uppercase")]
    );
}

#[test]
fn quote_character_rule() {
    assert_eq!(
        only(LintKind::QuoteCharacter, &["A=b", "A='b'", "A=\"b\"", "A=b'c", "A='b\"", "A='"]),
        vec![
            Warning::new(4, LintKind::QuoteCharacter, "The value has quote characters (', \")"),
            Warning::new(5, LintKind::QuoteCharacter, "The value has quote characters (', \")"),
            Warning::new(6, LintKind::QuoteCharacter, "The value has quote characters (', \")"),
        ]
    );
}

#[test]
fn space_character_rule() {
    let warnings = only(LintKind::SpaceCharacter, &["A=b", "A =b", "A= b", "A = b", "A=b c", "A"]);
    let lines: Vec<usize> = warnings.iter().map(|w| w.line_number).collect();
    assert_eq!(lines, vec![2, 3, 4]);
    assert_eq!(
        warnings[0],
        Warning::new(2, LintKind::SpaceCharacter, "The line has spaces around equal sign")
    );
}

#[test]
fn substitution_key_rule() {
    assert_eq!(
        only(LintKind::SubstitutionKey, &["A=${B}", "A=$B", "A=${B", "A='${B'", "A={B", "A=x${B}${C"]),
        vec![Warning::new(3, LintKind::SubstitutionKey, "The A key is not assigned properly")]
    );
}

#[test]
fn trailing_whitespace_rule() {
    assert_eq!(
        only(LintKind::TrailingWhitespace, &["A=b", "A=b ", "# c ", "A=b\n"]),
        vec![
            Warning::new(2, LintKind::TrailingWhitespace, "Trailing whitespace detected"),
            Warning::new(3, LintKind::TrailingWhitespace, "Trailing whitespace detected"),
        ]
    );
}

#[test]
fn unordered_key_rule() {
    assert_eq!(
        only(LintKind::UnorderedKey, &["B=1", "D=1", "C=1", "A=1", "", "A=1", "AA=1", "A=1"]),
        vec![
            Warning::new(3, LintKind::UnorderedKey, "The C key should go before the D key"),
            Warning::new(4, LintKind::UnorderedKey, "The A key should go before the B key"),
            Warning::new(8, LintKind::UnorderedKey, "The A key should go before the AA key"),
        ]
    );
}

#[test]
fn unordered_key_groups_end_at_control_comments() {
    assert_eq!(
        only(LintKind::UnorderedKey, &["B=1", "# dotenv-linter:off LowercaseKey", "C=1", "# note", "A=1"]),
        vec![Warning::new(5, LintKind::UnorderedKey, "The A key should go before the C key")]
    );
}

#[test]
fn unordered_key_leaves_out_keys_that_start_badly() {
    assert_eq!(only(LintKind::UnorderedKey, &["FOO", "1FOO", "0=1", ""]), Vec::new());
}

#[test]
fn value_without_quotes_rule() {
    assert_eq!(
        only(LintKind::ValueWithoutQuotes, &["A=b c", "A='b c'", "A=\"b c\"", "A=bc  ", "A"]),
        vec![Warning::new(
            1,
            LintKind::ValueWithoutQuotes,
            "This value needs to be surrounded in quotes"
        )]
    );
}

#[test]
fn check_keeps_its_name_and_reports_under_it() {
    let mut check = Checker::new(LintKind::LowercaseKey);
    assert_eq!(check.name(), LintKind::LowercaseKey);
    assert!(check.skip_comments());
    let w = check.run(&LineEntry::new(7, 9, "a=1")).unwrap();
    assert_eq!((w.line_number, w.kind), (7, LintKind::LowercaseKey));
    assert_eq!(check.name(), LintKind::LowercaseKey);
}

#[test]
fn checks_of_separate_runs_share_nothing() {
    let lines = vec![LineEntry::new(1, 2, "A=1"), LineEntry::new(2, 2, "\n")];
    assert_eq!(run(&lines, &[]), Vec::new());
    assert_eq!(run(&lines, &[]), Vec::new());
}
