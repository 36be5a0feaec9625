//! The values that flow through the engine: the kinds of check, the lines
//! that are read and the warnings that are reported.

use vstd::prelude::*;
use crate::text::{chars_of, find, scan, slice_trimmed, trim_end, CharClass};

verus! {

/// The identity of a check.
#[derive(Clone, Copy, PartialEq, Eq, Structural, Debug, Hash)]
pub enum LintKind {
    DuplicatedKey,
    EndingBlankLine,
    ExtraBlankLine,
    IncorrectDelimiter,
    KeyWithoutValue,
    LeadingCharacter,
    LowercaseKey,
    QuoteCharacter,
    SpaceCharacter,
    SubstitutionKey,
    TrailingWhitespace,
    UnorderedKey,
    ValueWithoutQuotes,
}

/// The name under which a kind is listed and written in control comments.
pub open spec fn name_of(kind: LintKind) -> Seq<char> {
    match kind {
        LintKind::DuplicatedKey => "DuplicatedKey"@,
        LintKind::EndingBlankLine => "EndingBlankLine"@,
        LintKind::ExtraBlankLine => "ExtraBlankLine"@,
        LintKind::IncorrectDelimiter => "IncorrectDelimiter"@,
        LintKind::KeyWithoutValue => "KeyWithoutValue"@,
        LintKind::LeadingCharacter => "LeadingCharacter"@,
        LintKind::LowercaseKey => "LowercaseKey"@,
        LintKind::QuoteCharacter => "QuoteCharacter"@,
        LintKind::SpaceCharacter => "SpaceCharacter"@,
        LintKind::SubstitutionKey => "SubstitutionKey"@,
        LintKind::TrailingWhitespace => "TrailingWhitespace"@,
        LintKind::UnorderedKey => "UnorderedKey"@,
        LintKind::ValueWithoutQuotes => "ValueWithoutQuotes"@,
    }
}

impl LintKind {
    /// The name of the kind.
    pub fn label(&self) -> (label: &'static str)
        ensures
            label@ == name_of(*self),
    {
        match self {
            LintKind::DuplicatedKey => "DuplicatedKey",
            LintKind::EndingBlankLine => "EndingBlankLine",
            LintKind::ExtraBlankLine => "ExtraBlankLine",
            LintKind::IncorrectDelimiter => "IncorrectDelimiter",
            LintKind::KeyWithoutValue => "KeyWithoutValue",
            LintKind::LeadingCharacter => "LeadingCharacter",
            LintKind::LowercaseKey => "LowercaseKey",
            LintKind::QuoteCharacter => "QuoteCharacter",
            LintKind::SpaceCharacter => "SpaceCharacter",
            LintKind::SubstitutionKey => "SubstitutionKey",
            LintKind::TrailingWhitespace => "TrailingWhitespace",
            LintKind::UnorderedKey => "UnorderedKey",
            LintKind::ValueWithoutQuotes => "ValueWithoutQuotes",
        }
    }
}

/// A line as the contracts see it.
pub struct LineView {
    pub number: nat,
    pub total_lines: nat,
    pub text: Seq<char>,
}

/// A warning as the contracts see it.
pub struct WarningView {
    pub line_number: nat,
    pub kind: LintKind,
    pub message: Seq<char>,
}

/// Whether a line holds nothing but spaces.
pub open spec fn is_blank(text: Seq<char>) -> bool {
    scan(text, CharClass::Visible, 0) == text.len()
}

/// Whether the first visible character of a line is `#`.
pub open spec fn is_comment(text: Seq<char>) -> bool {
    let at = scan(text, CharClass::Visible, 0);
    at < text.len() && text[at] == '#'
}

/// The key of a line: what stands before the first equal sign, or the whole
/// line where there is none, without the spaces at its end. A blank line and
/// a comment have no key.
pub open spec fn key_of(text: Seq<char>) -> Option<Seq<char>> {
    if is_blank(text) || is_comment(text) {
        None
    } else {
        Some(trim_end(text.subrange(0, scan(text, CharClass::Equals, 0))))
    }
}

/// The value of a line: what stands behind the first equal sign, without the
/// spaces at its end. A blank line, a comment and a line without an equal
/// sign have no value.
pub open spec fn value_of(text: Seq<char>) -> Option<Seq<char>> {
    let eq = scan(text, CharClass::Equals, 0);
    if is_blank(text) || is_comment(text) || eq >= text.len() {
        None
    } else {
        Some(trim_end(text.subrange(eq + 1, text.len() as int)))
    }
}

/// One line of a file, with its 1-based number and the number of lines of
/// the file.
#[derive(Clone, Debug, PartialEq, Eq)]
pub struct LineEntry {
    pub number: usize,
    pub total_lines: usize,
    pub raw_string: Vec<char>,
}

impl View for LineEntry {
    type V = LineView;

    open spec fn view(&self) -> LineView {
        LineView {
            number: self.number as nat,
            total_lines: self.total_lines as nat,
            text: self.raw_string@,
        }
    }
}

impl LineEntry {
    pub fn new(number: usize, total_lines: usize, raw_string: &str) -> (line: LineEntry)
        ensures
            line@ == (LineView {
                number: number as nat,
                total_lines: total_lines as nat,
                text: raw_string@,
            }),
    {
        LineEntry { number, total_lines, raw_string: chars_of(raw_string) }
    }

    pub fn is_empty(&self) -> (b: bool)
        ensures
            b == is_blank(self@.text),
    {
        find(&self.raw_string, CharClass::Visible, 0) == self.raw_string.len()
    }

    pub fn is_comment(&self) -> (b: bool)
        ensures
            b == is_comment(self@.text),
    {
        let at = find(&self.raw_string, CharClass::Visible, 0);
        at < self.raw_string.len() && self.raw_string[at] == '#'
    }

    pub fn is_last_line(&self) -> (b: bool)
        ensures
            b == (self@.number == self@.total_lines),
    {
        self.number == self.total_lines
    }

    pub fn get_key(&self) -> (key: Option<Vec<char>>)
        ensures
            key is Some == key_of(self@.text) is Some,
            key is Some ==> key->0@ == key_of(self@.text)->0,
    {
        if self.is_empty() || self.is_comment() {
            None
        } else {
            let eq = find(&self.raw_string, CharClass::Equals, 0);
            Some(slice_trimmed(&self.raw_string, 0, eq))
        }
    }

    pub fn get_value(&self) -> (value: Option<Vec<char>>)
        ensures
            value is Some == value_of(self@.text) is Some,
            value is Some ==> value->0@ == value_of(self@.text)->0,
    {
        let eq = find(&self.raw_string, CharClass::Equals, 0);
        if self.is_empty() || self.is_comment() || eq >= self.raw_string.len() {
            None
        } else {
            Some(slice_trimmed(&self.raw_string, eq + 1, self.raw_string.len()))
        }
    }
}

/// One finding of a check on one line.
#[derive(Clone, Debug, PartialEq, Eq)]
pub struct Warning {
    pub line_number: usize,
    pub kind: LintKind,
    pub message: Vec<char>,
}

impl View for Warning {
    type V = WarningView;

    open spec fn view(&self) -> WarningView {
        WarningView {
            line_number: self.line_number as nat,
            kind: self.kind,
            message: self.message@,
        }
    }
}

impl Warning {
    pub fn new(line_number: usize, kind: LintKind, message: &str) -> (w: Warning)
        ensures
            w@ == (WarningView {
                line_number: line_number as nat,
                kind,
                message: message@,
            }),
    {
        Warning { line_number, kind, message: chars_of(message) }
    }
}

/// The views of a list of lines.
pub open spec fn line_views(lines: Seq<LineEntry>) -> Seq<LineView> {
    lines.map_values(|l: LineEntry| l@)
}

/// The views of a list of warnings.
pub open spec fn warning_views(warnings: Seq<Warning>) -> Seq<WarningView> {
    warnings.map_values(|w: Warning| w@)
}

} // verus!
