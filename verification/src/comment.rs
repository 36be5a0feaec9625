//! The control comments that switch checks off and on.

use vstd::prelude::*;
use crate::common::{is_comment, LineEntry, LintKind};
use crate::text::{find, scan, slice, slice_trimmed, spells, trim_end, CharClass};

verus! {

/// A control comment as the contracts see it.
pub struct CommentView {
    /// Whether the comment switches checks off (`off`) or on (`on`).
    pub disables: bool,
    /// The checks that it names, in the order written; none stands for all.
    pub checks: Seq<LintKind>,
}

/// A directive found in a comment.
#[derive(Clone, Debug, PartialEq, Eq)]
pub struct Comment {
    disables: bool,
    pub checks: Vec<LintKind>,
}

impl View for Comment {
    type V = CommentView;

    closed spec fn view(&self) -> CommentView {
        CommentView { disables: self.disables, checks: self.checks@ }
    }
}

impl Comment {
    pub fn is_disabled(&self) -> (b: bool)
        ensures
            b == self@.disables,
    {
        self.disables
    }

    /// The checks that the comment names.
    pub fn targets(&self) -> (checks: &Vec<LintKind>)
        ensures
            checks@ == self@.checks,
    {
        &self.checks
    }
}

/// The check that a name stands for.
pub open spec fn kind_named(name: Seq<char>) -> Option<LintKind> {
    if name == "DuplicatedKey"@ {
        Some(LintKind::DuplicatedKey)
    } else if name == "EndingBlankLine"@ {
        Some(LintKind::EndingBlankLine)
    } else if name == "ExtraBlankLine"@ {
        Some(LintKind::ExtraBlankLine)
    } else if name == "IncorrectDelimiter"@ {
        Some(LintKind::IncorrectDelimiter)
    } else if name == "KeyWithoutValue"@ {
        Some(LintKind::KeyWithoutValue)
    } else if name == "LeadingCharacter"@ {
        Some(LintKind::LeadingCharacter)
    } else if name == "LowercaseKey"@ {
        Some(LintKind::LowercaseKey)
    } else if name == "QuoteCharacter"@ {
        Some(LintKind::QuoteCharacter)
    } else if name == "SpaceCharacter"@ {
        Some(LintKind::SpaceCharacter)
    } else if name == "SubstitutionKey"@ {
        Some(LintKind::SubstitutionKey)
    } else if name == "TrailingWhitespace"@ {
        Some(LintKind::TrailingWhitespace)
    } else if name == "UnorderedKey"@ {
        Some(LintKind::UnorderedKey)
    } else if name == "ValueWithoutQuotes"@ {
        Some(LintKind::ValueWithoutQuotes)
    } else {
        None
    }
}

/// The checks named from index `from` of `s` on: names divided by commas,
/// with spaces allowed around each. One name that stands for no check leaves
/// no list at all.
pub open spec fn names_from(s: Seq<char>, from: int) -> Option<Seq<LintKind>>
    decreases s.len() - from,
{
    let start = scan(s, CharClass::Visible, from);
    let end = scan(s, CharClass::Comma, start);
    if from < 0 || start >= s.len() {
        Some(Seq::empty())
    } else if start < from || end < start || end > s.len() {
        None
    } else {
        match kind_named(trim_end(s.subrange(start, end))) {
            None => None,
            Some(kind) => if end >= s.len() {
                Some(seq![kind])
            } else {
                match names_from(s, end + 1) {
                    None => None,
                    Some(rest) => Some(seq![kind] + rest),
                }
            },
        }
    }
}

/// The marker that opens a directive.
pub open spec fn marker() -> Seq<char> {
    "dotenv-linter:"@
}

/// The directive that a line of text holds: `#`, the marker, right behind
/// it the word `off` or `on`, and the names of the checks. Any other text
/// holds none.
pub open spec fn directive_of(s: Seq<char>) -> Option<CommentView> {
    let hash = scan(s, CharClass::Visible, 0);
    let start = scan(s, CharClass::Visible, hash + 1);
    let word = start + marker().len();
    let end = scan(s, CharClass::Space, word);
    if !is_comment(s) || word > s.len() || s.subrange(start, word) != marker() {
        None
    } else if s.subrange(word, end) == "off"@ {
        match names_from(s, end) {
            None => None,
            Some(checks) => Some(CommentView { disables: true, checks }),
        }
    } else if s.subrange(word, end) == "on"@ {
        match names_from(s, end) {
            None => None,
            Some(checks) => Some(CommentView { disables: false, checks }),
        }
    } else {
        None
    }
}

/// Finds the check that a name stands for.
pub fn kind_by_name(name: &Vec<char>) -> (kind: Option<LintKind>)
    ensures
        kind == kind_named(name@),
{
    if spells(name, "DuplicatedKey") {
        Some(LintKind::DuplicatedKey)
    } else if spells(name, "EndingBlankLine") {
        Some(LintKind::EndingBlankLine)
    } else if spells(name, "ExtraBlankLine") {
        Some(LintKind::ExtraBlankLine)
    } else if spells(name, "IncorrectDelimiter") {
        Some(LintKind::IncorrectDelimiter)
    } else if spells(name, "KeyWithoutValue") {
        Some(LintKind::KeyWithoutValue)
    } else if spells(name, "LeadingCharacter") {
        Some(LintKind::LeadingCharacter)
    } else if spells(name, "LowercaseKey") {
        Some(LintKind::LowercaseKey)
    } else if spells(name, "QuoteCharacter") {
        Some(LintKind::QuoteCharacter)
    } else if spells(name, "SpaceCharacter") {
        Some(LintKind::SpaceCharacter)
    } else if spells(name, "SubstitutionKey") {
        Some(LintKind::SubstitutionKey)
    } else if spells(name, "TrailingWhitespace") {
        Some(LintKind::TrailingWhitespace)
    } else if spells(name, "UnorderedKey") {
        Some(LintKind::UnorderedKey)
    } else if spells(name, "ValueWithoutQuotes") {
        Some(LintKind::ValueWithoutQuotes)
    } else {
        None
    }
}

/// Reads the names of checks that stand in `v` from index `from` on.
pub fn parse_names(v: &Vec<char>, from: usize) -> (checks: Option<Vec<LintKind>>)
    requires
        from <= v.len(),
    ensures
        checks is Some == names_from(v@, from as int) is Some,
        checks is Some ==> checks->0@ == names_from(v@, from as int)->0,
{
    let mut found: Vec<LintKind> = Vec::new();
    let mut at: usize = from;
    loop
        invariant
            at <= v.len(),
            from <= v.len(),
            names_from(v@, from as int) == match names_from(v@, at as int) {
                None => None::<Seq<LintKind>>,
                Some(rest) => Some(found@ + rest),
            },
        decreases v.len() - at,
    {
        let start = find(v, CharClass::Visible, at);
        if start >= v.len() {
            assert(found@ + Seq::<LintKind>::empty() =~= found@);
            return Some(found);
        }
        let end = find(v, CharClass::Comma, start);
        let name = slice_trimmed(v, start, end);
        match kind_by_name(&name) {
            None => {
                return None;
            },
            Some(kind) => {
                proof {
                    if end < v.len() {
                        let rest = names_from(v@, end + 1);
                        if rest is Some {
                            assert(found@ + (seq![kind] + rest->0) =~= found@.push(kind)
                                + rest->0);
                        }
                    } else {
                        assert(found@ + seq![kind] =~= found@.push(kind));
                    }
                }
                found.push(kind);
                if end >= v.len() {
                    return Some(found);
                }
                at = end + 1;
            },
        }
    }
}

/// Reads the directive that a line of text holds, if it holds one.
pub fn parse(v: &Vec<char>) -> (comment: Option<Comment>)
    ensures
        comment is Some == directive_of(v@) is Some,
        comment is Some ==> comment->0@ == directive_of(v@)->0,
{
    let hash = find(v, CharClass::Visible, 0);
    if hash >= v.len() || v[hash] != '#' {
        return None;
    }
    let start = find(v, CharClass::Visible, hash + 1);
    let length = "dotenv-linter:".unicode_len();
    if v.len() - start < length {
        return None;
    }
    let word = start + length;
    let prefix = slice(v, start, word);
    if !spells(&prefix, "dotenv-linter:") {
        return None;
    }
    let end = find(v, CharClass::Space, word);
    let flag = slice(v, word, end);
    let disables = if spells(&flag, "off") {
        true
    } else if spells(&flag, "on") {
        false
    } else {
        return None;
    };
    match parse_names(v, end) {
        None => None,
        Some(checks) => Some(Comment { disables, checks }),
    }
}

impl LineEntry {
    /// The directive that the line holds, if it is a control comment.
    pub fn get_control_comment(&self) -> (comment: Option<Comment>)
        ensures
            comment is Some == directive_of(self@.text) is Some,
            comment is Some ==> comment->0@ == directive_of(self@.text)->0,
    {
        parse(&self.raw_string)
    }
}

} // verus!
