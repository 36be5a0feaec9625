//! The rules: what each check finds on a line, and what it remembers of the
//! lines that it has seen.

use vstd::prelude::*;
use crate::comment::directive_of;
use crate::common::{is_blank, is_comment, key_of, value_of, LineEntry, LineView, LintKind, WarningView};
use crate::text::{append, char_in_class, chars_of, find, is_letter, is_quoted, same_chars, scan, CharClass};

verus! {

/// What a check remembers between two lines.
pub struct CheckState {
    pub kind: LintKind,
    /// The keys seen so far (in the group, for the check on their order).
    pub keys: Seq<Seq<char>>,
    /// The number of the last blank line seen.
    pub last_blank: Option<nat>,
}

/// The state of a check that has seen no line.
pub open spec fn fresh(kind: LintKind) -> CheckState {
    CheckState { kind, keys: Seq::empty(), last_blank: None }
}

/// Whether the check of this kind is left out on comment lines.
pub open spec fn skips_comments(kind: LintKind) -> bool {
    match kind {
        LintKind::EndingBlankLine => false,
        LintKind::ExtraBlankLine => false,
        LintKind::TrailingWhitespace => false,
        LintKind::UnorderedKey => false,
        _ => true,
    }
}

/// A message that names a key: `The`, the key, and what is said of it.
pub open spec fn about_key(key: Seq<char>, tail: Seq<char>) -> Seq<char> {
    "The "@ + key + tail
}

/// Whether `a` stands before `b` in the order of the dictionary, compared by
/// code points from index `from` on, the characters before it being equal.
pub open spec fn precedes_from(a: Seq<char>, b: Seq<char>, from: int) -> bool
    decreases a.len() - from,
{
    if from < 0 || from >= b.len() {
        false
    } else if from >= a.len() {
        true
    } else if a[from] != b[from] {
        (a[from] as u32) < (b[from] as u32)
    } else {
        precedes_from(a, b, from + 1)
    }
}

/// Whether `a` stands strictly before `b` in the order of the dictionary.
pub open spec fn precedes(a: Seq<char>, b: Seq<char>) -> bool {
    precedes_from(a, b, 0)
}

/// Among the first `n` of `keys`, the first in the dictionary of those that
/// `key` precedes.
pub open spec fn least_above(keys: Seq<Seq<char>>, key: Seq<char>, n: int) -> Option<Seq<char>>
    decreases n,
{
    if n <= 0 || n > keys.len() {
        None
    } else {
        let rest = least_above(keys, key, n - 1);
        let last = keys[n - 1];
        if precedes(key, last) && (rest is None || precedes(last, rest->0)) {
            Some(last)
        } else {
            rest
        }
    }
}

/// The key of the line was seen before.
pub open spec fn duplicated_key(keys: Seq<Seq<char>>, text: Seq<char>) -> Option<Seq<char>> {
    match key_of(text) {
        Some(key) => if keys.contains(key) {
            Some(about_key(key, " key is duplicated"@))
        } else {
            None
        },
        None => None,
    }
}

/// The last line of the file is not blank and does not end in a line feed.
pub open spec fn ending_blank_line(line: LineView) -> Option<Seq<char>> {
    if line.number == line.total_lines && !is_blank(line.text) && line.text.last() != '\n' {
        Some("No blank line at the end of the file"@)
    } else {
        None
    }
}

/// A blank line follows a blank line.
pub open spec fn extra_blank_line(last_blank: Option<nat>, line: LineView) -> Option<Seq<char>> {
    if is_blank(line.text) && last_blank is Some && last_blank->0 + 1 == line.number {
        Some("Extra blank line detected"@)
    } else {
        None
    }
}

/// Behind the first character of a name, the key holds a character that no
/// name holds.
pub open spec fn incorrect_delimiter(text: Seq<char>) -> Option<Seq<char>> {
    match key_of(text) {
        Some(key) => if scan(key, CharClass::Other, scan(key, CharClass::Name, 0)) < key.len() {
            Some(about_key(key, " key has incorrect delimiter"@))
        } else {
            None
        },
        None => None,
    }
}

/// The line has a key and no equal sign.
pub open spec fn key_without_value(text: Seq<char>) -> Option<Seq<char>> {
    match key_of(text) {
        Some(key) => if scan(text, CharClass::Equals, 0) >= text.len() {
            Some(about_key(key, " key should be with a value or have an equal sign"@))
        } else {
            None
        },
        None => None,
    }
}

/// The line starts with neither a letter nor an underscore.
pub open spec fn leading_character(text: Seq<char>) -> Option<Seq<char>> {
    if is_blank(text) || is_comment(text) || is_letter(text[0]) || text[0] == '_' {
        None
    } else {
        Some("Invalid leading character detected"@)
    }
}

/// The key holds a lower-case letter.
pub open spec fn lowercase_key(text: Seq<char>) -> Option<Seq<char>> {
    match key_of(text) {
        Some(key) => if scan(key, CharClass::Lower, 0) < key.len() {
            Some(about_key(key, " key should be in uppercase"@))
        } else {
            None
        },
        None => None,
    }
}

/// The value holds a quote and is not wrapped in quotes.
pub open spec fn quote_character(text: Seq<char>) -> Option<Seq<char>> {
    match value_of(text) {
        Some(value) => if !is_quoted(value) && scan(value, CharClass::Quote, 0) < value.len() {
            Some("The value has quote characters (\', \")"@)
        } else {
            None
        },
        None => None,
    }
}

/// A blank stands right before or right behind the first equal sign.
pub open spec fn space_character(text: Seq<char>) -> Option<Seq<char>> {
    let eq = scan(text, CharClass::Equals, 0);
    if !is_blank(text) && !is_comment(text) && eq < text.len() && ((eq > 0 && text[eq - 1] == ' ')
        || (eq + 1 < text.len() && text[eq + 1] == ' ')) {
        Some("The line has spaces around equal sign"@)
    } else {
        None
    }
}

/// The value is not in single quotes, its first opening curly bracket
/// follows a dollar sign, and no closing one follows it.
pub open spec fn substitution_key(text: Seq<char>) -> Option<Seq<char>> {
    match (key_of(text), value_of(text)) {
        (Some(key), Some(value)) => {
            let open = scan(value, CharClass::Open, 0);
            if 0 < open < value.len() && value[0] != '\'' && value[open - 1] == '$' && scan(
                value,
                CharClass::Close,
                open,
            ) >= value.len() {
                Some(about_key(key, " key is not assigned properly"@))
            } else {
                None
            }
        },
        _ => None,
    }
}

/// The line ends in a blank.
pub open spec fn trailing_whitespace(text: Seq<char>) -> Option<Seq<char>> {
    if text.len() > 0 && text.last() == ' ' {
        Some("Trailing whitespace detected"@)
    } else {
        None
    }
}

/// Whether the line ends a group of keys: a blank line or a control comment.
pub open spec fn ends_group(text: Seq<char>) -> bool {
    is_blank(text) || directive_of(text) is Some
}

/// Whether the line takes part in the order of keys: it has a key that
/// starts as a name may, and it does not end a group.
pub open spec fn is_ordered(text: Seq<char>) -> bool {
    key_of(text) is Some && leading_character(text) is None && !ends_group(text)
}

/// The key of the line precedes a key of its group that was seen before.
/// Lines whose first character no name starts with take no part.
pub open spec fn unordered_key(keys: Seq<Seq<char>>, text: Seq<char>) -> Option<Seq<char>> {
    if is_ordered(text) {
        let key = key_of(text)->0;
        match least_above(keys, key, keys.len() as int) {
            Some(other) => Some(about_key(key, " key should go before the "@ + other + " key"@)),
            None => None,
        }
    } else {
        None
    }
}

/// The value holds a space and is not wrapped in quotes.
pub open spec fn value_without_quotes(text: Seq<char>) -> Option<Seq<char>> {
    match value_of(text) {
        Some(value) => if !is_quoted(value) && scan(value, CharClass::Space, 0) < value.len() {
            Some("This value needs to be surrounded in quotes"@)
        } else {
            None
        },
        None => None,
    }
}

/// The message, if any, with which a check in `state` answers `line`.
pub open spec fn finding(state: CheckState, line: LineView) -> Option<Seq<char>> {
    match state.kind {
        LintKind::DuplicatedKey => duplicated_key(state.keys, line.text),
        LintKind::EndingBlankLine => ending_blank_line(line),
        LintKind::ExtraBlankLine => extra_blank_line(state.last_blank, line),
        LintKind::IncorrectDelimiter => incorrect_delimiter(line.text),
        LintKind::KeyWithoutValue => key_without_value(line.text),
        LintKind::LeadingCharacter => leading_character(line.text),
        LintKind::LowercaseKey => lowercase_key(line.text),
        LintKind::QuoteCharacter => quote_character(line.text),
        LintKind::SpaceCharacter => space_character(line.text),
        LintKind::SubstitutionKey => substitution_key(line.text),
        LintKind::TrailingWhitespace => trailing_whitespace(line.text),
        LintKind::UnorderedKey => unordered_key(state.keys, line.text),
        LintKind::ValueWithoutQuotes => value_without_quotes(line.text),
    }
}

/// What a check in `state` remembers once it has seen `line`.
pub open spec fn remember(state: CheckState, line: LineView) -> CheckState {
    match state.kind {
        LintKind::DuplicatedKey => match key_of(line.text) {
            Some(key) => CheckState { keys: state.keys.push(key), ..state },
            None => state,
        },
        LintKind::ExtraBlankLine => if is_blank(line.text) {
            CheckState { last_blank: Some(line.number), ..state }
        } else {
            state
        },
        LintKind::UnorderedKey => if ends_group(line.text) {
            CheckState { keys: Seq::empty(), ..state }
        } else if is_ordered(line.text) {
            CheckState { keys: state.keys.push(key_of(line.text)->0), ..state }
        } else {
            state
        },
        _ => state,
    }
}

/// The warning, if any, with which a check in `state` answers `line`: its
/// finding, under the line's number and the kind of the check.
pub open spec fn verdict(state: CheckState, line: LineView) -> Option<WarningView> {
    match finding(state, line) {
        Some(message) => Some(WarningView { line_number: line.number, kind: state.kind, message }),
        None => None,
    }
}

/// The characters of an optional text.
pub open spec fn text_of(message: Option<Vec<char>>) -> Option<Seq<char>> {
    match message {
        Some(m) => Some(m@),
        None => None,
    }
}

/// The keys that a list holds.
pub open spec fn key_views(keys: Seq<Vec<char>>) -> Seq<Seq<char>> {
    keys.map_values(|k: Vec<char>| k@)
}

fn message(text: &str) -> (m: Option<Vec<char>>)
    ensures
        text_of(m) == Some(text@),
{
    Some(chars_of(text))
}

fn message_about(key: &Vec<char>, tail: &str) -> (m: Option<Vec<char>>)
    ensures
        text_of(m) == Some(about_key(key@, tail@)),
{
    let mut m = chars_of("The ");
    append(&mut m, key);
    let t = chars_of(tail);
    append(&mut m, &t);
    Some(m)
}

fn is_wrapped(value: &Vec<char>) -> (b: bool)
    ensures
        b == is_quoted(value@),
{
    value.len() >= 2 && char_in_class(value[0], CharClass::Quote) && value[value.len() - 1]
        == value[0]
}

/// Whether `a` stands strictly before `b` in the order of the dictionary.
pub fn stands_before(a: &Vec<char>, b: &Vec<char>) -> (r: bool)
    ensures
        r == precedes(a@, b@),
{
    let mut i: usize = 0;
    loop
        invariant
            i <= a.len(),
            precedes(a@, b@) == precedes_from(a@, b@, i as int),
        decreases a.len() - i,
    {
        if i >= b.len() {
            return false;
        }
        if i >= a.len() {
            return true;
        }
        if a[i] != b[i] {
            return (a[i] as u32) < (b[i] as u32);
        }
        i += 1;
    }
}

/// Whether `key` is one of `keys`.
pub fn holds_key(keys: &Vec<Vec<char>>, key: &Vec<char>) -> (r: bool)
    ensures
        r == key_views(keys@).contains(key@),
{
    let mut i: usize = 0;
    while i < keys.len()
        invariant
            i <= keys.len(),
            forall|j: int| 0 <= j < i ==> key_views(keys@)[j] != key@,
        decreases keys.len() - i,
    {
        if same_chars(&keys[i], key) {
            assert(key_views(keys@)[i as int] == key@);
            return true;
        }
        i += 1;
    }
    false
}

/// Looks for a key that was seen before.
pub fn check_duplicated_key(keys: &Vec<Vec<char>>, line: &LineEntry) -> (m: Option<Vec<char>>)
    ensures
        text_of(m) == duplicated_key(key_views(keys@), line@.text),
{
    match line.get_key() {
        Some(key) => if holds_key(keys, &key) {
            message_about(&key, " key is duplicated")
        } else {
            None
        },
        None => None,
    }
}

/// Looks for a last line that is not blank and has no line feed at its end.
pub fn check_ending_blank_line(line: &LineEntry) -> (m: Option<Vec<char>>)
    ensures
        text_of(m) == ending_blank_line(line@),
{
    let n = line.raw_string.len();
    if line.is_last_line() && !line.is_empty() && n > 0 && line.raw_string[n - 1] != '\n' {
        message("No blank line at the end of the file")
    } else {
        None
    }
}

/// Looks for a blank line right behind a blank line.
pub fn check_extra_blank_line(last_blank: Option<usize>, line: &LineEntry) -> (m: Option<Vec<char>>)
    ensures
        text_of(m) == extra_blank_line(
            match last_blank {
                Some(n) => Some(n as nat),
                None => None,
            },
            line@,
        ),
{
    match last_blank {
        Some(n) => if line.is_empty() && line.number > 0 && n == line.number - 1 {
            message("Extra blank line detected")
        } else {
            None
        },
        None => None,
    }
}

/// Looks for a key that holds a character no name holds.
pub fn check_incorrect_delimiter(line: &LineEntry) -> (m: Option<Vec<char>>)
    ensures
        text_of(m) == incorrect_delimiter(line@.text),
{
    match line.get_key() {
        Some(key) => {
            let first = find(&key, CharClass::Name, 0);
            if find(&key, CharClass::Other, first) < key.len() {
                message_about(&key, " key has incorrect delimiter")
            } else {
                None
            }
        },
        None => None,
    }
}

/// Looks for a key without an equal sign.
pub fn check_key_without_value(line: &LineEntry) -> (m: Option<Vec<char>>)
    ensures
        text_of(m) == key_without_value(line@.text),
{
    match line.get_key() {
        Some(key) => if find(&line.raw_string, CharClass::Equals, 0) >= line.raw_string.len() {
            message_about(&key, " key should be with a value or have an equal sign")
        } else {
            None
        },
        None => None,
    }
}

/// Looks for a line that starts with neither a letter nor an underscore.
pub fn check_leading_character(line: &LineEntry) -> (m: Option<Vec<char>>)
    ensures
        text_of(m) == leading_character(line@.text),
{
    if line.is_empty() || line.is_comment() {
        return None;
    }
    let first = line.raw_string[0];
    if char_in_class(first, CharClass::Letter) || first == '_' {
        None
    } else {
        message("Invalid leading character detected")
    }
}

/// Looks for a key that holds a lower-case letter.
pub fn check_lowercase_key(line: &LineEntry) -> (m: Option<Vec<char>>)
    ensures
        text_of(m) == lowercase_key(line@.text),
{
    match line.get_key() {
        Some(key) => if find(&key, CharClass::Lower, 0) < key.len() {
            message_about(&key, " key should be in uppercase")
        } else {
            None
        },
        None => None,
    }
}

/// Looks for a value that holds a quote and is not wrapped in quotes.
pub fn check_quote_character(line: &LineEntry) -> (m: Option<Vec<char>>)
    ensures
        text_of(m) == quote_character(line@.text),
{
    match line.get_value() {
        Some(value) => if !is_wrapped(&value) && find(&value, CharClass::Quote, 0) < value.len() {
            message("The value has quote characters (\', \")")
        } else {
            None
        },
        None => None,
    }
}

/// Looks for a blank next to the equal sign.
pub fn check_space_character(line: &LineEntry) -> (m: Option<Vec<char>>)
    ensures
        text_of(m) == space_character(line@.text),
{
    let text = &line.raw_string;
    let eq = find(text, CharClass::Equals, 0);
    if !line.is_empty() && !line.is_comment() && eq < text.len() && ((eq > 0 && text[eq - 1] == ' ')
        || (text.len() - eq > 1 && text[eq + 1] == ' ')) {
        message("The line has spaces around equal sign")
    } else {
        None
    }
}

/// Looks for a substitution that is opened and not closed.
pub fn check_substitution_key(line: &LineEntry) -> (m: Option<Vec<char>>)
    ensures
        text_of(m) == substitution_key(line@.text),
{
    match (line.get_key(), line.get_value()) {
        (Some(key), Some(value)) => {
            let open = find(&value, CharClass::Open, 0);
            if 0 < open && open < value.len() && value[0] != '\'' && value[open - 1] == '$'
                && find(&value, CharClass::Close, open) >= value.len() {
                message_about(&key, " key is not assigned properly")
            } else {
                None
            }
        },
        _ => None,
    }
}

/// Looks for a blank at the end of the line.
pub fn check_trailing_whitespace(line: &LineEntry) -> (m: Option<Vec<char>>)
    ensures
        text_of(m) == trailing_whitespace(line@.text),
{
    let n = line.raw_string.len();
    if n > 0 && line.raw_string[n - 1] == ' ' {
        message("Trailing whitespace detected")
    } else {
        None
    }
}

/// Finds, among `keys`, the first in the dictionary of those that `key`
/// precedes.
pub fn find_least_above(keys: &Vec<Vec<char>>, key: &Vec<char>) -> (found: Option<usize>)
    ensures
        found is Some == least_above(key_views(keys@), key@, keys.len() as int) is Some,
        found is Some ==> found->0 < keys.len() && keys[found->0 as int]@ == least_above(
            key_views(keys@),
            key@,
            keys.len() as int,
        )->0,
{
    let mut best: Option<usize> = None;
    let mut i: usize = 0;
    while i < keys.len()
        invariant
            i <= keys.len(),
            best is Some == least_above(key_views(keys@), key@, i as int) is Some,
            best is Some ==> best->0 < i && keys[best->0 as int]@ == least_above(
                key_views(keys@),
                key@,
                i as int,
            )->0,
        decreases keys.len() - i,
    {
        assert(key_views(keys@)[i as int] == keys[i as int]@);
        let better = stands_before(key, &keys[i]) && match best {
            Some(b) => stands_before(&keys[i], &keys[b]),
            None => true,
        };
        if better {
            best = Some(i);
        }
        i += 1;
    }
    best
}

/// The key of a line that takes part in the order of keys.
pub fn ordered_key(line: &LineEntry) -> (key: Option<Vec<char>>)
    ensures
        key is Some == is_ordered(line@.text),
        key is Some ==> key->0@ == key_of(line@.text)->0,
{
    if line.is_empty() || line.get_control_comment().is_some() || check_leading_character(
        line,
    ).is_some() {
        None
    } else {
        line.get_key()
    }
}

/// Looks for a key that precedes an earlier key of its group.
pub fn check_unordered_key(keys: &Vec<Vec<char>>, line: &LineEntry) -> (m: Option<Vec<char>>)
    ensures
        text_of(m) == unordered_key(key_views(keys@), line@.text),
{
    match ordered_key(line) {
        Some(key) => match find_least_above(keys, &key) {
            Some(at) => {
                let mut tail = chars_of(" key should go before the ");
                append(&mut tail, &keys[at]);
                let end = chars_of(" key");
                append(&mut tail, &end);
                let mut m = chars_of("The ");
                append(&mut m, &key);
                append(&mut m, &tail);
                Some(m)
            },
            None => None,
        },
        None => None,
    }
}

/// Looks for a value that holds a space and is not wrapped in quotes.
pub fn check_value_without_quotes(line: &LineEntry) -> (m: Option<Vec<char>>)
    ensures
        text_of(m) == value_without_quotes(line@.text),
{
    match line.get_value() {
        Some(value) => if !is_wrapped(&value) && find(&value, CharClass::Space, 0) < value.len() {
            message("This value needs to be surrounded in quotes")
        } else {
            None
        },
        None => None,
    }
}

} // verus!
