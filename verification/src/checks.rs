//! The checks, their registry, and the loop that applies them to the lines
//! of a file.

use vstd::prelude::*;
use crate::comment::{directive_of, Comment, CommentView};
use crate::laws::lemma_all_skipped;
use crate::common::{is_comment, line_views, warning_views, LineEntry, LineView, LintKind, Warning, WarningView};
use crate::rules::{check_duplicated_key, check_ending_blank_line, check_extra_blank_line, check_incorrect_delimiter, check_key_without_value, check_leading_character, check_lowercase_key, check_quote_character, check_space_character, check_substitution_key, check_trailing_whitespace, check_unordered_key, check_value_without_quotes, fresh, ordered_key, key_views, remember, skips_comments, verdict, CheckState};

verus! {

/// The view of an optional warning.
pub open spec fn warning_of(w: Option<Warning>) -> Option<WarningView> {
    match w {
        Some(w) => Some(w@),
        None => None,
    }
}

/// A check: it is shown the lines of a file one by one and answers each
/// with at most one warning.
pub trait Check {
    /// What the check is and what it remembers.
    spec fn state(&self) -> CheckState;

    /// Shows the check a line. What it answers and what it remembers
    /// afterwards depend on its state and on the line alone.
    fn run(&mut self, line: &LineEntry) -> (w: Option<Warning>)
        ensures
            final(self).state() == remember(old(self).state(), line@),
            warning_of(w) == verdict(old(self).state(), line@),
    ;

    /// The kind of the check.
    fn name(&self) -> (kind: LintKind)
        ensures
            kind == self.state().kind,
    ;

    /// Whether the check is left out on comment lines.
    fn skip_comments(&self) -> (b: bool)
        ensures
            b == skips_comments(self.state().kind),
    ;
}

/// A check of the registry.
#[derive(Debug)]
pub struct Checker {
    kind: LintKind,
    keys: Vec<Vec<char>>,
    last_blank: Option<usize>,
}

impl View for Checker {
    type V = CheckState;

    closed spec fn view(&self) -> CheckState {
        CheckState {
            kind: self.kind,
            keys: key_views(self.keys@),
            last_blank: match self.last_blank {
                Some(n) => Some(n as nat),
                None => None,
            },
        }
    }
}

impl Checker {
    /// A check of the given kind that has seen no line.
    pub fn new(kind: LintKind) -> (c: Checker)
        ensures
            c@ == fresh(kind),
    {
        let c = Checker { kind, keys: Vec::new(), last_blank: None };
        assert(c@.keys =~= Seq::empty());
        c
    }
}

impl Check for Checker {
    open spec fn state(&self) -> CheckState {
        self@
    }

    fn run(&mut self, line: &LineEntry) -> (w: Option<Warning>) {
        let found = match self.kind {
            LintKind::DuplicatedKey => check_duplicated_key(&self.keys, line),
            LintKind::EndingBlankLine => check_ending_blank_line(line),
            LintKind::ExtraBlankLine => check_extra_blank_line(self.last_blank, line),
            LintKind::IncorrectDelimiter => check_incorrect_delimiter(line),
            LintKind::KeyWithoutValue => check_key_without_value(line),
            LintKind::LeadingCharacter => check_leading_character(line),
            LintKind::LowercaseKey => check_lowercase_key(line),
            LintKind::QuoteCharacter => check_quote_character(line),
            LintKind::SpaceCharacter => check_space_character(line),
            LintKind::SubstitutionKey => check_substitution_key(line),
            LintKind::TrailingWhitespace => check_trailing_whitespace(line),
            LintKind::UnorderedKey => check_unordered_key(&self.keys, line),
            LintKind::ValueWithoutQuotes => check_value_without_quotes(line),
        };
        match self.kind {
            LintKind::DuplicatedKey => {
                if let Some(key) = line.get_key() {
                    self.keys.push(key);
                    assert(key_views(self.keys@) =~= key_views(old(self).keys@).push(key@));
                }
            },
            LintKind::ExtraBlankLine => {
                if line.is_empty() {
                    self.last_blank = Some(line.number);
                }
            },
            LintKind::UnorderedKey => {
                if line.is_empty() || line.get_control_comment().is_some() {
                    self.keys = Vec::new();
                    assert(key_views(self.keys@) =~= Seq::empty());
                } else if let Some(key) = ordered_key(line) {
                    self.keys.push(key);
                    assert(key_views(self.keys@) =~= key_views(old(self).keys@).push(key@));
                }
            },
            _ => {},
        }
        match found {
            Some(message) => Some(Warning { line_number: line.number, kind: self.kind, message }),
            None => None,
        }
    }

    fn name(&self) -> (kind: LintKind) {
        self.kind
    }

    fn skip_comments(&self) -> (b: bool) {
        match self.kind {
            LintKind::EndingBlankLine => false,
            LintKind::ExtraBlankLine => false,
            LintKind::TrailingWhitespace => false,
            LintKind::UnorderedKey => false,
            _ => true,
        }
    }
}

/// The kinds of check, in the order of the registry.
pub open spec fn known_kinds() -> Seq<LintKind> {
    seq![
        LintKind::DuplicatedKey,
        LintKind::EndingBlankLine,
        LintKind::ExtraBlankLine,
        LintKind::IncorrectDelimiter,
        LintKind::KeyWithoutValue,
        LintKind::LeadingCharacter,
        LintKind::LowercaseKey,
        LintKind::QuoteCharacter,
        LintKind::SpaceCharacter,
        LintKind::SubstitutionKey,
        LintKind::TrailingWhitespace,
        LintKind::UnorderedKey,
        LintKind::ValueWithoutQuotes,
    ]
}

/// The states of a list of checks.
pub open spec fn check_states(checks: Seq<Checker>) -> Seq<CheckState> {
    checks.map_values(|c: Checker| c@)
}

/// The kinds of a list of checks.
pub open spec fn kinds_of(checks: Seq<CheckState>) -> Seq<LintKind> {
    checks.map_values(|c: CheckState| c.kind)
}

/// The registry at the start of a run: one fresh check of each kind.
pub open spec fn registry() -> Seq<CheckState> {
    known_kinds().map_values(|kind: LintKind| fresh(kind))
}

/// One fresh check of every kind, in the order of the registry.
pub fn checklist() -> (checks: Vec<Checker>)
    ensures
        check_states(checks@) == registry(),
{
    let mut checks: Vec<Checker> = Vec::new();
    checks.push(Checker::new(LintKind::DuplicatedKey));
    checks.push(Checker::new(LintKind::EndingBlankLine));
    checks.push(Checker::new(LintKind::ExtraBlankLine));
    checks.push(Checker::new(LintKind::IncorrectDelimiter));
    checks.push(Checker::new(LintKind::KeyWithoutValue));
    checks.push(Checker::new(LintKind::LeadingCharacter));
    checks.push(Checker::new(LintKind::LowercaseKey));
    checks.push(Checker::new(LintKind::QuoteCharacter));
    checks.push(Checker::new(LintKind::SpaceCharacter));
    checks.push(Checker::new(LintKind::SubstitutionKey));
    checks.push(Checker::new(LintKind::TrailingWhitespace));
    checks.push(Checker::new(LintKind::UnorderedKey));
    checks.push(Checker::new(LintKind::ValueWithoutQuotes));
    assert(check_states(checks@) =~= registry());
    checks
}

/// The kinds of all the checks of the registry, in its order.
pub fn available_check_names() -> (names: Vec<LintKind>)
    ensures
        names@ == known_kinds(),
{
    let checks = checklist();
    let mut names: Vec<LintKind> = Vec::new();
    let mut i: usize = 0;
    while i < checks.len()
        invariant
            i <= checks.len(),
            names@ == kinds_of(check_states(checks@)).take(i as int),
        decreases checks.len() - i,
    {
        names.push(checks[i].name());
        i += 1;
        assert(names@ =~= kinds_of(check_states(checks@)).take(i as int));
    }
    assert(names@ =~= kinds_of(registry()));
    assert(kinds_of(registry()) =~= known_kinds());
    names
}

/// The run as the contracts see it.
pub struct RunView {
    /// The kinds that control comments have switched off.
    pub disabled: Set<LintKind>,
    /// The checks that take part, in the order of the registry.
    pub checks: Seq<CheckState>,
    /// The warnings reported so far.
    pub warnings: Seq<WarningView>,
}

/// Of the first `n` checks of the registry, those whose kind is not skipped.
pub open spec fn kept(skipped: Set<LintKind>, n: int) -> Seq<CheckState>
    decreases n,
{
    if n <= 0 || n > registry().len() {
        Seq::empty()
    } else if skipped.contains(registry()[n - 1].kind) {
        kept(skipped, n - 1)
    } else {
        kept(skipped, n - 1).push(registry()[n - 1])
    }
}

/// The run before its first line: nothing switched off, the checks that are
/// not skipped, no warning.
pub open spec fn start(skipped: Set<LintKind>) -> RunView {
    RunView {
        disabled: Set::empty(),
        checks: kept(skipped, registry().len() as int),
        warnings: Seq::empty(),
    }
}

/// The kinds that a control comment speaks of: those that it names, or all
/// the kinds of the registry where it names none.
pub open spec fn targets(comment: CommentView) -> Set<LintKind> {
    if comment.checks.len() == 0 {
        known_kinds().to_set()
    } else {
        comment.checks.to_set()
    }
}

/// The kinds switched off once a control comment has been read: `off` adds
/// its targets, `on` takes every one of them out.
pub open spec fn switch(disabled: Set<LintKind>, comment: CommentView) -> Set<LintKind> {
    if comment.disables {
        disabled.union(targets(comment))
    } else {
        disabled.difference(targets(comment))
    }
}

/// The kinds switched off once a line has been read. A line that holds no
/// directive changes nothing.
pub open spec fn disabled_after(disabled: Set<LintKind>, text: Seq<char>) -> Set<LintKind> {
    match directive_of(text) {
        Some(comment) => switch(disabled, comment),
        None => disabled,
    }
}

/// Whether a check of `kind` is shown the line: not where the line is a
/// comment and the check skips comments, and not where the kind is switched
/// off.
pub open spec fn applies(kind: LintKind, disabled: Set<LintKind>, text: Seq<char>) -> bool {
    !(is_comment(text) && skips_comments(kind)) && !disabled.contains(kind)
}

/// The run once `line` has been offered to the first `n` of its checks.
pub open spec fn offer(run: RunView, line: LineView, n: int) -> RunView
    decreases n,
{
    if n <= 0 || n > run.checks.len() {
        run
    } else {
        let before = offer(run, line, n - 1);
        let check = before.checks[n - 1];
        if applies(check.kind, before.disabled, line.text) {
            RunView {
                disabled: before.disabled,
                checks: before.checks.update(n - 1, remember(check, line)),
                warnings: match verdict(check, line) {
                    Some(w) => before.warnings.push(w),
                    None => before.warnings,
                },
            }
        } else {
            before
        }
    }
}

/// The run after one more line: its directive, if it holds one, is obeyed
/// first, then the line is offered to every check in turn.
pub open spec fn after_line(run: RunView, line: LineView) -> RunView {
    offer(
        RunView { disabled: disabled_after(run.disabled, line.text), ..run },
        line,
        run.checks.len() as int,
    )
}

/// The run after the first `n` of `lines`.
pub open spec fn after_lines(run: RunView, lines: Seq<LineView>, n: int) -> RunView
    decreases n,
{
    if n <= 0 || n > lines.len() {
        run
    } else {
        after_line(after_lines(run, lines, n - 1), lines[n - 1])
    }
}

/// The warnings of a whole run, in the order in which they are found: line
/// by line, and for each line check by check in the order of the registry.
pub open spec fn lint(lines: Seq<LineView>, skipped: Set<LintKind>) -> Seq<WarningView> {
    after_lines(start(skipped), lines, lines.len() as int).warnings
}

/// Whether `kind` is one of `list`.
pub fn contains_kind(list: &[LintKind], kind: LintKind) -> (b: bool)
    ensures
        b == list@.contains(kind),
{
    let mut i: usize = 0;
    while i < list.len()
        invariant
            i <= list.len(),
            forall|j: int| 0 <= j < i ==> list@[j] != kind,
        decreases list.len() - i,
    {
        if list[i] == kind {
            return true;
        }
        i += 1;
    }
    false
}

/// Takes out of a fresh registry every check whose kind is skipped.
pub fn retain_unskipped(checks: &mut Vec<Checker>, skip_checks: &[LintKind])
    requires
        check_states(old(checks)@) == registry(),
    ensures
        check_states(final(checks)@) == kept(skip_checks@.to_set(), registry().len() as int),
{
    let ghost skipped = skip_checks@.to_set();
    let mut at: usize = 0;
    let mut seen: usize = 0;
    assert(check_states(checks@).len() == checks@.len());
    assert(check_states(checks@) =~= kept(skipped, 0) + registry().subrange(
        0,
        registry().len() as int,
    ));
    while at < checks.len()
        invariant
            seen <= registry().len(),
            at == kept(skipped, seen as int).len(),
            skipped == skip_checks@.to_set(),
            check_states(checks@) == kept(skipped, seen as int) + registry().subrange(
                seen as int,
                registry().len() as int,
            ),
        decreases checks.len() - at,
    {
        let ghost states = check_states(checks@);
        assert(states.len() == checks@.len());
        assert(seen < registry().len());
        assert(states[at as int] == registry()[seen as int]);
        assert(states[at as int] == checks@[at as int]@);
        assert(skipped.contains(checks@[at as int]@.kind) == skip_checks@.contains(
            checks@[at as int]@.kind,
        ));
        if contains_kind(skip_checks, checks[at].name()) {
            checks.remove(at);
            seen += 1;
            assert(kept(skipped, seen as int) == kept(skipped, seen - 1));
            assert(check_states(checks@) =~= states.remove(at as int));
            assert(check_states(checks@) =~= kept(skipped, seen as int) + registry().subrange(
                seen as int,
                registry().len() as int,
            ));
        } else {
            at += 1;
            seen += 1;
            assert(check_states(checks@) =~= kept(skipped, seen as int) + registry().subrange(
                seen as int,
                registry().len() as int,
            ));
        }
    }
    assert(check_states(checks@).len() == checks@.len());
    assert(seen == registry().len());
    assert(check_states(checks@) =~= kept(skipped, seen as int));
}

/// Switches the `targets` off, or on.
pub fn switch_to(disabled: &mut Vec<LintKind>, disables: bool, targets: &Vec<LintKind>)
    ensures
        final(disabled)@.to_set() == if disables {
            old(disabled)@.to_set().union(targets@.to_set())
        } else {
            old(disabled)@.to_set().difference(targets@.to_set())
        },
{
    if disables {
        let mut i: usize = 0;
        while i < targets.len()
            invariant
                i <= targets.len(),
                forall|k: LintKind|
                    disabled@.contains(k) <==> old(disabled)@.contains(k) || targets@.take(
                        i as int,
                    ).contains(k),
            decreases targets.len() - i,
        {
            let ghost earlier = disabled@;
            disabled.push(targets[i]);
            i += 1;
            assert(targets@.take(i as int) =~= targets@.take(i - 1).push(targets@[i - 1]));
            assert forall|k: LintKind|
                disabled@.contains(k) <==> old(disabled)@.contains(k) || targets@.take(
                    i as int,
                ).contains(k) by {
                vstd::seq_lib::lemma_seq_contains_after_push(earlier, targets@[i - 1], k);
                vstd::seq_lib::lemma_seq_contains_after_push(
                    targets@.take(i - 1),
                    targets@[i - 1],
                    k,
                );
            }
        }
        assert(targets@.take(i as int) =~= targets@);
        assert(disabled@.to_set() =~= old(disabled)@.to_set().union(targets@.to_set()));
    } else {
        let mut left: Vec<LintKind> = Vec::new();
        let mut i: usize = 0;
        while i < disabled.len()
            invariant
                i <= disabled.len(),
                disabled@ == old(disabled)@,
                forall|k: LintKind|
                    left@.contains(k) <==> disabled@.take(i as int).contains(k)
                        && !targets@.contains(k),
            decreases disabled.len() - i,
        {
            let kind = disabled[i];
            let ghost earlier = left@;
            if !contains_kind(targets.as_slice(), kind) {
                left.push(kind);
            }
            i += 1;
            assert(disabled@.take(i as int) =~= disabled@.take(i - 1).push(disabled@[i - 1]));
            assert forall|k: LintKind|
                left@.contains(k) <==> disabled@.take(i as int).contains(k) && !targets@.contains(
                    k,
                ) by {
                vstd::seq_lib::lemma_seq_contains_after_push(earlier, kind, k);
                vstd::seq_lib::lemma_seq_contains_after_push(disabled@.take(i - 1), kind, k);
            }
        }
        assert(disabled@.take(i as int) =~= disabled@);
        *disabled = left;
        assert(disabled@.to_set() =~= old(disabled)@.to_set().difference(targets@.to_set()));
    }
}

/// Obeys a control comment: `off` switches its targets off, `on` switches
/// them on again, however often they were switched off; a comment that
/// names no check speaks of them all.
pub fn obey(disabled: &mut Vec<LintKind>, comment: &Comment)
    ensures
        final(disabled)@.to_set() == switch(old(disabled)@.to_set(), comment@),
{
    if comment.targets().len() == 0 {
        let all = available_check_names();
        switch_to(disabled, comment.is_disabled(), &all);
    } else {
        switch_to(disabled, comment.is_disabled(), comment.targets());
    }
}

/// Runs the checks over the lines of one file. The checks whose kind is in
/// `skip_checks` take no part; control comments switch the others off and
/// on from their own line onward.
pub fn run(lines: &[LineEntry], skip_checks: &[LintKind]) -> (warnings: Vec<Warning>)
    ensures
        warning_views(warnings@) == lint(line_views(lines@), skip_checks@.to_set()),
        lines@.len() == 0 ==> warnings@.len() == 0,
        (forall|i: int|
            0 <= i < known_kinds().len() ==> skip_checks@.contains(#[trigger] known_kinds()[i]))
            ==> warnings@.len() == 0,
{
    proof {
        if forall|i: int|
            0 <= i < known_kinds().len() ==> skip_checks@.contains(#[trigger] known_kinds()[i]) {
            lemma_all_skipped(line_views(lines@), skip_checks@.to_set());
        }
    }
    let mut checks = checklist();
    retain_unskipped(&mut checks, skip_checks);
    let mut disabled: Vec<LintKind> = Vec::new();
    let mut warnings: Vec<Warning> = Vec::new();
    let ghost first = start(skip_checks@.to_set());
    let ghost all = line_views(lines@);
    assert(disabled@.to_set() =~= first.disabled);
    assert(warning_views(warnings@) =~= first.warnings);
    let mut i: usize = 0;
    while i < lines.len()
        invariant
            i <= lines.len(),
            all == line_views(lines@),
            disabled@.to_set() == after_lines(first, all, i as int).disabled,
            check_states(checks@) == after_lines(first, all, i as int).checks,
            warning_views(warnings@) == after_lines(first, all, i as int).warnings,
        decreases lines.len() - i,
    {
        let line = &lines[i];
        let ghost reached = after_lines(first, all, i as int);
        assert(all[i as int] == line@);
        if let Some(comment) = line.get_control_comment() {
            obey(&mut disabled, &comment);
        }
        let ghost entered = RunView { disabled: disabled_after(reached.disabled, line@.text), ..reached };
        assert(check_states(checks@).len() == checks@.len());
        let mut j: usize = 0;
        while j < checks.len()
            invariant
                j <= checks.len(),
                checks.len() == entered.checks.len(),
                disabled@.to_set() == offer(entered, line@, j as int).disabled,
                check_states(checks@) == offer(entered, line@, j as int).checks,
                warning_views(warnings@) == offer(entered, line@, j as int).warnings,
            decreases checks.len() - j,
        {
            let ghost before = offer(entered, line@, j as int);
            let ghost earlier = checks@;
            let ghost reported = warnings@;
            assert(check_states(checks@)[j as int] == checks@[j as int]@);
            let shown = !(line.is_comment() && checks[j].skip_comments()) && !contains_kind(
                disabled.as_slice(),
                checks[j].name(),
            );
            assert(shown == applies(before.checks[j as int].kind, before.disabled, line@.text));
            if shown {
                if let Some(warning) = checks[j].run(line) {
                    warnings.push(warning);
                    assert(warning_views(warnings@) =~= warning_views(reported).push(warning@));
                }
                assert(check_states(checks@) =~= check_states(earlier).update(
                    j as int,
                    remember(before.checks[j as int], line@),
                ));
            }
            j += 1;
        }
        i += 1;
    }
    warnings
}

} // verus!
