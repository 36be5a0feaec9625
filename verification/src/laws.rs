//! Laws of a run, proved of the model that `run` is held to.

use vstd::prelude::*;
use crate::checks::{after_line, after_lines, disabled_after, kept, known_kinds, lint, offer, registry, start, switch, targets, RunView};
use crate::comment::{directive_of, kind_named, CommentView};
use crate::common::{name_of, LineView, LintKind, WarningView};
use crate::rules::{remember, verdict, CheckState};

verus! {

/// The place of a kind in the registry.
pub open spec fn rank(kind: LintKind) -> int {
    match kind {
        LintKind::DuplicatedKey => 0,
        LintKind::EndingBlankLine => 1,
        LintKind::ExtraBlankLine => 2,
        LintKind::IncorrectDelimiter => 3,
        LintKind::KeyWithoutValue => 4,
        LintKind::LeadingCharacter => 5,
        LintKind::LowercaseKey => 6,
        LintKind::QuoteCharacter => 7,
        LintKind::SpaceCharacter => 8,
        LintKind::SubstitutionKey => 9,
        LintKind::TrailingWhitespace => 10,
        LintKind::UnorderedKey => 11,
        LintKind::ValueWithoutQuotes => 12,
    }
}

/// Whether warning `a` comes before warning `b`: on an earlier line, or on
/// the same line from a check that stands earlier in the registry.
pub open spec fn in_order(a: WarningView, b: WarningView) -> bool {
    a.line_number < b.line_number || (a.line_number == b.line_number && rank(a.kind) < rank(
        b.kind,
    ))
}

/// Whether the numbers of the lines rise from each line to the next.
pub open spec fn ascending(lines: Seq<LineView>) -> bool {
    forall|i: int, j: int| 0 <= i < j < lines.len() ==> lines[i].number < lines[j].number
}

/// Whether every warning comes before the ones behind it.
pub open spec fn sorted(warnings: Seq<WarningView>) -> bool {
    forall|a: int, b: int| 0 <= a < b < warnings.len() ==> in_order(warnings[a], warnings[b])
}

/// Whether every warning is on a line before `number`, or on that line from
/// a check whose rank is below `bound`.
pub open spec fn below(warnings: Seq<WarningView>, number: nat, bound: int) -> bool {
    forall|a: int|
        0 <= a < warnings.len() ==> (#[trigger] warnings[a]).line_number < number || (
        warnings[a].line_number == number && rank(warnings[a].kind) < bound)
}

/// Whether the checks stand in the order of the registry.
pub open spec fn ranked(checks: Seq<CheckState>) -> bool {
    forall|i: int, j: int|
        0 <= i < j < checks.len() ==> rank(checks[i].kind) < rank(checks[j].kind)
}

/// The rank behind that of the `n`-th check: a bound for the ranks of the
/// first `n`.
pub open spec fn rank_bound(checks: Seq<CheckState>, n: int) -> int {
    if 0 < n <= checks.len() {
        rank(checks[n - 1].kind) + 1
    } else {
        0
    }
}

/// Each kind stands in the registry at its rank.
pub proof fn lemma_registry_ranks()
    ensures
        registry().len() == 13,
        known_kinds().len() == 13,
        forall|i: int| 0 <= i < 13 ==> rank(#[trigger] registry()[i].kind) == i,
        forall|kind: LintKind| known_kinds()[rank(kind)] == kind,
{
    let kinds = known_kinds();
    assert(kinds.len() == 13);
    assert(kinds[0] == LintKind::DuplicatedKey);
    assert(kinds[1] == LintKind::EndingBlankLine);
    assert(kinds[2] == LintKind::ExtraBlankLine);
    assert(kinds[3] == LintKind::IncorrectDelimiter);
    assert(kinds[4] == LintKind::KeyWithoutValue);
    assert(kinds[5] == LintKind::LeadingCharacter);
    assert(kinds[6] == LintKind::LowercaseKey);
    assert(kinds[7] == LintKind::QuoteCharacter);
    assert(kinds[8] == LintKind::SpaceCharacter);
    assert(kinds[9] == LintKind::SubstitutionKey);
    assert(kinds[10] == LintKind::TrailingWhitespace);
    assert(kinds[11] == LintKind::UnorderedKey);
    assert(kinds[12] == LintKind::ValueWithoutQuotes);
    assert forall|i: int| 0 <= i < 13 implies rank(#[trigger] registry()[i].kind) == i by {
        assert(registry()[i].kind == kinds[i]);
    }
}

/// The checks that are kept stand in the order of the registry, and none of
/// them is of a skipped kind.
pub proof fn lemma_kept_ranked(skipped: Set<LintKind>, n: int)
    requires
        0 <= n <= registry().len(),
    ensures
        ranked(kept(skipped, n)),
        forall|i: int|
            0 <= i < kept(skipped, n).len() ==> rank((#[trigger] kept(skipped, n)[i]).kind) < n
                && !skipped.contains(kept(skipped, n)[i].kind),
    decreases n,
{
    lemma_registry_ranks();
    if n > 0 {
        lemma_kept_ranked(skipped, n - 1);
    }
}

/// Offering a line to the checks leaves the kinds of the checks and what is
/// switched off as they were, and adds warnings in order.
pub proof fn lemma_offer(run: RunView, line: LineView, n: int)
    requires
        0 <= n <= run.checks.len(),
    ensures
        offer(run, line, n).disabled == run.disabled,
        offer(run, line, n).checks.len() == run.checks.len(),
        forall|i: int|
            0 <= i < run.checks.len() ==> (#[trigger] offer(run, line, n).checks[i]).kind
                == run.checks[i].kind,
        ranked(run.checks) && sorted(run.warnings) && below(run.warnings, line.number, 0) ==> sorted(
            offer(run, line, n).warnings,
        ) && below(offer(run, line, n).warnings, line.number, rank_bound(run.checks, n)),
    decreases n,
{
    if n > 0 {
        lemma_offer(run, line, n - 1);
        let before = offer(run, line, n - 1);
        let after = offer(run, line, n);
        let check = before.checks[n - 1];
        assert(check.kind == run.checks[n - 1].kind);
        assert(remember(check, line).kind == check.kind);
        if ranked(run.checks) && sorted(run.warnings) && below(run.warnings, line.number, 0) {
            assert(rank_bound(run.checks, n - 1) <= rank(check.kind)) by {
                if n - 1 > 0 {
                    assert(rank(run.checks[n - 2].kind) < rank(run.checks[n - 1].kind));
                }
            }
            assert(below(after.warnings, line.number, rank_bound(run.checks, n)));
            assert(sorted(after.warnings));
        }
    }
}

/// After any number of lines with rising numbers, the warnings are in
/// order and none is on a line behind the last one read.
pub proof fn lemma_after_lines(run: RunView, lines: Seq<LineView>, n: int)
    requires
        0 <= n <= lines.len(),
        ascending(lines),
        ranked(run.checks),
        run.warnings.len() == 0,
    ensures
        ranked(after_lines(run, lines, n).checks),
        sorted(after_lines(run, lines, n).warnings),
        n == 0 ==> after_lines(run, lines, n).warnings.len() == 0,
        n > 0 ==> below(after_lines(run, lines, n).warnings, lines[n - 1].number + 1, 0),
    decreases n,
{
    if n > 0 {
        lemma_after_lines(run, lines, n - 1);
        let before = after_lines(run, lines, n - 1);
        let line = lines[n - 1];
        let entered = RunView { disabled: disabled_after(before.disabled, line.text), ..before };
        if n > 1 {
            assert(lines[n - 2].number < lines[n - 1].number);
        }
        assert(below(entered.warnings, line.number, 0));
        lemma_offer(entered, line, entered.checks.len() as int);
        let after = after_lines(run, lines, n);
        assert(after == offer(entered, line, entered.checks.len() as int));
        assert(ranked(after.checks));
        assert(below(after.warnings, line.number + 1, 0));
    }
}

/// Every kind is one of the registry.
pub proof fn lemma_every_kind_is_known(kind: LintKind)
    ensures
        known_kinds().contains(kind),
{
    lemma_registry_ranks();
    assert(known_kinds()[rank(kind)] == kind);
}

/// A control comment that writes the name of a kind addresses that kind, and
/// no two kinds share a name.
pub proof fn lemma_name_addresses_kind(kind: LintKind)
    ensures
        kind_named(name_of(kind)) == Some(kind),
{
    reveal_strlit("DuplicatedKey");
    reveal_strlit("EndingBlankLine");
    reveal_strlit("ExtraBlankLine");
    reveal_strlit("IncorrectDelimiter");
    reveal_strlit("KeyWithoutValue");
    reveal_strlit("LeadingCharacter");
    reveal_strlit("LowercaseKey");
    reveal_strlit("QuoteCharacter");
    reveal_strlit("SpaceCharacter");
    reveal_strlit("SubstitutionKey");
    reveal_strlit("TrailingWhitespace");
    reveal_strlit("UnorderedKey");
    reveal_strlit("ValueWithoutQuotes");
    assert("DuplicatedKey"@.len() == 13 && "DuplicatedKey"@[0] == 'D');
    assert("EndingBlankLine"@.len() == 15 && "EndingBlankLine"@[0] == 'E');
    assert("ExtraBlankLine"@.len() == 14 && "ExtraBlankLine"@[0] == 'E');
    assert("IncorrectDelimiter"@.len() == 18 && "IncorrectDelimiter"@[0] == 'I');
    assert("KeyWithoutValue"@.len() == 15 && "KeyWithoutValue"@[0] == 'K');
    assert("LeadingCharacter"@.len() == 16 && "LeadingCharacter"@[0] == 'L');
    assert("LowercaseKey"@.len() == 12 && "LowercaseKey"@[0] == 'L');
    assert("QuoteCharacter"@.len() == 14 && "QuoteCharacter"@[0] == 'Q');
    assert("SpaceCharacter"@.len() == 14 && "SpaceCharacter"@[0] == 'S');
    assert("SubstitutionKey"@.len() == 15 && "SubstitutionKey"@[0] == 'S');
    assert("TrailingWhitespace"@.len() == 18 && "TrailingWhitespace"@[0] == 'T');
    assert("UnorderedKey"@.len() == 12 && "UnorderedKey"@[0] == 'U');
    assert("ValueWithoutQuotes"@.len() == 18 && "ValueWithoutQuotes"@[0] == 'V');
}

/// No lines, no warnings.
pub proof fn lemma_no_lines(skipped: Set<LintKind>)
    ensures
        lint(Seq::empty(), skipped) == Seq::<WarningView>::empty(),
{
    assert(lint(Seq::empty(), skipped) =~= Seq::<WarningView>::empty());
}

/// Where the numbers of the lines rise, the warnings come out by rising line
/// number, and those of one line in the order of the registry.
pub proof fn lemma_warnings_in_order(lines: Seq<LineView>, skipped: Set<LintKind>, a: int, b: int)
    requires
        ascending(lines),
        0 <= a < b < lint(lines, skipped).len(),
    ensures
        in_order(lint(lines, skipped)[a], lint(lines, skipped)[b]),
{
    lemma_registry_ranks();
    lemma_kept_ranked(skipped, registry().len() as int);
    lemma_after_lines(start(skipped), lines, lines.len() as int);
}

/// Where every kind is skipped, no check is kept.
pub proof fn lemma_none_kept(skipped: Set<LintKind>, n: int)
    requires
        forall|kind: LintKind| skipped.contains(kind),
    ensures
        kept(skipped, n).len() == 0,
    decreases n,
{
    if 0 < n <= registry().len() {
        lemma_none_kept(skipped, n - 1);
    }
}

/// A run without checks reports nothing.
pub proof fn lemma_no_checks(run: RunView, lines: Seq<LineView>, n: int)
    requires
        run.checks.len() == 0,
        run.warnings.len() == 0,
    ensures
        after_lines(run, lines, n).checks.len() == 0,
        after_lines(run, lines, n).warnings.len() == 0,
    decreases n,
{
    if 0 < n <= lines.len() {
        lemma_no_checks(run, lines, n - 1);
    }
}

/// With every kind of the registry in the skip list, a run reports nothing,
/// whatever the lines hold.
pub proof fn lemma_all_skipped(lines: Seq<LineView>, skipped: Set<LintKind>)
    requires
        forall|i: int| 0 <= i < known_kinds().len() ==> skipped.contains(#[trigger] known_kinds()[i]),
    ensures
        lint(lines, skipped) == Seq::<WarningView>::empty(),
{
    lemma_registry_ranks();
    assert forall|kind: LintKind| skipped.contains(kind) by {
        assert(known_kinds()[rank(kind)] == kind);
    }
    lemma_none_kept(skipped, registry().len() as int);
    lemma_no_checks(start(skipped), lines, lines.len() as int);
    assert(lint(lines, skipped) =~= Seq::<WarningView>::empty());
}

/// What is switched off after a line depends on what was switched off
/// before it and on its directive alone.
pub proof fn lemma_disabled_after_line(run: RunView, line: LineView)
    ensures
        after_line(run, line).disabled == disabled_after(run.disabled, line.text),
{
    let entered = RunView { disabled: disabled_after(run.disabled, line.text), ..run };
    lemma_offer(entered, line, run.checks.len() as int);
}

/// Lines that hold no directive leave what is switched off as it was.
pub proof fn lemma_plain_lines(run: RunView, lines: Seq<LineView>, n: int)
    requires
        forall|i: int| 0 <= i < lines.len() ==> directive_of(#[trigger] lines[i].text) is None,
    ensures
        after_lines(run, lines, n).disabled == run.disabled,
    decreases n,
{
    if 0 < n <= lines.len() {
        lemma_plain_lines(run, lines, n - 1);
        lemma_disabled_after_line(after_lines(run, lines, n - 1), lines[n - 1]);
    }
}

/// Switching checks off and then on again leaves none of them off and
/// changes no other check; where none of them was off before, everything is
/// as if neither comment had been there.
pub proof fn lemma_off_then_on(disabled: Set<LintKind>, off: CommentView, on: CommentView)
    requires
        off.disables,
        !on.disables,
        targets(off) == targets(on),
    ensures
        switch(switch(disabled, off), on) == disabled.difference(targets(on)),
        disabled.disjoint(targets(on)) ==> switch(switch(disabled, off), on) == disabled,
{
    assert(switch(switch(disabled, off), on) =~= disabled.difference(targets(on)));
    if disabled.disjoint(targets(on)) {
        assert(disabled.difference(targets(on)) =~= disabled);
    }
}

/// In a run, an `off` line, then lines without directives, then an `on` line
/// for the same checks: behind the `on` line none of these checks is off, and
/// the others are off or on as they were before the `off` line.
pub proof fn lemma_off_on_in_run(
    run: RunView,
    off_line: LineView,
    between: Seq<LineView>,
    on_line: LineView,
)
    requires
        directive_of(off_line.text) is Some,
        directive_of(on_line.text) is Some,
        directive_of(off_line.text)->0.disables,
        !directive_of(on_line.text)->0.disables,
        targets(directive_of(off_line.text)->0) == targets(directive_of(on_line.text)->0),
        forall|i: int| 0 <= i < between.len() ==> directive_of(#[trigger] between[i].text) is None,
    ensures
        after_line(
            after_lines(after_line(run, off_line), between, between.len() as int),
            on_line,
        ).disabled == run.disabled.difference(targets(directive_of(on_line.text)->0)),
        run.disabled.disjoint(targets(directive_of(on_line.text)->0)) ==> after_line(
            after_lines(after_line(run, off_line), between, between.len() as int),
            on_line,
        ).disabled == run.disabled,
{
    let first = after_line(run, off_line);
    let middle = after_lines(first, between, between.len() as int);
    lemma_disabled_after_line(run, off_line);
    lemma_plain_lines(first, between, between.len() as int);
    lemma_disabled_after_line(middle, on_line);
    lemma_off_then_on(run.disabled, directive_of(off_line.text)->0, directive_of(on_line.text)->0);
}

/// Obeying the same directive twice is obeying it once.
pub proof fn lemma_directive_twice(disabled: Set<LintKind>, comment: CommentView)
    ensures
        switch(switch(disabled, comment), comment) == switch(disabled, comment),
{
    assert(switch(switch(disabled, comment), comment) =~= switch(disabled, comment));
}

/// In a run, a second line with the same directive right behind the first
/// switches nothing.
pub proof fn lemma_directive_twice_in_run(run: RunView, first: LineView, second: LineView)
    requires
        directive_of(first.text) is Some,
        directive_of(second.text) == directive_of(first.text),
    ensures
        after_line(after_line(run, first), second).disabled == after_line(run, first).disabled,
{
    lemma_disabled_after_line(run, first);
    lemma_disabled_after_line(after_line(run, first), second);
    lemma_directive_twice(run.disabled, directive_of(first.text)->0);
}

/// A warning bears the number of the line that it is about and the kind of
/// the check that found it.
pub proof fn lemma_verdict_names_line(state: CheckState, line: LineView)
    ensures
        verdict(state, line) is Some ==> verdict(state, line)->0.line_number == line.number
            && verdict(state, line)->0.kind == state.kind,
        remember(state, line).kind == state.kind,
{
}

} // verus!
