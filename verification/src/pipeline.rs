//! The pipeline end to end, as one pure model, and the laws that hold of it.
//!
//! A run is strictly sequential: patterns are compiled, the tree is walked
//! and filtered, the external compiler runs, its output is aggregated; the
//! first failure is terminal and nothing after it contributes. The model
//! takes everything one run observes — the pattern strings, the walked
//! entries, the compiler's exit outcome, the walked output entries — and
//! yields the aggregated blob or the run's one error. The driver that does
//! the walking and spawning stops at the first failing stage, so a later
//! stage's observation never exists on a failed run; the model makes that
//! harmless: an earlier failure decides the result whatever stands in the
//! later arguments.

use crate::aggregate::{aggregate_spec, OutputItem};
use crate::discover::{discover_spec, WalkItem};
use crate::glob::{compile_list, defect_message, matcher_matches, SpecSeg};
use crate::invoke::{invocation_failure, ExitOutcome};
use crate::path::normalize_spec;
use crate::ErrorModel;
use vstd::prelude::*;

verus! {

/// The result of one whole run, as a function of everything it observed.
pub open spec fn pipeline_model(
    patterns: Seq<Seq<char>>,
    items: Seq<WalkItem>,
    outcome: ExitOutcome,
    outputs: Seq<OutputItem>,
) -> Result<Seq<char>, ErrorModel> {
    match compile_list(patterns) {
        Err((p, d)) => Err(ErrorModel::PatternSyntax { pattern: p, message: defect_message(d) }),
        Ok(m) => match discover_spec(items, m) {
            Err(p) => Err(ErrorModel::Discovery { path: p }),
            Ok(_inputs) => match invocation_failure(outcome) {
                Some(msg) => Err(ErrorModel::CompilerInvocation { message: msg }),
                None => aggregate_spec(outputs),
            },
        },
    }
}

/// A pattern list with a syntactically invalid glob fails the run with that
/// pattern's syntax error before anything else matters: whatever the
/// traversal, the compiler and the output walk would have reported, none of
/// it reaches the result.
pub proof fn lemma_pattern_error_preempts(
    patterns: Seq<Seq<char>>,
    items: Seq<WalkItem>,
    outcome: ExitOutcome,
    outputs: Seq<OutputItem>,
)
    requires
        compile_list(patterns) is Err,
    ensures
        pipeline_model(patterns, items, outcome, outputs) matches Err(e) && e is PatternSyntax,
{
}

/// If the external compiler exits non-zero or cannot be spawned, the run
/// ends in a `CompilerInvocationError` carrying the reported message, and no
/// aggregated output is produced — whatever the compiler left in the
/// output directory.
pub proof fn lemma_compiler_failure_yields_no_output(
    patterns: Seq<Seq<char>>,
    items: Seq<WalkItem>,
    outcome: ExitOutcome,
    outputs: Seq<OutputItem>,
)
    requires
        compile_list(patterns) is Ok,
        discover_spec(items, compile_list(patterns)->Ok_0) is Ok,
        invocation_failure(outcome) is Some,
    ensures
        pipeline_model(patterns, items, outcome, outputs) == Err::<Seq<char>, ErrorModel>(
            ErrorModel::CompilerInvocation { message: invocation_failure(outcome)->Some_0 },
        ),
{
}

/// A pattern list that matches zero files is not an error: the compiler is
/// still consulted — the model reads its outcome even for an empty input
/// list — and with a clean exit and nothing generated, the run yields the
/// empty aggregate.
pub proof fn lemma_empty_match_is_not_error(
    patterns: Seq<Seq<char>>,
    items: Seq<WalkItem>,
    outcome: ExitOutcome,
)
    requires
        compile_list(patterns) is Ok,
        discover_spec(items, compile_list(patterns)->Ok_0) == Ok::<Seq<Seq<char>>, Seq<char>>(
            Seq::<Seq<char>>::empty(),
        ),
        outcome matches ExitOutcome::Exited { code, .. } && code == 0,
    ensures
        pipeline_model(patterns, items, outcome, Seq::<OutputItem>::empty()) == Ok::<
            Seq<char>,
            ErrorModel,
        >(Seq::<char>::empty()),
{
}

/// Two walked entries that discovery cannot tell apart: same readability,
/// same file-ness, and paths with the same normalized form.
pub open spec fn walk_items_alike(a: WalkItem, b: WalkItem) -> bool {
    match (a, b) {
        (
            WalkItem::Entry { path: p1, is_file: f1 },
            WalkItem::Entry { path: p2, is_file: f2 },
        ) => f1 == f2 && normalize_spec(p1@) == normalize_spec(p2@),
        (WalkItem::Unreadable { path: p1 }, WalkItem::Unreadable { path: p2 }) => p1@ == p2@,
        _ => false,
    }
}

/// Discovery is a pure function of the normalized candidate paths: two
/// traversals whose entries agree up to path normalization yield the same
/// eligible file list, in the same order. In particular, re-running
/// discovery against an unchanged tree reproduces the list exactly.
pub proof fn lemma_discovery_pure(items1: Seq<WalkItem>, items2: Seq<WalkItem>, m: Seq<Seq<SpecSeg>>)
    requires
        items1.len() == items2.len(),
        forall|i: int| 0 <= i < items1.len() ==> walk_items_alike(#[trigger] items1[i], items2[i]),
    ensures
        discover_spec(items1, m) == discover_spec(items2, m),
    decreases items1.len(),
{
    if items1.len() > 0 {
        assert(walk_items_alike(items1[0], items2[0]));
        assert(forall|i: int|
            0 <= i < items1.skip(1).len() ==> walk_items_alike(
                #[trigger] items1.skip(1)[i],
                items2.skip(1)[i],
            ));
        lemma_discovery_pure(items1.skip(1), items2.skip(1), m);
        match (items1[0], items2[0]) {
            (
                WalkItem::Entry { path: p1, is_file: f1 },
                WalkItem::Entry { path: p2, is_file: f2 },
            ) => {
                crate::glob::lemma_match_normalized(m, p1@);
                crate::glob::lemma_match_normalized(m, p2@);
                assert(matcher_matches(m, p1@) == matcher_matches(m, p2@));
            },
            _ => {},
        }
    }
}

} // verus!
