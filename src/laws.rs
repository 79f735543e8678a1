//! Properties that relate the pipeline's operations across inputs and
//! across calls.

use vstd::prelude::*;

use crate::outside::lower_of;
use crate::pipeline::{build_spec, memory_of, parse_steps, run_steps};
use crate::step::{byte_len, keyword_of, kind_of, step_after, step_output, Keyword, StepModel};

verus! {

/// The command keywords of a token list, in order; the token after a
/// keyword that takes an argument is that argument, not a keyword. Reading
/// stops at the first word that is no keyword.
pub open spec fn command_keywords(toks: Seq<Seq<char>>) -> Seq<Keyword>
    decreases toks.len(),
{
    if toks.len() == 0 {
        Seq::empty()
    } else {
        match keyword_of(lower_of(toks[0])) {
            None => Seq::empty(),
            Some(k) => if !k.takes_argument() {
                seq![k] + command_keywords(toks.skip(1))
            } else if toks.len() < 2 {
                seq![k]
            } else {
                seq![k] + command_keywords(toks.skip(2))
            },
        }
    }
}

proof fn lemma_parse_keeps_order(toks: Seq<Seq<char>>)
    requires
        parse_steps(toks) is Ok,
    ensures
        parse_steps(toks)->Ok_0.map_values(|s: StepModel| kind_of(s)) == command_keywords(toks),
    decreases toks.len(),
{
    if toks.len() > 0 {
        let k = keyword_of(lower_of(toks[0]))->Some_0;
        let rest = if k.takes_argument() {
            toks.skip(2)
        } else {
            toks.skip(1)
        };
        lemma_parse_keeps_order(rest);
        let steps = parse_steps(toks)->Ok_0;
        let tail = parse_steps(rest)->Ok_0;
        assert(steps == seq![steps[0]] + tail);
        assert(kind_of(steps[0]) == k);
        assert(steps.map_values(|s: StepModel| kind_of(s)) =~= seq![k] + tail.map_values(
            |s: StepModel| kind_of(s),
        ));
    } else {
        assert(parse_steps(toks)->Ok_0.map_values(|s: StepModel| kind_of(s)) =~= Seq::empty());
    }
}

/// A pipeline built from tokens has one step per command keyword, in the
/// order the keywords appear among the tokens, each of that keyword's kind.
pub proof fn lemma_build_keeps_keyword_order(toks: Seq<Seq<char>>)
    requires
        build_spec(toks) is Ok,
    ensures
        build_spec(toks)->Ok_0.map_values(|s: StepModel| kind_of(s)) == command_keywords(toks),
{
    lemma_parse_keeps_order(toks);
}

/// A step after it has seen each of `lines` in turn.
pub open spec fn feed_step(s: StepModel, lines: Seq<Seq<char>>) -> StepModel
    decreases lines.len(),
{
    if lines.len() == 0 {
        s
    } else {
        feed_step(step_after(s, lines[0]), lines.skip(1))
    }
}

/// The lines that a `Dedupe` step which has already seen `seen` lets
/// through, in order: each one the first of its value.
pub open spec fn first_sightings(seen: Set<Seq<char>>, lines: Seq<Seq<char>>) -> Seq<Seq<char>>
    decreases lines.len(),
{
    if lines.len() == 0 {
        Seq::empty()
    } else if seen.contains(lines[0]) {
        first_sightings(seen, lines.skip(1))
    } else {
        seq![lines[0]] + first_sightings(seen.insert(lines[0]), lines.skip(1))
    }
}

/// The UTF-8 bytes of all the lines together.
pub open spec fn total_bytes(lines: Seq<Seq<char>>) -> nat
    decreases lines.len(),
{
    if lines.len() == 0 {
        0
    } else {
        byte_len(lines[0]) + total_bytes(lines.skip(1))
    }
}

/// The byte counter of a `Dedupe` step; zero for other steps.
pub open spec fn stored_bytes(s: StepModel) -> nat {
    match s {
        StepModel::Dedupe(_, n) => n,
        _ => 0,
    }
}

/// A `Dedupe` step that has seen `lines` in turn has added to its counter
/// the bytes of exactly those lines it let through (the first of each
/// value); a repeated line adds nothing. Holds while the counter stays
/// within `usize`.
pub proof fn lemma_dedupe_counts_first_sightings(
    seen: Set<Seq<char>>,
    stored: nat,
    lines: Seq<Seq<char>>,
)
    requires
        stored + total_bytes(lines) <= usize::MAX,
    ensures
        feed_step(StepModel::Dedupe(seen, stored), lines) is Dedupe,
        stored_bytes(feed_step(StepModel::Dedupe(seen, stored), lines)) == stored + total_bytes(
            first_sightings(seen, lines),
        ),
    decreases lines.len(),
{
    if lines.len() > 0 {
        let v = lines[0];
        if seen.contains(v) {
            lemma_dedupe_counts_first_sightings(seen, stored, lines.skip(1));
        } else {
            lemma_dedupe_counts_first_sightings(seen.insert(v), stored + byte_len(v), lines.skip(1));
            let fs = first_sightings(seen, lines);
            assert(fs[0] == v);
            assert(fs.skip(1) =~= first_sightings(seen.insert(v), lines.skip(1)));
        }
    }
}

/// The counter of a `Dedupe` step never goes down, whatever lines it sees.
pub proof fn lemma_dedupe_counter_never_drops(
    seen: Set<Seq<char>>,
    stored: nat,
    lines: Seq<Seq<char>>,
)
    requires
        stored <= usize::MAX,
    ensures
        feed_step(StepModel::Dedupe(seen, stored), lines) is Dedupe,
        stored_bytes(feed_step(StepModel::Dedupe(seen, stored), lines)) >= stored,
    decreases lines.len(),
{
    if lines.len() > 0 {
        let next = step_after(StepModel::Dedupe(seen, stored), lines[0]);
        let (s2, n2) = match next {
            StepModel::Dedupe(s2, n2) => (s2, n2),
            _ => (seen, stored),
        };
        lemma_dedupe_counter_never_drops(s2, n2, lines.skip(1));
    }
}

/// Whether every byte counter of the steps fits in a `usize`, as those of
/// a pipeline do.
pub open spec fn counters_fit(steps: Seq<StepModel>) -> bool {
    forall|j: int| 0 <= j < steps.len() ==> #[trigger] stored_bytes(steps[j]) <= usize::MAX
}

/// The bytes that running `v` through the steps adds to their `Dedupe`
/// counters: the length of the running value at each `Dedupe` step it
/// reaches whose set lacks it.
pub open spec fn inserted_bytes(steps: Seq<StepModel>, v: Seq<char>) -> nat
    decreases steps.len(),
{
    if steps.len() == 0 {
        0
    } else {
        let here: nat = match steps[0] {
            StepModel::Dedupe(seen, _) => if seen.contains(v) {
                0
            } else {
                byte_len(v)
            },
            _ => 0,
        };
        match step_output(steps[0], v) {
            None => here,
            Some(next) => here + inserted_bytes(steps.skip(1), next),
        }
    }
}

/// The steps after each of `lines` has run through them in turn.
pub open spec fn run_lines(steps: Seq<StepModel>, lines: Seq<Seq<char>>) -> Seq<StepModel>
    decreases lines.len(),
{
    if lines.len() == 0 {
        steps
    } else {
        run_lines(run_steps(steps, lines[0]).0, lines.skip(1))
    }
}

/// The bytes that running each of `lines` in turn adds to the counters.
pub open spec fn total_inserted(steps: Seq<StepModel>, lines: Seq<Seq<char>>) -> nat
    decreases lines.len(),
{
    if lines.len() == 0 {
        0
    } else {
        inserted_bytes(steps, lines[0]) + total_inserted(
            run_steps(steps, lines[0]).0,
            lines.skip(1),
        )
    }
}

proof fn lemma_memory_of_cons(a: StepModel, rest: Seq<StepModel>)
    ensures
        memory_of(seq![a] + rest) == stored_bytes(a) + memory_of(rest),
    decreases rest.len(),
{
    let all = seq![a] + rest;
    if rest.len() == 0 {
        assert(all.drop_last() =~= Seq::<StepModel>::empty());
        assert(memory_of(all.drop_last()) == 0);
        assert(memory_of(rest) == 0);
        assert(all.last() == a);
    } else {
        assert(all.drop_last() =~= seq![a] + rest.drop_last());
        assert(all.last() == rest.last());
        lemma_memory_of_cons(a, rest.drop_last());
    }
}

proof fn lemma_split_first(steps: Seq<StepModel>)
    requires
        steps.len() > 0,
    ensures
        memory_of(steps) == stored_bytes(steps[0]) + memory_of(steps.skip(1)),
{
    assert(steps =~= seq![steps[0]] + steps.skip(1));
    lemma_memory_of_cons(steps[0], steps.skip(1));
}

/// Running a line through a pipeline adds to the sum of its `Dedupe`
/// counters exactly the bytes of the running values that `Dedupe` steps
/// took in; a line dropped as a repeat at the first `Dedupe` step it
/// reaches adds nothing. Holds while the sum stays within `usize`.
pub proof fn lemma_apply_adds_inserted_bytes(steps: Seq<StepModel>, v: Seq<char>)
    requires
        memory_of(steps) + inserted_bytes(steps, v) <= usize::MAX,
    ensures
        memory_of(run_steps(steps, v).0) == memory_of(steps) + inserted_bytes(steps, v),
    decreases steps.len(),
{
    if steps.len() > 0 {
        let first = step_after(steps[0], v);
        lemma_split_first(steps);
        match step_output(steps[0], v) {
            None => {
                lemma_memory_of_cons(first, steps.skip(1));
            },
            Some(next) => {
                lemma_apply_adds_inserted_bytes(steps.skip(1), next);
                lemma_memory_of_cons(first, run_steps(steps.skip(1), next).0);
            },
        }
    }
}

/// Running a line through a pipeline never lowers the sum of its
/// `Dedupe` counters, and keeps every counter within `usize`.
pub proof fn lemma_apply_never_lowers_memory(steps: Seq<StepModel>, v: Seq<char>)
    requires
        counters_fit(steps),
    ensures
        counters_fit(run_steps(steps, v).0),
        memory_of(run_steps(steps, v).0) >= memory_of(steps),
    decreases steps.len(),
{
    if steps.len() > 0 {
        let first = step_after(steps[0], v);
        let after = run_steps(steps, v).0;
        lemma_split_first(steps);
        assert(stored_bytes(steps[0]) <= usize::MAX);
        assert(counters_fit(steps.skip(1))) by {
            assert forall|j: int| 0 <= j < steps.skip(1).len() implies #[trigger] stored_bytes(
                steps.skip(1)[j],
            ) <= usize::MAX by {
                assert(steps.skip(1)[j] == steps[j + 1]);
            }
        }
        match step_output(steps[0], v) {
            None => {
                lemma_memory_of_cons(first, steps.skip(1));
                assert(after == seq![first] + steps.skip(1));
                assert forall|j: int| 0 <= j < after.len() implies #[trigger] stored_bytes(after[j])
                    <= usize::MAX by {
                    if j > 0 {
                        assert(after[j] == steps.skip(1)[j - 1]);
                    }
                }
            },
            Some(next) => {
                let rest = run_steps(steps.skip(1), next).0;
                lemma_apply_never_lowers_memory(steps.skip(1), next);
                lemma_memory_of_cons(first, rest);
                assert(after == seq![first] + rest);
                assert forall|j: int| 0 <= j < after.len() implies #[trigger] stored_bytes(after[j])
                    <= usize::MAX by {
                    if j > 0 {
                        assert(after[j] == rest[j - 1]);
                    }
                }
            },
        }
    }
}

/// After a run of lines through a pipeline, the sum of its `Dedupe`
/// counters has grown by exactly the bytes that `Dedupe` steps took in
/// along the way. Holds while the sum stays within `usize`.
pub proof fn lemma_lines_add_inserted_bytes(steps: Seq<StepModel>, lines: Seq<Seq<char>>)
    requires
        memory_of(steps) + total_inserted(steps, lines) <= usize::MAX,
    ensures
        memory_of(run_lines(steps, lines)) == memory_of(steps) + total_inserted(steps, lines),
    decreases lines.len(),
{
    if lines.len() > 0 {
        lemma_apply_adds_inserted_bytes(steps, lines[0]);
        lemma_lines_add_inserted_bytes(run_steps(steps, lines[0]).0, lines.skip(1));
    }
}

/// Over any run of lines through a pipeline, the sum of its `Dedupe`
/// counters never goes down.
pub proof fn lemma_lines_never_lower_memory(steps: Seq<StepModel>, lines: Seq<Seq<char>>)
    requires
        counters_fit(steps),
    ensures
        memory_of(run_lines(steps, lines)) >= memory_of(steps),
    decreases lines.len(),
{
    if lines.len() > 0 {
        lemma_apply_never_lowers_memory(steps, lines[0]);
        lemma_lines_never_lower_memory(run_steps(steps, lines[0]).0, lines.skip(1));
    }
}

} // verus!
