//! The pipeline: an ordered list of steps built from command tokens, run
//! on each line in turn.

use std::collections::HashSet;
use vstd::prelude::*;

use crate::laws::{
    counters_fit, inserted_bytes, lemma_apply_adds_inserted_bytes,
    lemma_apply_never_lowers_memory, stored_bytes,
};
use crate::outside::{compile_regex, lower_of, pattern_compiles, to_lower};
use crate::step::{
    faithful, keyword_of, opt_view, parse_keyword, step_after, step_output, Keyword, PipelineStep,
    StepModel,
};

verus! {

pub struct Pipeline {
    steps: Vec<PipelineStep>,
}

impl View for Pipeline {
    type V = Seq<StepModel>;

    closed spec fn view(&self) -> Seq<StepModel> {
        models(self.steps@)
    }
}

/// The models of a list of steps.
pub open spec fn models(steps: Seq<PipelineStep>) -> Seq<StepModel> {
    steps.map_values(|s: PipelineStep| s@)
}

/// Whether every step of a list is faithful to its model.
pub open spec fn all_faithful(steps: Seq<PipelineStep>) -> bool {
    forall|j: int| 0 <= j < steps.len() ==> #[trigger] faithful(steps[j])
}

impl Pipeline {
    /// Every regex of the pipeline matches as the default-option regex of
    /// its pattern text, so the steps' models say what they do.
    #[verifier::type_invariant]
    spec fn inv(self) -> bool {
        all_faithful(self.steps@)
    }
}

/// Error message for `filter` without a pattern.
pub open spec fn missing_pattern_msg() -> Seq<char> {
    "Missing regular expression"@
}

/// Error message for a pattern that does not compile.
pub open spec fn invalid_pattern_msg() -> Seq<char> {
    "Invalid regular expression"@
}

/// Error message for `append` without a suffix.
pub open spec fn missing_suffix_msg() -> Seq<char> {
    "Missing suffix"@
}

/// Error message for `prepend` without a prefix.
pub open spec fn missing_prefix_msg() -> Seq<char> {
    "Missing prefix"@
}

/// Error message for a word that is no command keyword.
pub open spec fn invalid_command_msg() -> Seq<char> {
    "Invalid command specified"@
}

/// Error message for an empty list of tokens.
pub open spec fn no_commands_msg() -> Seq<char> {
    "No commands specified"@
}

/// `first` put in front of the steps of a successful parse; an error
/// passes through.
pub open spec fn cons_step(
    first: StepModel,
    rest: Result<Seq<StepModel>, Seq<char>>,
) -> Result<Seq<StepModel>, Seq<char>> {
    match rest {
        Ok(steps) => Ok(seq![first] + steps),
        Err(e) => Err(e),
    }
}

/// The steps that a list of tokens describes, read left to right, or the
/// message of the first error met. Keywords are compared in lower case;
/// `filter`, `append` and `prepend` take the next token as it stands.
pub open spec fn parse_steps(toks: Seq<Seq<char>>) -> Result<Seq<StepModel>, Seq<char>>
    decreases toks.len(),
{
    if toks.len() == 0 {
        Ok(Seq::empty())
    } else {
        match keyword_of(lower_of(toks[0])) {
            None => Err(invalid_command_msg()),
            Some(k) => if k.takes_argument() {
                if toks.len() < 2 {
                    Err(
                        if k == Keyword::Filter {
                            missing_pattern_msg()
                        } else if k == Keyword::Append {
                            missing_suffix_msg()
                        } else {
                            missing_prefix_msg()
                        },
                    )
                } else if k == Keyword::Filter && !pattern_compiles(toks[1]) {
                    Err(invalid_pattern_msg())
                } else {
                    let arg = toks[1];
                    let first = if k == Keyword::Filter {
                        StepModel::Filter(arg)
                    } else if k == Keyword::Append {
                        StepModel::Append(arg)
                    } else {
                        StepModel::Prepend(arg)
                    };
                    cons_step(first, parse_steps(toks.skip(2)))
                }
            } else {
                let first = if k == Keyword::Lower {
                    StepModel::Lower
                } else if k == Keyword::Upper {
                    StepModel::Upper
                } else if k == Keyword::Trim {
                    StepModel::Trim
                } else {
                    StepModel::Dedupe(Set::empty(), 0)
                };
                cons_step(first, parse_steps(toks.skip(1)))
            },
        }
    }
}

/// What building a pipeline from the tokens gives: an empty list is an
/// error, as is any list that does not parse.
pub open spec fn build_spec(toks: Seq<Seq<char>>) -> Result<Seq<StepModel>, Seq<char>> {
    if toks.len() == 0 {
        Err(no_commands_msg())
    } else {
        parse_steps(toks)
    }
}

/// The views of a list of string slices.
pub open spec fn token_views(tokens: Seq<&str>) -> Seq<Seq<char>> {
    tokens.map_values(|t: &str| t@)
}

/// The steps after a line has run through them from the front, and the
/// surviving line, if any. Steps after the one that drops the line are
/// left as they were.
pub open spec fn run_steps(steps: Seq<StepModel>, v: Seq<char>) -> (Seq<StepModel>, Option<Seq<char>>)
    decreases steps.len(),
{
    if steps.len() == 0 {
        (steps, Some(v))
    } else {
        let first = step_after(steps[0], v);
        match step_output(steps[0], v) {
            None => (seq![first] + steps.skip(1), None),
            Some(next) => {
                let (rest, out) = run_steps(steps.skip(1), next);
                (seq![first] + rest, out)
            },
        }
    }
}

/// The sum of the byte counters of the `Dedupe` steps.
pub open spec fn memory_of(steps: Seq<StepModel>) -> nat
    decreases steps.len(),
{
    if steps.len() == 0 {
        0
    } else {
        let last = match steps.last() {
            StepModel::Dedupe(_, stored) => stored,
            _ => 0,
        };
        memory_of(steps.drop_last()) + last
    }
}

/// The smaller of a number and the largest `usize`.
pub open spec fn cap_usize(n: nat) -> nat {
    if n > usize::MAX {
        usize::MAX as nat
    } else {
        n
    }
}

/// The byte counters of a pipeline's steps fit in a `usize`.
pub proof fn lemma_pipeline_counters_fit(p: &Pipeline)
    ensures
        counters_fit(p@),
{
    assert forall|j: int| 0 <= j < p@.len() implies #[trigger] stored_bytes(p@[j])
        <= usize::MAX by {
        assert(p@[j] == p.steps@[j]@);
    }
}

/// The step a keyword describes, where it takes no argument.
fn plain_step(k: Keyword) -> (r: PipelineStep)
    requires
        !k.takes_argument(),
    ensures
        r@ == (if k == Keyword::Lower {
            StepModel::Lower
        } else if k == Keyword::Upper {
            StepModel::Upper
        } else if k == Keyword::Trim {
            StepModel::Trim
        } else {
            StepModel::Dedupe(Set::empty(), 0)
        }),
{
    match k {
        Keyword::Lower => PipelineStep::Lower,
        Keyword::Upper => PipelineStep::Upper,
        Keyword::Trim => PipelineStep::Trim,
        _ => {
            let seen: HashSet<String> = HashSet::new();
            proof {
                assert(seen@.map(|k: String| k@) =~= Set::<Seq<char>>::empty());
            }
            PipelineStep::Dedupe(seen, 0)
        },
    }
}

impl Pipeline {
    /// Builds a pipeline from command tokens, read left to right. Fails on
    /// an empty list, on an unknown keyword, on a missing argument and on a
    /// pattern that does not compile, with the message of the first such
    /// error.
    pub fn build_pipeline(tokens: &[&str]) -> (r: Result<Pipeline, &'static str>)
        ensures
            match r {
                Ok(p) => build_spec(token_views(tokens@)) == Ok::<Seq<StepModel>, Seq<char>>(p@),
                Err(m) => build_spec(token_views(tokens@)) == Err::<Seq<StepModel>, Seq<char>>(m@),
            },
    {
        let ghost toks = token_views(tokens@);
        if tokens.len() == 0 {
            return Err("No commands specified");
        }
        let mut steps: Vec<PipelineStep> = Vec::new();
        let mut i: usize = 0;
        proof {
            assert(toks.skip(0) =~= toks);
            assert(steps@.map_values(|s: PipelineStep| s@) =~= Seq::<StepModel>::empty());
            if let Ok(all) = parse_steps(toks) {
                assert(Seq::<StepModel>::empty() + all =~= all);
            }
        }
        while i < tokens.len()
            invariant
                toks == token_views(tokens@),
                i <= tokens.len(),
                all_faithful(steps@),
                parse_steps(toks) == cons_all(
                    steps@.map_values(|s: PipelineStep| s@),
                    parse_steps(toks.skip(i as int)),
                ),
            decreases tokens.len() - i,
        {
            let ghost rest = toks.skip(i as int);
            proof {
                assert(rest[0] == tokens@[i as int]@);
                assert(rest.skip(1) =~= toks.skip(i + 1));
                if rest.len() >= 2 {
                    assert(rest[1] == tokens@[i + 1]@);
                    assert(rest.skip(2) =~= toks.skip(i + 2));
                }
            }
            let folded = to_lower(tokens[i]);
            let kw = parse_keyword(folded.as_str());
            let step = match kw {
                None => {
                    return Err("Invalid command specified");
                },
                Some(k) => {
                    if k == Keyword::Filter || k == Keyword::Append || k == Keyword::Prepend {
                        if i + 1 >= tokens.len() {
                            if k == Keyword::Filter {
                                return Err("Missing regular expression");
                            } else if k == Keyword::Append {
                                return Err("Missing suffix");
                            } else {
                                return Err("Missing prefix");
                            }
                        }
                        let arg = tokens[i + 1];
                        i = i + 2;
                        if k == Keyword::Filter {
                            match compile_regex(arg) {
                                Ok(re) => PipelineStep::Filter(re),
                                Err(_) => {
                                    return Err("Invalid regular expression");
                                },
                            }
                        } else if k == Keyword::Append {
                            PipelineStep::Append(arg.to_owned())
                        } else {
                            PipelineStep::Prepend(arg.to_owned())
                        }
                    } else {
                        i = i + 1;
                        plain_step(k)
                    }
                },
            };
            let ghost before = steps@.map_values(|s: PipelineStep| s@);
            proof {
                assert(faithful(step));
            }
            steps.push(step);
            proof {
                assert(steps@.map_values(|s: PipelineStep| s@) =~= before.push(step@));
                assert(before.push(step@) =~= before + seq![step@]);
                lemma_cons_all_push(before, step@, parse_steps(toks.skip(i as int)));
            }
        }
        proof {
            assert(toks.skip(i as int).len() == 0);
        }
        let p = Pipeline { steps };
        proof {
            assert(p@ =~= steps@.map_values(|s: PipelineStep| s@));
        }
        Ok(p)
    }
}

impl Pipeline {
    /// Runs a line through the steps in order. Returns the surviving line,
    /// or `None` where a `filter` or `dedupe` step drops it; steps after
    /// that one do not run, and what earlier steps recorded stays.
    pub fn apply(&mut self, line: &str) -> (r: Option<String>)
        ensures
            final(self)@ == run_steps(old(self)@, line@).0,
            opt_view(r) == run_steps(old(self)@, line@).1,
            memory_of(final(self)@) >= memory_of(old(self)@),
            memory_of(old(self)@) + inserted_bytes(old(self)@, line@) <= usize::MAX
                ==> memory_of(final(self)@) == memory_of(old(self)@) + inserted_bytes(
                old(self)@,
                line@,
            ),
    {
        proof {
            use_type_invariant(&*self);
            lemma_pipeline_counters_fit(&*self);
            lemma_apply_never_lowers_memory(self@, line@);
            if memory_of(self@) + inserted_bytes(self@, line@) <= usize::MAX {
                lemma_apply_adds_inserted_bytes(self@, line@);
            }
        }
        let ghost orig = self@;
        let mut steps: Vec<PipelineStep> = Vec::new();
        std::mem::swap(&mut steps, &mut self.steps);
        let mut output = line.to_owned();
        let mut i: usize = 0;
        proof {
            assert(orig.skip(0) =~= orig);
            assert(models(steps@).take(0) + run_steps(orig, line@).0 =~= run_steps(orig, line@).0);
        }
        while i < steps.len()
            invariant
                orig == old(self)@,
                memory_of(run_steps(orig, line@).0) >= memory_of(orig),
                memory_of(orig) + inserted_bytes(orig, line@) <= usize::MAX ==> memory_of(
                    run_steps(orig, line@).0,
                ) == memory_of(orig) + inserted_bytes(orig, line@),
                all_faithful(steps@),
                models(steps@).len() == orig.len(),
                i <= orig.len(),
                forall|j: int| i <= j < orig.len() ==> models(steps@)[j] == orig[j],
                run_steps(orig, line@).0 == models(steps@).take(i as int) + run_steps(
                    orig.skip(i as int),
                    output@,
                ).0,
                run_steps(orig, line@).1 == run_steps(orig.skip(i as int), output@).1,
            decreases orig.len() - i,
        {
            let ghost rest = orig.skip(i as int);
            let ghost before = steps@;
            proof {
                assert(rest[0] == orig[i as int]);
                assert(rest.skip(1) =~= orig.skip(i + 1));
                assert(faithful(before[i as int]));
            }
            let ghost out_v = output@;
            let mut step = PipelineStep::Trim;
            steps.set_and_swap(i, &mut step);
            let res = step.run(output);
            let ghost updated = step;
            steps.set_and_swap(i, &mut step);
            proof {
                assert(steps@ =~= before.update(i as int, updated));
                assert(models(steps@) =~= models(before).update(i as int, updated@));
                assert(models(steps@).take(i as int) =~= models(before).take(i as int));
                assert(updated@ == step_after(rest[0], out_v));
            }
            match res {
                None => {
                    proof {
                        assert(step_output(rest[0], out_v) is None);
                        assert(run_steps(rest, out_v).0 == seq![updated@] + rest.skip(1));
                        assert(models(steps@) =~= models(steps@).take(i as int) + run_steps(
                            rest,
                            out_v,
                        ).0);
                    }
                    self.steps = steps;
                    return None;
                },
                Some(next) => {
                    proof {
                        assert(models(steps@).take(i + 1) =~= models(steps@).take(i as int)
                            + seq![updated@]);
                        assert(models(steps@).take(i as int) + (seq![updated@] + run_steps(
                            orig.skip(i + 1),
                            next@,
                        ).0) =~= models(steps@).take(i + 1) + run_steps(
                            orig.skip(i + 1),
                            next@,
                        ).0);
                    }
                    output = next;
                },
            }
            i = i + 1;
        }
        proof {
            assert(orig.skip(i as int) =~= Seq::<StepModel>::empty());
            assert(models(steps@).take(i as int) + Seq::<StepModel>::empty() =~= models(steps@));
        }
        self.steps = steps;
        Some(output)
    }

    /// The bytes held by all `Dedupe` steps together, held at the largest
    /// `usize`.
    pub fn get_memory(&self) -> (r: usize)
        ensures
            r as nat == cap_usize(memory_of(self@)),
    {
        let mut memory: usize = 0;
        let mut i: usize = 0;
        proof {
            assert(self@.take(0) =~= Seq::<StepModel>::empty());
        }
        while i < self.steps.len()
            invariant
                i <= self@.len(),
                memory as nat == cap_usize(memory_of(self@.take(i as int))),
            decreases self@.len() - i,
        {
            proof {
                assert(self@.take(i + 1).drop_last() =~= self@.take(i as int));
            }
            let bytes: usize = match &self.steps[i] {
                PipelineStep::Dedupe(_, stored) => *stored,
                _ => 0,
            };
            memory = memory.saturating_add(bytes);
            i = i + 1;
        }
        proof {
            assert(self@.take(i as int) =~= self@);
        }
        memory
    }

    /// The steps, in the order they run.
    pub fn steps(&self) -> (r: &Vec<PipelineStep>)
        ensures
            r@.map_values(|s: PipelineStep| s@) == self@,
    {
        &self.steps
    }
}

/// `done` put in front of the steps of a successful parse; an error
/// passes through.
pub open spec fn cons_all(
    done: Seq<StepModel>,
    rest: Result<Seq<StepModel>, Seq<char>>,
) -> Result<Seq<StepModel>, Seq<char>> {
    match rest {
        Ok(steps) => Ok(done + steps),
        Err(e) => Err(e),
    }
}

proof fn lemma_cons_all_push(
    done: Seq<StepModel>,
    s: StepModel,
    rest: Result<Seq<StepModel>, Seq<char>>,
)
    ensures
        cons_all(done.push(s), rest) == cons_all(done, cons_step(s, rest)),
{
    if let Ok(steps) = rest {
        assert(done.push(s) + steps =~= done + (seq![s] + steps));
    }
}

} // verus!
