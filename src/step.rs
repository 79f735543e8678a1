//! One transformation step: its runtime form, its mathematical model, and
//! what it does to a single running value.

use std::collections::HashSet;
use vstd::prelude::*;
use vstd::utf8::encode_utf8;

use crate::outside::{
    lower_of, pattern_matches, regex_is_match, regex_matches, regex_source, set_contains, set_insert,
    string_set_view, to_lower, to_upper, trim_ends, trim_of, upper_of,
};

verus! {

/// A step of a pipeline. Only `Dedupe` carries state that changes: the
/// values it has let through and the number of bytes they take up.
#[derive(Debug)]
pub enum PipelineStep {
    Filter(regex::Regex),
    Lower,
    Upper,
    Trim,
    Dedupe(HashSet<String>, usize),
    Append(String),
    Prepend(String),
}

/// The mathematical model of a step: patterns and texts as character
/// sequences, a seen-set as a set of them, a byte counter as a number.
pub enum StepModel {
    Filter(Seq<char>),
    Lower,
    Upper,
    Trim,
    Dedupe(Set<Seq<char>>, nat),
    Append(Seq<char>),
    Prepend(Seq<char>),
}

impl View for PipelineStep {
    type V = StepModel;

    open spec fn view(&self) -> StepModel {
        match self {
            PipelineStep::Filter(re) => StepModel::Filter(regex_source(*re)),
            PipelineStep::Lower => StepModel::Lower,
            PipelineStep::Upper => StepModel::Upper,
            PipelineStep::Trim => StepModel::Trim,
            PipelineStep::Dedupe(seen, stored) => StepModel::Dedupe(
                string_set_view(*seen),
                *stored as nat,
            ),
            PipelineStep::Append(suffix) => StepModel::Append(suffix@),
            PipelineStep::Prepend(prefix) => StepModel::Prepend(prefix@),
        }
    }
}

impl PartialEq for PipelineStep {
    /// Steps are equal when they are of one kind and, for `Filter`,
    /// `Append` and `Prepend`, hold the same text; the state of `Dedupe`
    /// steps is not compared.
    fn eq(&self, other: &PipelineStep) -> (r: bool) {
        match (self, other) {
            (PipelineStep::Filter(a), PipelineStep::Filter(b)) => same_text(a.as_str(), b.as_str()),
            (PipelineStep::Append(a), PipelineStep::Append(b)) => same_text(a.as_str(), b.as_str()),
            (PipelineStep::Prepend(a), PipelineStep::Prepend(b)) => same_text(
                a.as_str(),
                b.as_str(),
            ),
            (PipelineStep::Lower, PipelineStep::Lower) => true,
            (PipelineStep::Upper, PipelineStep::Upper) => true,
            (PipelineStep::Trim, PipelineStep::Trim) => true,
            (PipelineStep::Dedupe(_, _), PipelineStep::Dedupe(_, _)) => true,
            _ => false,
        }
    }
}

impl vstd::std_specs::cmp::PartialEqSpecImpl for PipelineStep {
    open spec fn obeys_eq_spec() -> bool {
        true
    }

    open spec fn eq_spec(&self, other: &PipelineStep) -> bool {
        match (self@, other@) {
            (StepModel::Filter(a), StepModel::Filter(b)) => a == b,
            (StepModel::Append(a), StepModel::Append(b)) => a == b,
            (StepModel::Prepend(a), StepModel::Prepend(b)) => a == b,
            (StepModel::Lower, StepModel::Lower) => true,
            (StepModel::Upper, StepModel::Upper) => true,
            (StepModel::Trim, StepModel::Trim) => true,
            (StepModel::Dedupe(_, _), StepModel::Dedupe(_, _)) => true,
            _ => false,
        }
    }
}

/// The command keywords, as they are written in lower case.
#[derive(Debug, Clone, Copy, PartialEq, Eq, Structural)]
pub enum Keyword {
    Filter,
    Lower,
    Upper,
    Trim,
    Dedupe,
    Append,
    Prepend,
}

impl Keyword {
    /// Whether the keyword takes the next token as its argument.
    pub open spec fn takes_argument(self) -> bool {
        self == Keyword::Filter || self == Keyword::Append || self == Keyword::Prepend
    }
}

/// The keyword a (lower-cased) word names, if any.
pub open spec fn keyword_of(word: Seq<char>) -> Option<Keyword> {
    if word == "filter"@ {
        Some(Keyword::Filter)
    } else if word == "lower"@ {
        Some(Keyword::Lower)
    } else if word == "upper"@ {
        Some(Keyword::Upper)
    } else if word == "trim"@ {
        Some(Keyword::Trim)
    } else if word == "dedupe"@ {
        Some(Keyword::Dedupe)
    } else if word == "append"@ {
        Some(Keyword::Append)
    } else if word == "prepend"@ {
        Some(Keyword::Prepend)
    } else {
        None
    }
}

/// The keyword of the kind of step a model is.
pub open spec fn kind_of(s: StepModel) -> Keyword {
    match s {
        StepModel::Filter(_) => Keyword::Filter,
        StepModel::Lower => Keyword::Lower,
        StepModel::Upper => Keyword::Upper,
        StepModel::Trim => Keyword::Trim,
        StepModel::Dedupe(_, _) => Keyword::Dedupe,
        StepModel::Append(_) => Keyword::Append,
        StepModel::Prepend(_) => Keyword::Prepend,
    }
}

/// Number of bytes a text takes in UTF-8.
pub open spec fn byte_len(v: Seq<char>) -> nat {
    encode_utf8(v).len()
}

/// `n + k`, held at the largest `usize` where the sum would pass it.
pub open spec fn add_capped(n: nat, k: nat) -> nat {
    if n + k > usize::MAX {
        usize::MAX as nat
    } else {
        n + k
    }
}

/// What a step makes of the running value: the next running value, or
/// `None` where the line is dropped.
pub open spec fn step_output(s: StepModel, v: Seq<char>) -> Option<Seq<char>> {
    match s {
        StepModel::Filter(p) => if pattern_matches(p, v) {
            Some(v)
        } else {
            None
        },
        StepModel::Lower => Some(lower_of(v)),
        StepModel::Upper => Some(upper_of(v)),
        StepModel::Trim => Some(trim_of(v)),
        StepModel::Dedupe(seen, _) => if seen.contains(v) {
            None
        } else {
            Some(v)
        },
        StepModel::Append(suffix) => Some(v + suffix),
        StepModel::Prepend(prefix) => Some(prefix + v),
    }
}

/// The step after it has seen the running value: a `Dedupe` step records
/// a value it has not seen before and counts its bytes; no other changes.
pub open spec fn step_after(s: StepModel, v: Seq<char>) -> StepModel {
    match s {
        StepModel::Dedupe(seen, stored) => if seen.contains(v) {
            s
        } else {
            StepModel::Dedupe(seen.insert(v), add_capped(stored, byte_len(v)))
        },
        _ => s,
    }
}

/// Whether a step's regex, if it has one, matches as the default-option
/// regex of its pattern text does; only then does the step's model say
/// what it does.
pub open spec fn faithful(s: PipelineStep) -> bool {
    match s {
        PipelineStep::Filter(re) => forall|t: Seq<char>| #[trigger]
            regex_matches(re, t) == pattern_matches(regex_source(re), t),
        _ => true,
    }
}

/// What a step makes of the running value, its regex taken as it is.
pub open spec fn run_output(s: PipelineStep, v: Seq<char>) -> Option<Seq<char>> {
    match s {
        PipelineStep::Filter(re) => if regex_matches(re, v) {
            Some(v)
        } else {
            None
        },
        _ => step_output(s@, v),
    }
}

/// The view of an optional string.
pub open spec fn opt_view(o: Option<String>) -> Option<Seq<char>> {
    match o {
        Some(s) => Some(s@),
        None => None,
    }
}

/// Whether two strings hold the same characters.
pub fn same_text(a: &str, b: &str) -> (r: bool)
    ensures
        r == (a@ == b@),
{
    let n = a.unicode_len();
    if n != b.unicode_len() {
        return false;
    }
    let mut i: usize = 0;
    while i < n
        invariant
            n == a@.len(),
            n == b@.len(),
            i <= n,
            a@.subrange(0, i as int) == b@.subrange(0, i as int),
        decreases n - i,
    {
        if a.get_char(i) != b.get_char(i) {
            return false;
        }
        assert(a@.subrange(0, i + 1) =~= a@.subrange(0, i as int).push(a@[i as int]));
        assert(b@.subrange(0, i + 1) =~= b@.subrange(0, i as int).push(b@[i as int]));
        i = i + 1;
    }
    assert(a@ =~= a@.subrange(0, n as int));
    assert(b@ =~= b@.subrange(0, n as int));
    true
}

/// The keyword a lower-cased word names, if any.
pub fn parse_keyword(folded: &str) -> (r: Option<Keyword>)
    ensures
        r == keyword_of(folded@),
{
    if same_text(folded, "filter") {
        Some(Keyword::Filter)
    } else if same_text(folded, "lower") {
        Some(Keyword::Lower)
    } else if same_text(folded, "upper") {
        Some(Keyword::Upper)
    } else if same_text(folded, "trim") {
        Some(Keyword::Trim)
    } else if same_text(folded, "dedupe") {
        Some(Keyword::Dedupe)
    } else if same_text(folded, "append") {
        Some(Keyword::Append)
    } else if same_text(folded, "prepend") {
        Some(Keyword::Prepend)
    } else {
        None
    }
}

impl PipelineStep {
    /// Runs the step on the running value. Returns the next running value,
    /// or `None` where the line is dropped.
    pub fn run(&mut self, value: String) -> (r: Option<String>)
        ensures
            final(self)@ == step_after(old(self)@, value@),
            opt_view(r) == run_output(*old(self), value@),
            faithful(*old(self)) ==> opt_view(r) == step_output(old(self)@, value@),
            faithful(*old(self)) ==> faithful(*final(self)),
    {
        match self {
            PipelineStep::Dedupe(seen, stored) => {
                if set_contains(seen, &value) {
                    None
                } else {
                    let n = value.as_str().as_bytes().len();
                    *stored = stored.saturating_add(n);
                    set_insert(seen, value.clone());
                    Some(value)
                }
            },
            _ => self.run_stateless(value),
        }
    }

    /// Runs a step that keeps no state.
    fn run_stateless(&self, value: String) -> (r: Option<String>)
        requires
            !(self@ is Dedupe),
        ensures
            opt_view(r) == run_output(*self, value@),
    {
        match self {
            PipelineStep::Filter(re) => {
                if regex_is_match(re, value.as_str()) {
                    Some(value)
                } else {
                    None
                }
            },
            PipelineStep::Lower => Some(to_lower(value.as_str())),
            PipelineStep::Upper => Some(to_upper(value.as_str())),
            PipelineStep::Trim => Some(trim_ends(value.as_str())),
            PipelineStep::Dedupe(_, _) => Some(value),
            PipelineStep::Append(suffix) => {
                let mut out = value;
                out.append(suffix.as_str());
                Some(out)
            },
            PipelineStep::Prepend(prefix) => {
                let mut out = prefix.clone();
                out.append(value.as_str());
                Some(out)
            },
        }
    }
}

} // verus!
