use vstd::prelude::*;
use crate::dispatch::{args_view, build_invocation, invocation_args, Invocation, ToolArgument};

verus! {

/// What is done with one candidate of a pattern's expansion, as values.
pub enum StepSpec {
    Invoke(Seq<char>, Seq<Seq<char>>),
    Report(Seq<char>),
}

/// What is done with one candidate of a pattern's expansion.
#[derive(Debug, PartialEq, Eq)]
pub enum CandidateStep {
    /// Run the drive tool on the device.
    Invoke(Invocation),
    /// Report that this candidate could not be read, and go on.
    Report(String),
}

impl View for CandidateStep {
    type V = StepSpec;

    open spec fn view(&self) -> StepSpec {
        match self {
            CandidateStep::Invoke(inv) => StepSpec::Invoke(inv.program@, args_view(inv.args@)),
            CandidateStep::Report(m) => StepSpec::Report(m@),
        }
    }
}

/// A candidate of an expansion as values: a matched path, or the error's message.
pub open spec fn candidate_view(c: Result<String, String>) -> Result<Seq<char>, Seq<char>> {
    match c {
        Ok(p) => Ok(p@),
        Err(m) => Err(m@),
    }
}

/// The step for candidate `c` of a pattern's expansion: every matched path is
/// handed to the drive tool, and an error is reported.
pub open spec fn step_for(
    program: Seq<char>,
    arg: ToolArgument,
    c: Result<Seq<char>, Seq<char>>,
) -> StepSpec {
    match c {
        Ok(path) => StepSpec::Invoke(program, invocation_args(arg, path)),
        Err(m) => StepSpec::Report(m),
    }
}

/// The steps for a pattern's candidates, one per candidate, in order.
pub open spec fn steps_for(
    program: Seq<char>,
    arg: ToolArgument,
    cs: Seq<Result<Seq<char>, Seq<char>>>,
) -> Seq<StepSpec> {
    cs.map_values(|c: Result<Seq<char>, Seq<char>>| step_for(program, arg, c))
}

/// Decides what to do with one candidate of a pattern's expansion.
pub fn candidate_step(
    program: &String,
    arg: ToolArgument,
    candidate: &Result<String, String>,
) -> (r: CandidateStep)
    ensures
        r@ == step_for(program@, arg, candidate_view(*candidate)),
{
    match candidate {
        Ok(path) => CandidateStep::Invoke(build_invocation(program, arg, path)),
        Err(m) => CandidateStep::Report(m.clone()),
    }
}

/// Decides what to do with each candidate of a pattern's expansion, each on its own.
pub fn candidate_steps(
    program: &String,
    arg: ToolArgument,
    candidates: &Vec<Result<String, String>>,
) -> (r: Vec<CandidateStep>)
    ensures
        r@.map_values(|s: CandidateStep| s@) == steps_for(
            program@,
            arg,
            candidates@.map_values(|c: Result<String, String>| candidate_view(c)),
        ),
{
    let ghost cs = candidates@.map_values(|c: Result<String, String>| candidate_view(c));
    let mut r: Vec<CandidateStep> = Vec::new();
    let mut i: usize = 0;
    while i < candidates.len()
        invariant
            i <= candidates@.len(),
            cs == candidates@.map_values(|c: Result<String, String>| candidate_view(c)),
            r@.len() == i,
            forall|j: int| 0 <= j < i ==> #[trigger] r@[j]@ == step_for(program@, arg, cs[j]),
        decreases candidates@.len() - i,
    {
        r.push(candidate_step(program, arg, &candidates[i]));
        i += 1;
    }
    assert(r@.map_values(|s: CandidateStep| s@) =~= steps_for(program@, arg, cs));
    r
}

/// Every path a pattern's expansion yields gets one run of the drive tool, in the
/// order yielded; where a candidate cannot be read, it is reported in its place.
pub proof fn lemma_every_match_invoked(
    program: Seq<char>,
    arg: ToolArgument,
    cs: Seq<Result<Seq<char>, Seq<char>>>,
)
    ensures
        steps_for(program, arg, cs).len() == cs.len(),
        forall|j: int|
            0 <= j < cs.len() ==> match #[trigger] cs[j] {
                Ok(p) => steps_for(program, arg, cs)[j] == StepSpec::Invoke(
                    program,
                    invocation_args(arg, p),
                ),
                Err(e) => steps_for(program, arg, cs)[j] == StepSpec::Report(e),
            },
{
}

/// The steps of a whole run: the patterns in configuration order, and within each
/// the candidates in the order its expansion yields them.
pub open spec fn run_steps(
    program: Seq<char>,
    arg: ToolArgument,
    expansions: Seq<Seq<Result<Seq<char>, Seq<char>>>>,
) -> Seq<StepSpec>
    decreases expansions.len(),
{
    if expansions.len() == 0 {
        Seq::empty()
    } else {
        run_steps(program, arg, expansions.drop_last()) + steps_for(
            program,
            arg,
            expansions.last(),
        )
    }
}

/// A candidate that cannot be read, in any pattern's expansion, adds one report in
/// its place and changes nothing before or after it: every matched device of that
/// pattern and of every later pattern still gets its run.
pub proof fn lemma_match_error_isolated_in_run(
    program: Seq<char>,
    arg: ToolArgument,
    expansions: Seq<Seq<Result<Seq<char>, Seq<char>>>>,
    k: int,
    i: int,
    e: Seq<char>,
)
    requires
        0 <= k < expansions.len(),
        0 <= i <= expansions[k].len(),
    ensures
        ({
            let before = run_steps(program, arg, expansions.take(k));
            let with_error = run_steps(program, arg, expansions.update(k, expansions[k].insert(i, Err(e))));
            let without = run_steps(program, arg, expansions);
            let at = before.len() + i;
            &&& with_error == without.insert(at, StepSpec::Report(e))
        }),
    decreases expansions.len(),
{
    let x = expansions.update(k, expansions[k].insert(i, Err(e)));
    lemma_match_error_isolated(program, arg, expansions[k], i, e);
    if k == expansions.len() - 1 {
        assert(x.drop_last() =~= expansions.drop_last());
        assert(x.last() == expansions[k].insert(i, Err(e)));
        assert(expansions.take(k) =~= expansions.drop_last());
        assert(run_steps(program, arg, x) =~= run_steps(program, arg, expansions).insert(
            run_steps(program, arg, expansions.take(k)).len() + i,
            StepSpec::Report(e),
        ));
    } else {
        let d = expansions.drop_last();
        assert(x.drop_last() =~= d.update(k, d[k].insert(i, Err(e))));
        assert(d.take(k) =~= expansions.take(k));
        lemma_match_error_isolated_in_run(program, arg, d, k, i, e);
        lemma_run_steps_len_at_least(program, arg, d, k);
        assert(x.last() == expansions.last());
        assert(run_steps(program, arg, x) =~= run_steps(program, arg, expansions).insert(
            run_steps(program, arg, expansions.take(k)).len() + i,
            StepSpec::Report(e),
        ));
    }
}

/// The steps of the first `k` patterns are a prefix of the steps of the run.
proof fn lemma_run_steps_len_at_least(
    program: Seq<char>,
    arg: ToolArgument,
    expansions: Seq<Seq<Result<Seq<char>, Seq<char>>>>,
    k: int,
)
    requires
        0 <= k < expansions.len(),
    ensures
        run_steps(program, arg, expansions.take(k)).len() + expansions[k].len() <= run_steps(
            program,
            arg,
            expansions,
        ).len(),
    decreases expansions.len(),
{
    let d = expansions.drop_last();
    if k == expansions.len() - 1 {
        assert(expansions.take(k) =~= d);
    } else {
        assert(d.take(k) =~= expansions.take(k));
        lemma_run_steps_len_at_least(program, arg, d, k);
    }
}

/// A candidate that cannot be read adds a report in its place and changes the
/// step of no other candidate: every device before and after it is still handled.
pub proof fn lemma_match_error_isolated(
    program: Seq<char>,
    arg: ToolArgument,
    cs: Seq<Result<Seq<char>, Seq<char>>>,
    i: int,
    e: Seq<char>,
)
    requires
        0 <= i <= cs.len(),
    ensures
        steps_for(program, arg, cs.insert(i, Err(e))) == steps_for(program, arg, cs).insert(
            i,
            StepSpec::Report(e),
        ),
{
    assert(steps_for(program, arg, cs.insert(i, Err(e))) =~= steps_for(program, arg, cs).insert(
        i,
        StepSpec::Report(e),
    ));
}

} // verus!
