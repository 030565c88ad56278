//! One whole filtering run over a sequence of lines.
//!
//! The specification folds `spec_step` over the input: the run stops
//! at the first fatal error, or normally at the closing wrapper tag,
//! and otherwise consumes every line and then demands that the
//! automaton stand in `Null` again.

use vstd::prelude::*;

use crate::filter::{
    init_model, lv, spec_step, wf, Filter, FilterError, Model, SpecErr, State, StepSpec,
};
use crate::idset::IdSet;

verus! {

/// What a run of the automaton from some state over some lines does.
#[verifier::ext_equal]
pub ghost enum RunSpec {
    /// No step failed: the final state, everything emitted, and
    /// whether the closing wrapper tag ended the run early.
    Done { m: Model, out: Seq<Seq<u8>>, done: bool },
    /// The step on line `at` failed.
    Fail { at: int, err: SpecErr },
}

/// Fold the automaton over the lines, stopping at the closing
/// wrapper tag or at the first fatal error.
pub open spec fn spec_run(m: Model, lines: Seq<Seq<u8>>, ids: Set<u64>) -> RunSpec
    decreases lines.len(),
{
    if lines.len() == 0 {
        RunSpec::Done { m, out: seq![], done: false }
    } else {
        match spec_step(m, lines[0], ids) {
            StepSpec::Fail(e) => RunSpec::Fail { at: 0, err: e },
            StepSpec::Step { m: m2, out: em, done, .. } => {
                if done {
                    RunSpec::Done { m: m2, out: em, done: true }
                } else {
                    match spec_run(m2, lines.drop_first(), ids) {
                        RunSpec::Done { m: m3, out: rest, done: d } => RunSpec::Done {
                            m: m3,
                            out: em + rest,
                            done: d,
                        },
                        RunSpec::Fail { at, err } => RunSpec::Fail { at: at + 1, err },
                    }
                }
            },
        }
    }
}

/// What one whole run over an input does: as `spec_run` from the
/// initial state, except that exhausting the input anywhere but in
/// `Null` is a fatal structural error.
#[verifier::ext_equal]
pub ghost enum RunOutcome {
    Accepted { out: Seq<Seq<u8>>, total: nat, hits: nat, done: bool },
    Fail { at: int, err: SpecErr },
}

/// The full-run specification of the filter.
pub open spec fn spec_filter_run(lines: Seq<Seq<u8>>, ids: Set<u64>) -> RunOutcome {
    match spec_run(init_model(), lines, ids) {
        RunSpec::Fail { at, err } => RunOutcome::Fail { at, err },
        RunSpec::Done { m, out, done } => {
            if done || m.state == State::Null {
                RunOutcome::Accepted { out, total: m.total, hits: m.hits, done }
            } else {
                RunOutcome::Fail { at: lines.len() as int, err: SpecErr::Eof(m.state) }
            }
        },
    }
}

/// Shift a sub-run's outcome into the enclosing run: its output
/// follows `pre`, its error index moves by `shift`.
pub open spec fn run_prepend(pre: Seq<Seq<u8>>, r: RunSpec, shift: int) -> RunSpec {
    match r {
        RunSpec::Done { m, out, done } => RunSpec::Done { m, out: pre + out, done },
        RunSpec::Fail { at, err } => RunSpec::Fail { at: at + shift, err },
    }
}

/// What a successful whole run hands back.
#[derive(Debug)]
pub struct RunResult {
    /// The emitted lines, in order.
    pub out: Vec<Vec<u8>>,
    /// Pages whose `<id>` line was seen.
    pub total: u64,
    /// Pages emitted.
    pub hits: u64,
    /// The run ended at the closing wrapper tag (rather than by
    /// exhausting the input while still outside the document).
    pub done: bool,
}

/// A fatal error, with the index of the input line at which it arose
/// (the input length, for a premature end of input).
#[derive(Debug)]
pub struct RunError {
    pub line: usize,
    pub err: FilterError,
}

/// Run the filter over all lines.
pub fn run(lines: &Vec<Vec<u8>>, ids: &IdSet) -> (r: Result<RunResult, RunError>)
    ensures
        match spec_filter_run(lv(lines@), ids@) {
            RunOutcome::Accepted { out, total, hits, done } => r matches Ok(rr) && lv(rr.out@) == out
                && rr.total as nat == total && rr.hits as nat == hits && rr.done == done,
            RunOutcome::Fail { at, err } => r matches Err(re) && re.line as int == at && re.err@
                == err,
        },
{
    let ghost all = lv(lines@);
    let mut f = Filter::new();
    let mut out: Vec<Vec<u8>> = Vec::new();
    let mut i: usize = 0;
    proof {
        assert(all.skip(0) =~= all);
        assert(lv(out@) =~= Seq::<Seq<u8>>::empty());
        assert(run_prepend(lv(out@), spec_run(f@, all.skip(0), ids@), 0) =~= spec_run(
            init_model(),
            all,
            ids@,
        ));
    }
    while i < lines.len()
        invariant
            0 <= i <= lines@.len(),
            all == lv(lines@),
            wf(f@),
            f@.total <= i,
            spec_run(init_model(), all, ids@) == run_prepend(
                lv(out@),
                spec_run(f@, all.skip(i as int), ids@),
                i as int,
            ),
        decreases lines@.len() - i,
    {
        let ghost mpre = f@;
        let ghost rest = all.skip(i as int);
        proof {
            assert(rest.len() > 0);
            assert(rest[0] == all[i as int]);
            assert(rest.drop_first() =~= all.skip(i + 1));
        }
        let line: &Vec<u8> = &lines[i];
        let ghost outpre = lv(out@);
        match f.step(line, ids, &mut out) {
            Err(e) => {
                proof {
                    assert(spec_run(mpre, rest, ids@) matches RunSpec::Fail { at, .. } && at
                        == 0);
                    assert(spec_filter_run(all, ids@) matches RunOutcome::Fail { at, err }
                        && at == i as int && err == e@);
                }
                return Err(RunError { line: i, err: e });
            },
            Ok(so) => {
                proof {
                    let stepped = spec_step(mpre, rest[0], ids@);
                    assert(stepped matches StepSpec::Step { .. });
                    if so.done {
                        assert(spec_run(mpre, rest, ids@) matches RunSpec::Done { .. });
                        assert(spec_run(init_model(), all, ids@) matches RunSpec::Done {
                            m,
                            out: o,
                            done,
                        } && m == f@ && o == lv(out@) && done == true);
                    } else {
                        match stepped {
                            StepSpec::Step { m: m2, out: em, .. } => {
                                assert(lv(out@) =~= outpre + em);
                                assert(run_prepend(
                                    lv(out@),
                                    spec_run(f@, all.skip(i + 1), ids@),
                                    i + 1,
                                ) =~= run_prepend(outpre, spec_run(mpre, rest, ids@), i as int));
                            },
                            StepSpec::Fail(_) => {
                                assert(false);
                            },
                        }
                    }
                }
                if so.done {
                    let total = f.total();
                    let hits = f.hits();
                    return Ok(RunResult { out, total, hits, done: true });
                }
            },
        }
        i += 1;
    }
    proof {
        assert(all.skip(i as int) =~= Seq::<Seq<u8>>::empty());
        assert(spec_run(f@, all.skip(i as int), ids@) == (RunSpec::Done {
            m: f@,
            out: Seq::<Seq<u8>>::empty(),
            done: false,
        }));
        assert(lv(out@) + Seq::<Seq<u8>>::empty() =~= lv(out@));
    }
    match f.state() {
        State::Null => {
            let total = f.total();
            let hits = f.hits();
            Ok(RunResult { out, total, hits, done: false })
        },
        s => Err(RunError { line: lines.len(), err: FilterError::Eof { state: s } }),
    }
}

} // verus!
