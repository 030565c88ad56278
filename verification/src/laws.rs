//! Laws of the filter, proved of the specification automaton that
//! `Filter::step` and `run` are verified against.
//!
//! The statements count *events* of a run: steps that resolve a
//! page's `<id>` line, steps that flush a selected page, steps that
//! emit a closing `</page>`, and the steps that open and close the
//! wrapper and the `<siteinfo>` block.  A page body copied through
//! verbatim may hold arbitrary text, so the output's structure is
//! exactly the structure of these emission events.

use vstd::prelude::*;

use crate::filter::{init_model, spec_step, Model, State, StepSpec};
use crate::run::{spec_filter_run, spec_run, RunOutcome, RunSpec};
use crate::tags::{spec_classify, spec_tag_kind, SpecClass, TagKind};

verus! {

/// Count the steps of a (successful prefix of a) run that satisfy
/// `p`, which observes the state before the step and what the step
/// did.
pub open spec fn count_steps(
    m: Model,
    lines: Seq<Seq<u8>>,
    ids: Set<u64>,
    p: spec_fn(Model, StepSpec) -> bool,
) -> nat
    decreases lines.len(),
{
    if lines.len() == 0 {
        0
    } else {
        match spec_step(m, lines[0], ids) {
            StepSpec::Fail(_) => 0,
            StepSpec::Step { m: m2, done, .. } => {
                let c: nat = if p(m, spec_step(m, lines[0], ids)) {
                    1
                } else {
                    0
                };
                if done {
                    c
                } else {
                    c + count_steps(m2, lines.drop_first(), ids, p)
                }
            },
        }
    }
}

/// The step resolved a page's `<id>` line (the page was counted).
pub open spec fn page_pred() -> spec_fn(Model, StepSpec) -> bool {
    |m: Model, r: StepSpec|
        match r {
            StepSpec::Step { id, .. } => id is Some,
            StepSpec::Fail(_) => false,
        }
}

/// The step flushed a selected page's buffered lines.
pub open spec fn flush_pred() -> spec_fn(Model, StepSpec) -> bool {
    |m: Model, r: StepSpec|
        match r {
            StepSpec::Step { hit, .. } => hit,
            StepSpec::Fail(_) => false,
        }
}

/// The step emitted a selected page's closing `</page>` line.
pub open spec fn close_pred() -> spec_fn(Model, StepSpec) -> bool {
    |m: Model, r: StepSpec|
        match r {
            StepSpec::Step { m: m2, .. } => m.state == State::Write && m2.state == State::Wiki,
            StepSpec::Fail(_) => false,
        }
}

/// The step emitted the opening `<siteinfo>` line.
pub open spec fn site_open_pred() -> spec_fn(Model, StepSpec) -> bool {
    |m: Model, r: StepSpec|
        match r {
            StepSpec::Step { m: m2, .. } => m.state == State::Wiki && m2.state == State::Site,
            StepSpec::Fail(_) => false,
        }
}

/// The step emitted the closing `</siteinfo>` line.
pub open spec fn site_close_pred() -> spec_fn(Model, StepSpec) -> bool {
    |m: Model, r: StepSpec|
        match r {
            StepSpec::Step { m: m2, .. } => m.state == State::Site && m2.state == State::Wiki,
            StepSpec::Fail(_) => false,
        }
}

/// The step emitted the opening `<mediawiki>` line.
pub open spec fn media_open_pred() -> spec_fn(Model, StepSpec) -> bool {
    |m: Model, r: StepSpec| m.state == State::Null && r is Step
}

/// The step emitted the closing `</mediawiki>` line and ended the run.
pub open spec fn done_pred() -> spec_fn(Model, StepSpec) -> bool {
    |m: Model, r: StepSpec|
        match r {
            StepSpec::Step { done, .. } => done,
            StepSpec::Fail(_) => false,
        }
}

/// 1 while a selected page is being copied.
pub open spec fn in_write(m: Model) -> nat {
    if m.state == State::Write {
        1
    } else {
        0
    }
}

/// 1 while the `<siteinfo>` block is being copied.
pub open spec fn in_site(m: Model) -> nat {
    if m.state == State::Site {
        1
    } else {
        0
    }
}

/// 1 while the automaton stands inside the document.
pub open spec fn in_doc(m: Model) -> nat {
    if m.state == State::Null {
        0
    } else {
        1
    }
}

/// Counter accuracy along any successful run: `total` grows by one
/// exactly at the steps that resolve an `<id>` line, and `hits` by
/// one exactly at the steps that emit a closing `</page>`.
pub proof fn lemma_run_counters(m: Model, lines: Seq<Seq<u8>>, ids: Set<u64>)
    ensures
        spec_run(m, lines, ids) matches RunSpec::Done { m: m2, .. } ==> m2.total == m.total
            + count_steps(m, lines, ids, page_pred()) && m2.hits == m.hits + count_steps(
            m,
            lines,
            ids,
            close_pred(),
        ),
    decreases lines.len(),
{
    if lines.len() > 0 {
        match spec_step(m, lines[0], ids) {
            StepSpec::Fail(_) => {},
            StepSpec::Step { m: m2, done, .. } => {
                if !done {
                    lemma_run_counters(m2, lines.drop_first(), ids);
                }
            },
        }
    }
}

/// Structural balance along any successful run: pages flushed and
/// pages closed pair up, so do the `<siteinfo>` events and the
/// wrapper events, up to the states the run starts and ends in; and
/// the closing wrapper step happens exactly once on a run that
/// reports itself as ended, which then stands in `Null` again.
pub proof fn lemma_run_balance(m: Model, lines: Seq<Seq<u8>>, ids: Set<u64>)
    ensures
        spec_run(m, lines, ids) matches RunSpec::Done { m: m2, done, .. } ==> {
            &&& count_steps(m, lines, ids, flush_pred()) + in_write(m) == count_steps(
                m,
                lines,
                ids,
                close_pred(),
            ) + in_write(m2)
            &&& count_steps(m, lines, ids, site_open_pred()) + in_site(m) == count_steps(
                m,
                lines,
                ids,
                site_close_pred(),
            ) + in_site(m2)
            &&& count_steps(m, lines, ids, media_open_pred()) + in_doc(m) == count_steps(
                m,
                lines,
                ids,
                done_pred(),
            ) + in_doc(m2)
            &&& count_steps(m, lines, ids, done_pred()) == (if done {
                1nat
            } else {
                0nat
            })
            &&& (done ==> m2.state == State::Null)
        },
    decreases lines.len(),
{
    if lines.len() > 0 {
        match spec_step(m, lines[0], ids) {
            StepSpec::Fail(_) => {},
            StepSpec::Step { m: m2, done, .. } => {
                if !done {
                    lemma_run_balance(m2, lines.drop_first(), ids);
                }
            },
        }
    }
}

/// P4, counter accuracy: on an accepted run, `total` is the number
/// of `<id>`-bearing pages the input presented, and `hits` is at
/// once the number of pages flushed (those whose identifier lies in
/// the set) and the number of closing `</page>` lines emitted.
pub proof fn lemma_counter_accuracy(lines: Seq<Seq<u8>>, ids: Set<u64>)
    ensures
        spec_filter_run(lines, ids) matches RunOutcome::Accepted { total, hits, .. } ==> {
            &&& total == count_steps(init_model(), lines, ids, page_pred())
            &&& hits == count_steps(init_model(), lines, ids, close_pred())
            &&& hits == count_steps(init_model(), lines, ids, flush_pred())
        },
{
    lemma_run_counters(init_model(), lines, ids);
    lemma_run_balance(init_model(), lines, ids);
}

/// P1, well-formedness of the output's structure: on an accepted run
/// the wrapper is opened exactly once and closed exactly once (and
/// not at all only where the input held no document, in which case
/// nothing is emitted); every flushed page is closed, and every
/// `<siteinfo>` opening has its closing.
pub proof fn lemma_well_formed_output(lines: Seq<Seq<u8>>, ids: Set<u64>)
    ensures
        spec_filter_run(lines, ids) matches RunOutcome::Accepted { out, hits, done, .. } ==> {
            &&& count_steps(init_model(), lines, ids, media_open_pred()) == (if done {
                1nat
            } else {
                0nat
            })
            &&& count_steps(init_model(), lines, ids, done_pred()) == (if done {
                1nat
            } else {
                0nat
            })
            &&& count_steps(init_model(), lines, ids, flush_pred()) == hits
            &&& count_steps(init_model(), lines, ids, close_pred()) == hits
            &&& count_steps(init_model(), lines, ids, site_open_pred()) == count_steps(
                init_model(),
                lines,
                ids,
                site_close_pred(),
            )
            &&& (!done ==> out == Seq::<Seq<u8>>::empty())
        },
{
    lemma_run_counters(init_model(), lines, ids);
    lemma_run_balance(init_model(), lines, ids);
    match spec_run(init_model(), lines, ids) {
        RunSpec::Fail { .. } => {},
        RunSpec::Done { m: m2, out, done } => {
            if !done && m2.state == State::Null {
                if lines.len() > 0 {
                    match spec_step(init_model(), lines[0], ids) {
                        StepSpec::Fail(_) => {},
                        StepSpec::Step { .. } => {
                            assert(count_steps(init_model(), lines, ids, media_open_pred())
                                >= 1);
                        },
                    }
                }
                assert(lines.len() == 0);
            }
        },
    }
}

/// The line opens a `<siteinfo>` block.
pub open spec fn is_siteinfo_line(l: Seq<u8>) -> bool {
    match spec_classify(l) {
        SpecClass::Tagged(t) => spec_tag_kind(t) == TagKind::Siteinfo,
        _ => false,
    }
}

/// How many lines of the input carry an opening `siteinfo` tag.
pub open spec fn count_siteinfo_lines(lines: Seq<Seq<u8>>) -> nat
    decreases lines.len(),
{
    if lines.len() == 0 {
        0
    } else {
        (if is_siteinfo_line(lines[0]) {
            1nat
        } else {
            0nat
        }) + count_siteinfo_lines(lines.drop_first())
    }
}

/// The rest of P1's `<siteinfo>` clause: a `<siteinfo>` block opens
/// only where the input presents a `siteinfo` line, so an input with
/// at most one such line yields at most one such block.
pub proof fn lemma_siteinfo_opens_bounded(m: Model, lines: Seq<Seq<u8>>, ids: Set<u64>)
    ensures
        count_steps(m, lines, ids, site_open_pred()) <= count_siteinfo_lines(lines),
    decreases lines.len(),
{
    if lines.len() > 0 {
        match spec_step(m, lines[0], ids) {
            StepSpec::Fail(_) => {},
            StepSpec::Step { m: m2, done, .. } => {
                if !done {
                    lemma_siteinfo_opens_bounded(m2, lines.drop_first(), ids);
                }
            },
        }
    }
}

/// P2 (soundness half) and I2: a step flushes exactly when it
/// resolves an `<id>` whose value lies in the set, and what it emits
/// is precisely the buffered page prefix followed by the `<id>` line
/// itself; the page then enters verbatim copying.
pub proof fn lemma_selection(m: Model, l: Seq<u8>, ids: Set<u64>)
    ensures
        spec_step(m, l, ids) matches StepSpec::Step { m: m2, out, hit, id, .. } ==> {
            &&& (hit ==> (id matches Some(v) && ids.contains(v) && m.state == State::Page
                && m2.state == State::Write && out == m.store.push(l) && m2.store
                == Seq::<Seq<u8>>::empty()))
            &&& ((id matches Some(v) && ids.contains(v)) ==> hit)
        },
{
}

/// P3: a page whose identifier is not in the set contributes
/// nothing: its deciding step emits nothing and enters `Skip`, and
/// every step taken in `Skip` or before the decision (other than the
/// flush itself) emits nothing.
pub proof fn lemma_non_selection(m: Model, l: Seq<u8>, ids: Set<u64>)
    ensures
        spec_step(m, l, ids) matches StepSpec::Step { m: m2, out, id, .. } ==> {
            &&& (id matches Some(v) && !ids.contains(v) ==> out == Seq::<Seq<u8>>::empty()
                && m2.state == State::Skip && m2.store == Seq::<Seq<u8>>::empty())
            &&& (m.state == State::Skip ==> out == Seq::<Seq<u8>>::empty())
            &&& (m.state == State::Page && !(id is Some) ==> out == Seq::<Seq<u8>>::empty())
        },
{
}

/// P5, memory boundedness: a step buffers at most one more line, and
/// the buffer is empty in every state but `Page` — so what is held
/// back never exceeds the opening lines of the one current page.
pub proof fn lemma_buffer_bound(m: Model, l: Seq<u8>, ids: Set<u64>)
    requires
        crate::filter::wf(m),
    ensures
        spec_step(m, l, ids) matches StepSpec::Step { m: m2, .. } ==> {
            &&& m2.store.len() <= m.store.len() + 1
            &&& (m2.state != State::Page ==> m2.store.len() == 0)
        },
{
}

/// The line closes a page.
pub open spec fn is_page_close_line(l: Seq<u8>) -> bool {
    match spec_classify(l) {
        SpecClass::Tagged(t) => spec_tag_kind(t) == TagKind::PageClose,
        _ => false,
    }
}

/// The line that ends verbatim copying in state `s`: the `</page>`
/// of a selected page, or the `</siteinfo>` of the site-metadata
/// block.
pub open spec fn is_close_line_for(s: State, l: Seq<u8>) -> bool {
    if s == State::Site {
        match spec_classify(l) {
            SpecClass::Tagged(t) => spec_tag_kind(t) == TagKind::SiteinfoClose,
            _ => false,
        }
    } else {
        is_page_close_line(l)
    }
}

/// The output copied the block being passed through in state `s`
/// verbatim up to position `c`: the first `c` emitted lines are the
/// first `c` input lines byte for byte; either the whole remaining
/// input was block content (and the output is exactly the input), or
/// line `c` closes the block and is itself copied through.
pub open spec fn verbatim_prefix(s: State, lines: Seq<Seq<u8>>, out: Seq<Seq<u8>>, c: int) -> bool {
    &&& 0 <= c <= lines.len()
    &&& c <= out.len()
    &&& out.subrange(0, c) == lines.subrange(0, c)
    &&& (forall|k: int| 0 <= k < c ==> !is_close_line_for(s, #[trigger] lines[k]))
    &&& (c == lines.len() ==> out == lines)
    &&& (c < lines.len() ==> c < out.len() && out[c] == lines[c] && is_close_line_for(s, lines[c]))
}

/// P6, idempotence of the verbatim copy, and the verbatim half of
/// P1's `<siteinfo>` clause: from the moment a page is selected (or
/// the site-metadata block is entered), the run emits exactly the
/// input lines, byte-identical and in order, up to and including the
/// block's closing line.
pub proof fn lemma_verbatim_copy(m: Model, lines: Seq<Seq<u8>>, ids: Set<u64>)
    requires
        m.state == State::Write || m.state == State::Site,
    ensures
        spec_run(m, lines, ids) matches RunSpec::Done { out, .. } ==> exists|c: int|
            #[trigger] verbatim_prefix(m.state, lines, out, c),
    decreases lines.len(),
{
    match spec_run(m, lines, ids) {
        RunSpec::Fail { .. } => {},
        RunSpec::Done { m: mend, out, done } => {
            if lines.len() == 0 {
                assert(out =~= lines);
                assert(verbatim_prefix(m.state, lines, out, 0));
            } else {
                match spec_step(m, lines[0], ids) {
                    StepSpec::Fail(_) => {},
                    StepSpec::Step { m: m2, out: em, done: d, .. } => {
                        assert(em =~= seq![lines[0]]);
                        if is_close_line_for(m.state, lines[0]) {
                            assert(out[0] == lines[0]);
                            assert(out.subrange(0, 0) =~= lines.subrange(0, 0));
                            assert(verbatim_prefix(m.state, lines, out, 0));
                        } else {
                            assert(m2.state == m.state);
                            lemma_verbatim_copy(m2, lines.drop_first(), ids);
                            match spec_run(m2, lines.drop_first(), ids) {
                                RunSpec::Fail { .. } => {},
                                RunSpec::Done { out: rest, .. } => {
                                    let c2 = choose|c2: int|
                                        #[trigger] verbatim_prefix(
                                            m2.state,
                                            lines.drop_first(),
                                            rest,
                                            c2,
                                        );
                                    assert(verbatim_prefix(
                                        m.state,
                                        lines.drop_first(),
                                        rest,
                                        c2,
                                    ));
                                    assert(out =~= seq![lines[0]] + rest);
                                    let c = c2 + 1;
                                    assert(out.subrange(0, c) =~= lines.subrange(0, c)) by {
                                        assert(rest.subrange(0, c2) == lines.drop_first()
                                            .subrange(0, c2));
                                        assert forall|k: int| 0 <= k < c implies out[k]
                                            == lines[k] by {
                                            if k > 0 {
                                                assert(rest.subrange(0, c2)[k - 1] == rest[k
                                                    - 1]);
                                                assert(lines.drop_first().subrange(0, c2)[k - 1]
                                                    == lines[k]);
                                            }
                                        }
                                    }
                                    if c == lines.len() {
                                        assert(rest =~= lines.drop_first());
                                        assert(out =~= lines);
                                    } else {
                                        assert(out[c] == rest[c2]);
                                        assert(rest[c2] == lines.drop_first()[c2]);
                                    }
                                    assert forall|k: int| 0 <= k < c implies !is_close_line_for(
                                        m.state,
                                        #[trigger] lines[k],
                                    ) by {
                                        if k > 0 {
                                            assert(!is_close_line_for(
                                                m.state,
                                                lines.drop_first()[k - 1],
                                            ));
                                        }
                                    }
                                    assert(verbatim_prefix(m.state, lines, out, c));
                                },
                            }
                        }
                    },
                }
            }
        },
    }
}

/// P2 (completeness half): when a run's next line resolves a page
/// identifier that lies in the set, the output opens with exactly
/// that page: the buffered `<page>`/`<title>`/`<ns>` lines in their
/// original order, the `<id>` line itself, and then the input copied
/// byte-identically up to and including the closing `</page>`.
pub proof fn lemma_selected_page_output(m: Model, lines: Seq<Seq<u8>>, ids: Set<u64>)
    requires
        lines.len() > 0,
        spec_step(m, lines[0], ids) matches StepSpec::Step { hit: true, .. },
    ensures
        spec_run(m, lines, ids) matches RunSpec::Done { out, .. } ==> {
            let k = m.store.len() + 1;
            &&& out.len() >= k
            &&& out.subrange(0, k as int) == m.store.push(lines[0])
            &&& exists|c: int|
                #[trigger] verbatim_prefix(State::Write, lines.drop_first(), out.skip(k as int), c)
        },
{
    match spec_run(m, lines, ids) {
        RunSpec::Fail { .. } => {},
        RunSpec::Done { out, .. } => {
            match spec_step(m, lines[0], ids) {
                StepSpec::Fail(_) => {},
                StepSpec::Step { m: m2, out: em, done, hit, .. } => {
                    lemma_selection(m, lines[0], ids);
                    assert(em == m.store.push(lines[0]));
                    assert(m2.state == State::Write);
                    assert(!done);
                    match spec_run(m2, lines.drop_first(), ids) {
                        RunSpec::Fail { .. } => {},
                        RunSpec::Done { out: rest, .. } => {
                            let k = m.store.len() + 1;
                            assert(out =~= em + rest);
                            assert(out.subrange(0, k as int) =~= em);
                            assert(out.skip(k as int) =~= rest);
                            lemma_verbatim_copy(m2, lines.drop_first(), ids);
                        },
                    }
                },
            }
        },
    }
}

/// The skipped span of a rejected page: nothing of the first `c`
/// lines reaches the output, line `c` (if the input goes on) closes
/// the page without being emitted, and the output is exactly what
/// the run emits once it resumes past that line.
pub open spec fn discard_block(
    m: Model,
    lines: Seq<Seq<u8>>,
    ids: Set<u64>,
    out: Seq<Seq<u8>>,
    c: int,
) -> bool {
    &&& 0 <= c <= lines.len()
    &&& (forall|k: int| 0 <= k < c ==> !is_page_close_line(#[trigger] lines[k]))
    &&& (c == lines.len() ==> out == Seq::<Seq<u8>>::empty())
    &&& (c < lines.len() ==> (is_page_close_line(lines[c]) && (spec_run(
        Model { state: State::Wiki, ..m },
        lines.skip(c + 1),
        ids,
    ) matches RunSpec::Done { out: o2, .. } && out == o2)))
}

/// P3 at run granularity: while a rejected page is being skipped,
/// nothing at all reaches the output — the run's output is exactly
/// the output of the run that resumes after the page's `</page>`
/// line.
#[verifier::rlimit(60)]
pub proof fn lemma_discarded_page_output(m: Model, lines: Seq<Seq<u8>>, ids: Set<u64>)
    requires
        m.state == State::Skip,
    ensures
        spec_run(m, lines, ids) matches RunSpec::Done { out, .. } ==> exists|c: int|
            #[trigger] discard_block(m, lines, ids, out, c),
    decreases lines.len(),
{
    match spec_run(m, lines, ids) {
        RunSpec::Fail { .. } => {},
        RunSpec::Done { out, .. } => {
            if lines.len() == 0 {
                assert(out =~= Seq::<Seq<u8>>::empty());
                assert(discard_block(m, lines, ids, out, 0));
            } else {
                match spec_step(m, lines[0], ids) {
                    StepSpec::Fail(_) => {},
                    StepSpec::Step { m: m2, out: em, done, .. } => {
                        assert(em =~= Seq::<Seq<u8>>::empty());
                        assert(!done);
                        if is_page_close_line(lines[0]) {
                            assert(m2 =~= (Model { state: State::Wiki, ..m }));
                            match spec_run(m2, lines.drop_first(), ids) {
                                RunSpec::Fail { .. } => {},
                                RunSpec::Done { out: rest, .. } => {
                                    assert(out =~= rest);
                                    assert(lines.drop_first() =~= lines.skip(1));
                                    assert(discard_block(m, lines, ids, out, 0));
                                },
                            }
                        } else {
                            assert(m2 =~= m);
                            lemma_discarded_page_output(m2, lines.drop_first(), ids);
                            match spec_run(m2, lines.drop_first(), ids) {
                                RunSpec::Fail { .. } => {},
                                RunSpec::Done { out: rest, .. } => {
                                    assert(out =~= rest);
                                    let c2 = choose|c2: int|
                                        #[trigger] discard_block(
                                            m2,
                                            lines.drop_first(),
                                            ids,
                                            rest,
                                            c2,
                                        );
                                    assert(discard_block(m2, lines.drop_first(), ids, rest, c2));
                                    let c = c2 + 1;
                                    assert forall|k: int| 0 <= k < c implies !is_page_close_line(
                                        #[trigger] lines[k],
                                    ) by {
                                        if k > 0 {
                                            assert(!is_page_close_line(
                                                lines.drop_first()[k - 1],
                                            ));
                                        }
                                    }
                                    if c < lines.len() {
                                        assert(lines.drop_first().skip(c2 + 1) =~= lines.skip(
                                            c + 1,
                                        )) by {
                                            let a = lines.drop_first().skip(c2 + 1);
                                            let b = lines.skip(c + 1);
                                            assert(a.len() == b.len());
                                            assert forall|i: int| 0 <= i < a.len() implies a[i]
                                                == b[i] by {
                                                assert(a[i] == lines.drop_first()[c2 + 1 + i]);
                                                assert(lines.drop_first()[c2 + 1 + i] == lines[c2
                                                    + 2 + i]);
                                                assert(b[i] == lines[c + 1 + i]);
                                            }
                                        }
                                        assert(lines[c] == lines.drop_first()[c2]);
                                        assert((Model { state: State::Wiki, ..m2 }) =~= (Model {
                                            state: State::Wiki,
                                            ..m
                                        }));
                                    }
                                    assert(discard_block(m, lines, ids, out, c));
                                },
                            }
                        }
                    },
                }
            }
        },
    }
}

} // verus!
