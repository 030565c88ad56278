//! The dump filter state machine.
//!
//! One `Filter` drives a six-state automaton over classified lines:
//! it re-emits the `<mediawiki>` wrapper and the `<siteinfo>` block,
//! buffers the opening lines of each `<page>` until the page's `<id>`
//! line decides its fate, then either flushes the buffer and copies
//! the page through verbatim, or discards it, according to whether
//! the identifier belongs to the caller's set.

use vstd::prelude::*;

use crate::idset::IdSet;
use crate::numbers::{u64_of_text, valid_u64_text};
use crate::numbers::parse_u64;
use crate::tags::{
    classify, copy_range, extract_inner, has_inner, id_name, inner_text, lemma_inner_text,
    nm_id, nm_title, spec_classify, spec_tag_kind, title_name, LineClass, SpecClass, TagKind,
};

verus! {

/// The six structural states of one filter run.
#[derive(Copy, Clone, Debug, PartialEq, Eq, Structural)]
pub enum State {
    /// Before `<mediawiki>` (and again after `</mediawiki>`).
    Null,
    /// Inside `<mediawiki>`, between pages.
    Wiki,
    /// Inside `<siteinfo>`: copied through verbatim.
    Site,
    /// Inside `<page>`, before the deciding `<id>` line.
    Page,
    /// Inside a selected page: copied through verbatim.
    Write,
    /// Inside a rejected page: dropped.
    Skip,
}

/// The mathematical state of a filter run.
#[verifier::ext_equal]
pub ghost struct Model {
    pub state: State,
    /// The buffered opening lines of the current page.
    pub store: Seq<Seq<u8>>,
    /// The text of the page's most recent `<title>` line.
    pub title: Seq<u8>,
    /// Pages whose `<id>` line has been seen.
    pub total: nat,
    /// Selected pages whose closing `</page>` line has been emitted.
    pub hits: nat,
}

/// The byte sequences of a sequence of line vectors.
pub open spec fn lv(s: Seq<Vec<u8>>) -> Seq<Seq<u8>> {
    Seq::new(s.len(), |i: int| s[i]@)
}

pub proof fn lemma_lv_push(s: Seq<Vec<u8>>, v: Vec<u8>)
    ensures
        lv(s.push(v)) == lv(s).push(v@),
{
    assert(lv(s.push(v)) =~= lv(s).push(v@));
}

pub proof fn lemma_lv_concat(a: Seq<Vec<u8>>, b: Seq<Vec<u8>>)
    ensures
        lv(a + b) == lv(a) + lv(b),
{
    assert(lv(a + b) =~= lv(a) + lv(b));
}

/// The model of a freshly created filter.
pub open spec fn init_model() -> Model {
    Model { state: State::Null, store: Seq::empty(), title: Seq::empty(), total: 0, hits: 0 }
}

/// Invariants of every reachable filter state: the counters are
/// consistent, and lines are buffered exactly while a page awaits its
/// `<id>` line.
pub open spec fn wf(m: Model) -> bool {
    &&& m.hits <= m.total
    &&& (m.state == State::Write ==> m.hits < m.total)
    &&& (m.state == State::Page <==> m.store.len() >= 1)
}

/// A fatal error of the run, as the specification sees it.
pub ghost enum SpecErr {
    /// A line holds a `<` but no readable tag name.
    TagLine,
    /// A `<title>` line inside a page without inline text.
    TitleLine,
    /// An `<id>` line inside a page without inline text.
    IdLine,
    /// An `<id>` text that is not an unsigned 64-bit integer.
    IdNumber(Seq<u8>),
    /// A tag for which the current state has no transition.
    Tag(State, Seq<u8>),
    /// A content line in a state that admits none.
    Line(State),
    /// Input ended outside `Null`.
    Eof(State),
}

/// A fatal error of the run.
#[derive(Debug, PartialEq, Eq)]
pub enum FilterError {
    TagLine,
    TitleLine,
    IdLine,
    IdNumber { text: Vec<u8> },
    Tag { state: State, name: Vec<u8> },
    Line { state: State },
    Eof { state: State },
}

impl View for FilterError {
    type V = SpecErr;

    open spec fn view(&self) -> SpecErr {
        match self {
            FilterError::TagLine => SpecErr::TagLine,
            FilterError::TitleLine => SpecErr::TitleLine,
            FilterError::IdLine => SpecErr::IdLine,
            FilterError::IdNumber { text } => SpecErr::IdNumber(text@),
            FilterError::Tag { state, name } => SpecErr::Tag(*state, name@),
            FilterError::Line { state } => SpecErr::Line(*state),
            FilterError::Eof { state } => SpecErr::Eof(*state),
        }
    }
}

/// What one step does, as the specification sees it.
pub ghost enum StepSpec {
    Step {
        /// The state after the step.
        m: Model,
        /// The lines the step emits, in order.
        out: Seq<Seq<u8>>,
        /// The run terminates normally after this step.
        done: bool,
        /// The step flushed a selected page's buffered lines.
        hit: bool,
        /// The identifier the step resolved, where the line was a
        /// page's `<id>` line.
        id: Option<u64>,
    },
    Fail(SpecErr),
}

/// One transition of the automaton on a line that carries tag name `t`.
pub open spec fn spec_step_tag(m: Model, l: Seq<u8>, t: Seq<u8>, ids: Set<u64>) -> StepSpec {
    let k = spec_tag_kind(t);
    match m.state {
        State::Null => if k == TagKind::Mediawiki {
            StepSpec::Step {
                m: Model { state: State::Wiki, ..m },
                out: seq![l],
                done: false,
                hit: false,
                id: None,
            }
        } else {
            StepSpec::Fail(SpecErr::Tag(m.state, t))
        },
        State::Wiki => if k == TagKind::Siteinfo {
            StepSpec::Step {
                m: Model { state: State::Site, ..m },
                out: seq![l],
                done: false,
                hit: false,
                id: None,
            }
        } else if k == TagKind::Page {
            StepSpec::Step {
                m: Model { state: State::Page, store: seq![l], ..m },
                out: seq![],
                done: false,
                hit: false,
                id: None,
            }
        } else if k == TagKind::MediawikiClose {
            StepSpec::Step {
                m: Model { state: State::Null, ..m },
                out: seq![l],
                done: true,
                hit: false,
                id: None,
            }
        } else {
            StepSpec::Fail(SpecErr::Tag(m.state, t))
        },
        State::Site => if k == TagKind::SiteinfoClose {
            StepSpec::Step {
                m: Model { state: State::Wiki, ..m },
                out: seq![l],
                done: false,
                hit: false,
                id: None,
            }
        } else {
            StepSpec::Step { m, out: seq![l], done: false, hit: false, id: None }
        },
        State::Page => if k == TagKind::Title {
            if has_inner(l, nm_title()) {
                StepSpec::Step {
                    m: Model { title: inner_text(l, nm_title()), store: m.store.push(l), ..m },
                    out: seq![],
                    done: false,
                    hit: false,
                    id: None,
                }
            } else {
                StepSpec::Fail(SpecErr::TitleLine)
            }
        } else if k == TagKind::Ns {
            StepSpec::Step {
                m: Model { store: m.store.push(l), ..m },
                out: seq![],
                done: false,
                hit: false,
                id: None,
            }
        } else if k == TagKind::Id {
            if !has_inner(l, nm_id()) {
                StepSpec::Fail(SpecErr::IdLine)
            } else {
                let txt = inner_text(l, nm_id());
                if !valid_u64_text(txt) {
                    StepSpec::Fail(SpecErr::IdNumber(txt))
                } else {
                    let v = u64_of_text(txt) as u64;
                    if ids.contains(v) {
                        StepSpec::Step {
                            m: Model {
                                state: State::Write,
                                store: seq![],
                                total: m.total + 1,
                                ..m
                            },
                            out: m.store.push(l),
                            done: false,
                            hit: true,
                            id: Some(v),
                        }
                    } else {
                        StepSpec::Step {
                            m: Model {
                                state: State::Skip,
                                store: seq![],
                                total: m.total + 1,
                                ..m
                            },
                            out: seq![],
                            done: false,
                            hit: false,
                            id: Some(v),
                        }
                    }
                }
            }
        } else {
            StepSpec::Fail(SpecErr::Tag(m.state, t))
        },
        State::Write => if k == TagKind::PageClose {
            StepSpec::Step {
                m: Model { state: State::Wiki, hits: m.hits + 1, ..m },
                out: seq![l],
                done: false,
                hit: false,
                id: None,
            }
        } else {
            StepSpec::Step { m, out: seq![l], done: false, hit: false, id: None }
        },
        State::Skip => if k == TagKind::PageClose {
            StepSpec::Step {
                m: Model { state: State::Wiki, ..m },
                out: seq![],
                done: false,
                hit: false,
                id: None,
            }
        } else {
            StepSpec::Step { m, out: seq![], done: false, hit: false, id: None }
        },
    }
}

/// One transition of the automaton on a raw line.
pub open spec fn spec_step(m: Model, l: Seq<u8>, ids: Set<u64>) -> StepSpec {
    match spec_classify(l) {
        SpecClass::Content => match m.state {
            State::Site | State::Write => (StepSpec::Step {
                m,
                out: seq![l],
                done: false,
                hit: false,
                id: None,
            }),
            State::Skip => (StepSpec::Step {
                m,
                out: seq![],
                done: false,
                hit: false,
                id: None,
            }),
            _ => StepSpec::Fail(SpecErr::Line(m.state)),
        },
        SpecClass::Malformed => StepSpec::Fail(SpecErr::TagLine),
        SpecClass::Tagged(t) => spec_step_tag(m, l, t, ids),
    }
}

/// The progress observation the step hands the caller's side channel
/// when `total` reaches a multiple of the reporting interval.
#[derive(Debug)]
pub struct Progress {
    pub total: u64,
    pub hits: u64,
    pub id: u64,
}

/// What one executable step reports back.
#[derive(Debug)]
pub struct StepOut {
    /// The closing wrapper tag was emitted: the run is over.
    pub done: bool,
    /// A selected page's buffered lines were just flushed.
    pub hit: bool,
    /// A progress observation, owed every `REPORT_INTERVAL` pages.
    pub progress: Option<Progress>,
}

/// How many pages lie between two progress observations.
pub const REPORT_INTERVAL: u64 = 1000;

/// Copy a line.
fn clone_line(line: &Vec<u8>) -> (r: Vec<u8>)
    ensures
        r@ == line@,
{
    let r = copy_range(line, 0, line.len());
    proof {
        assert(line@.subrange(0, line@.len() as int) =~= line@);
    }
    r
}

/// One filter run's state: the automaton state, the buffered page
/// prefix, the current title, and the two run counters.
pub struct Filter {
    state: State,
    store: Vec<Vec<u8>>,
    title: Vec<u8>,
    total: u64,
    hits: u64,
}

impl View for Filter {
    type V = Model;

    closed spec fn view(&self) -> Model {
        Model {
            state: self.state,
            store: lv(self.store@),
            title: self.title@,
            total: self.total as nat,
            hits: self.hits as nat,
        }
    }
}

impl Filter {
    /// A fresh run: `Null` state, nothing buffered, counters at zero.
    pub fn new() -> (r: Filter)
        ensures
            r@ == init_model(),
            wf(r@),
    {
        let r = Filter {
            state: State::Null,
            store: Vec::new(),
            title: Vec::new(),
            total: 0,
            hits: 0,
        };
        proof {
            assert(lv(r.store@) =~= Seq::<Seq<u8>>::empty());
            assert(r@ =~= init_model());
        }
        r
    }

    /// The automaton state.
    pub fn state(&self) -> (r: State)
        ensures
            r == self@.state,
    {
        self.state
    }

    /// Pages whose `<id>` line has been seen so far.
    pub fn total(&self) -> (r: u64)
        ensures
            r as nat == self@.total,
    {
        self.total
    }

    /// Selected pages emitted and closed so far.
    pub fn hits(&self) -> (r: u64)
        ensures
            r as nat == self@.hits,
    {
        self.hits
    }

    /// The text of the most recent `<title>` line.
    pub fn title(&self) -> (r: &Vec<u8>)
        ensures
            r@ == self@.title,
    {
        &self.title
    }

    /// How many lines are buffered for the current page.
    pub fn buffered(&self) -> (r: usize)
        ensures
            r as nat == self@.store.len(),
    {
        self.store.len()
    }

    /// Consume one line: classify it, drive the transition table, and
    /// append whatever the table emits to `out`.  The relation to the
    /// specification automaton is exact: the step succeeds, changes
    /// state, and emits lines precisely as `spec_step` says.
    pub fn step(&mut self, line: &Vec<u8>, ids: &IdSet, out: &mut Vec<Vec<u8>>) -> (r: Result<
        StepOut,
        FilterError,
    >)
        requires
            wf(old(self)@),
            old(self)@.total < u64::MAX as nat,
        ensures
            match spec_step(old(self)@, line@, ids@) {
                StepSpec::Step { m, out: emitted, done, hit, id } => {
                    &&& r matches Ok(so) && so.done == done && so.hit == hit && (so.progress
                        matches Some(p) ==> id == Some(p.id) && p.total as nat == m.total
                        && p.hits as nat == m.hits)
                    &&& (r matches Ok(so) ==> ((so.progress is Some) <==> (id is Some
                        && m.total % (REPORT_INTERVAL as nat) == 0)))
                    &&& final(self)@ == m
                    &&& wf(m)
                    &&& lv(final(out)@) == lv(old(out)@) + emitted
                },
                StepSpec::Fail(e) => {
                    &&& r matches Err(fe) && fe@ == e
                    &&& final(self)@ == old(self)@
                    &&& final(out)@ == old(out)@
                },
            },
    {
        let ghost m0 = self@;
        match classify(line) {
            Err(_) => Err(FilterError::TagLine),
            Ok(LineClass::Content) => match self.state {
                State::Site | State::Write => {
                    out.push(clone_line(line));
                    proof {
                        lemma_lv_push(old(out)@, final(out)@.last());
                        assert(lv(final(out)@) =~= lv(old(out)@) + seq![line@]);
                    }
                    Ok(StepOut { done: false, hit: false, progress: None })
                },
                State::Skip => {
                    proof {
                        assert(lv(final(out)@) =~= lv(old(out)@) + Seq::<Seq<u8>>::empty());
                    }
                    Ok(StepOut { done: false, hit: false, progress: None })
                },
                s => Err(FilterError::Line { state: s }),
            },
            Ok(LineClass::Tagged(kind, name)) => self.step_tag(line, kind, name, ids, out),
        }
    }

    /// The tag half of `step`: drive the transition table on a line
    /// whose tag name is `name`.
    fn step_tag(
        &mut self,
        line: &Vec<u8>,
        kind: TagKind,
        name: Vec<u8>,
        ids: &IdSet,
        out: &mut Vec<Vec<u8>>,
    ) -> (r: Result<StepOut, FilterError>)
        requires
            wf(old(self)@),
            old(self)@.total < u64::MAX as nat,
            kind == spec_tag_kind(name@),
        ensures
            match spec_step_tag(old(self)@, line@, name@, ids@) {
                StepSpec::Step { m, out: emitted, done, hit, id } => {
                    &&& r matches Ok(so) && so.done == done && so.hit == hit && (so.progress
                        matches Some(p) ==> id == Some(p.id) && p.total as nat == m.total
                        && p.hits as nat == m.hits)
                    &&& (r matches Ok(so) ==> ((so.progress is Some) <==> (id is Some
                        && m.total % (REPORT_INTERVAL as nat) == 0)))
                    &&& final(self)@ == m
                    &&& wf(m)
                    &&& lv(final(out)@) == lv(old(out)@) + emitted
                },
                StepSpec::Fail(e) => {
                    &&& r matches Err(fe) && fe@ == e
                    &&& final(self)@ == old(self)@
                    &&& final(out)@ == old(out)@
                },
            },
    {
        let ghost m0 = self@;
        match (self.state, kind) {
            (State::Null, TagKind::Mediawiki) => {
                self.state = State::Wiki;
                out.push(clone_line(line));
                proof {
                    assert(lv(final(out)@) =~= lv(old(out)@) + seq![line@]);
                    assert(final(self)@ =~= (Model { state: State::Wiki, ..m0 }));
                }
                Ok(StepOut { done: false, hit: false, progress: None })
            },
            (State::Wiki, TagKind::Siteinfo) => {
                self.state = State::Site;
                out.push(clone_line(line));
                proof {
                    assert(lv(final(out)@) =~= lv(old(out)@) + seq![line@]);
                    assert(final(self)@ =~= (Model { state: State::Site, ..m0 }));
                }
                Ok(StepOut { done: false, hit: false, progress: None })
            },
            (State::Wiki, TagKind::Page) => {
                self.state = State::Page;
                self.store.clear();
                self.store.push(clone_line(line));
                proof {
                    assert(lv(final(out)@) =~= lv(old(out)@) + Seq::<Seq<u8>>::empty());
                    assert(lv(final(self).store@) =~= seq![line@]);
                    assert(final(self)@ =~= (Model { state: State::Page, store: seq![line@], ..m0 }));
                }
                Ok(StepOut { done: false, hit: false, progress: None })
            },
            (State::Wiki, TagKind::MediawikiClose) => {
                self.state = State::Null;
                out.push(clone_line(line));
                proof {
                    assert(lv(final(out)@) =~= lv(old(out)@) + seq![line@]);
                    assert(final(self)@ =~= (Model { state: State::Null, ..m0 }));
                }
                Ok(StepOut { done: true, hit: false, progress: None })
            },
            (State::Site, TagKind::SiteinfoClose) => {
                self.state = State::Wiki;
                out.push(clone_line(line));
                proof {
                    assert(lv(final(out)@) =~= lv(old(out)@) + seq![line@]);
                    assert(final(self)@ =~= (Model { state: State::Wiki, ..m0 }));
                }
                Ok(StepOut { done: false, hit: false, progress: None })
            },
            (State::Site, _) => {
                out.push(clone_line(line));
                proof {
                    assert(lv(final(out)@) =~= lv(old(out)@) + seq![line@]);
                }
                Ok(StepOut { done: false, hit: false, progress: None })
            },
            (State::Page, TagKind::Title) => {
                let tname = title_name();
                match extract_inner(line, &tname) {
                    None => Err(FilterError::TitleLine),
                    Some((s, e)) => {
                        proof {
                            lemma_inner_text(line@, nm_title(), s - nm_title().len() - 2, e as int);
                        }
                        self.title = copy_range(line, s, e);
                        self.store.push(clone_line(line));
                        proof {
                            lemma_lv_push(old(self).store@, final(self).store@.last());
                            assert(lv(final(out)@) =~= lv(old(out)@) + Seq::<Seq<u8>>::empty());
                            assert(final(self)@ =~= (Model {
                                title: inner_text(line@, nm_title()),
                                store: m0.store.push(line@),
                                ..m0
                            }));
                        }
                        Ok(StepOut { done: false, hit: false, progress: None })
                    },
                }
            },
            (State::Page, TagKind::Ns) => {
                self.store.push(clone_line(line));
                proof {
                    lemma_lv_push(old(self).store@, final(self).store@.last());
                    assert(lv(final(out)@) =~= lv(old(out)@) + Seq::<Seq<u8>>::empty());
                    assert(final(self)@ =~= (Model { store: m0.store.push(line@), ..m0 }));
                }
                Ok(StepOut { done: false, hit: false, progress: None })
            },
            (State::Page, TagKind::Id) => {
                let iname = id_name();
                match extract_inner(line, &iname) {
                    None => Err(FilterError::IdLine),
                    Some((s, e)) => {
                        proof {
                            lemma_inner_text(line@, nm_id(), s - nm_id().len() - 2, e as int);
                        }
                        let txt = copy_range(line, s, e);
                        match parse_u64(&txt) {
                            None => Err(FilterError::IdNumber { text: txt }),
                            Some(v) => {
                                self.total = self.total + 1;
                                let progress = if self.total % REPORT_INTERVAL == 0 {
                                    Some(Progress { total: self.total, hits: self.hits, id: v })
                                } else {
                                    None
                                };
                                if ids.contains(v) {
                                    self.state = State::Write;
                                    out.append(&mut self.store);
                                    out.push(clone_line(line));
                                    proof {
                                        lemma_lv_concat(old(out)@, old(self).store@);
                                        lemma_lv_push(
                                            old(out)@ + old(self).store@,
                                            final(out)@.last(),
                                        );
                                        assert(lv(final(out)@) =~= lv(old(out)@) + m0.store.push(
                                            line@,
                                        ));
                                        assert(lv(final(self).store@)
                                            =~= Seq::<Seq<u8>>::empty());
                                        assert(final(self)@ =~= (Model {
                                            state: State::Write,
                                            store: seq![],
                                            total: m0.total + 1,
                                            ..m0
                                        }));
                                    }
                                    Ok(StepOut { done: false, hit: true, progress })
                                } else {
                                    self.state = State::Skip;
                                    self.store.clear();
                                    proof {
                                        assert(lv(final(out)@) =~= lv(old(out)@)
                                            + Seq::<Seq<u8>>::empty());
                                        assert(lv(final(self).store@)
                                            =~= Seq::<Seq<u8>>::empty());
                                        assert(final(self)@ =~= (Model {
                                            state: State::Skip,
                                            store: seq![],
                                            total: m0.total + 1,
                                            ..m0
                                        }));
                                    }
                                    Ok(StepOut { done: false, hit: false, progress })
                                }
                            },
                        }
                    },
                }
            },
            (State::Write, TagKind::PageClose) => {
                self.state = State::Wiki;
                self.hits = self.hits + 1;
                out.push(clone_line(line));
                proof {
                    assert(lv(final(out)@) =~= lv(old(out)@) + seq![line@]);
                    assert(final(self)@ =~= (Model {
                        state: State::Wiki,
                        hits: m0.hits + 1,
                        ..m0
                    }));
                }
                Ok(StepOut { done: false, hit: false, progress: None })
            },
            (State::Write, _) => {
                out.push(clone_line(line));
                proof {
                    assert(lv(final(out)@) =~= lv(old(out)@) + seq![line@]);
                }
                Ok(StepOut { done: false, hit: false, progress: None })
            },
            (State::Skip, TagKind::PageClose) => {
                self.state = State::Wiki;
                proof {
                    assert(lv(final(out)@) =~= lv(old(out)@) + Seq::<Seq<u8>>::empty());
                    assert(final(self)@ =~= (Model { state: State::Wiki, ..m0 }));
                }
                Ok(StepOut { done: false, hit: false, progress: None })
            },
            (State::Skip, _) => {
                proof {
                    assert(lv(final(out)@) =~= lv(old(out)@) + Seq::<Seq<u8>>::empty());
                }
                Ok(StepOut { done: false, hit: false, progress: None })
            },
            (s, _) => Err(FilterError::Tag { state: s, name }),
        }
    }
}

} // verus!
