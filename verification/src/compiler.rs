//! The compiler: from the text of a pattern to its graph of states.
use vstd::prelude::*;

use crate::engine::EngineState;
use crate::laws::compiled_graph_is_well_formed;
use crate::model::{
    after, closed_edge, closed_graph, compiled, unit_at, unit_state, units_from, well_formed, Graph,
};
use crate::{chars_of, graph_of, CharMatcher, MatchType, OneOrMore, RegexState};

verus! {

/// Why a pattern has no graph.
#[derive(Debug, Clone, Copy, PartialEq, Eq, Structural)]
pub enum CompileError {
    /// A group is opened and not closed.
    MalformedPattern,
    /// A `*` or a `?`: quantifiers that this compiler does not build.
    UnsupportedQuantifier,
}

/// What a compilation gave, over the model: the graph that the states
/// stand for, or the error.
pub open spec fn outcome(r: Result<Vec<RegexState>, CompileError>) -> Result<Graph, CompileError> {
    match r {
        Ok(states) => Ok(graph_of(states@)),
        Err(e) => Err(e),
    }
}

/// A pattern on its way to a graph: the text, how far it has been read,
/// and the states built from what has been read.
pub struct RegexCompiler {
    src: Vec<char>,
    pos: usize,
    states: Vec<RegexState>,
}

enum Modifier {
    ZeroPlus,
    Optional,
    OnePlus,
    Once,
}

impl RegexCompiler {
    /// The text of the pattern.
    pub closed spec fn pattern(&self) -> Seq<char> {
        self.src@
    }

    /// Nothing of the pattern has been read yet, and no state built.
    pub closed spec fn is_fresh(&self) -> bool {
        self.pos == 0 && self.states@.len() == 0
    }

    /// Every state has used up at least one character of the pattern.
    spec fn wf(&self) -> bool {
        self.states@.len() <= self.pos <= self.src@.len()
    }

    /// A compiler that has all of `regex` still to read.
    pub fn new(regex: &str) -> (c: Self)
        ensures
            c.pattern() == regex@,
            c.is_fresh(),
    {
        Self { src: chars_of(regex), pos: 0, states: vec![] }
    }

    /// The next character of the pattern, which stays unread.
    fn peek(&self) -> (c: Option<char>)
        requires
            self.wf(),
        ensures
            c == if self.pos < self.src@.len() {
                Some(self.src@[self.pos as int])
            } else {
                None
            },
    {
        if self.pos < self.src.len() {
            Some(self.src[self.pos])
        } else {
            None
        }
    }

    /// Reads the next character of the pattern, if one is left.
    fn bump(&mut self) -> (c: Option<char>)
        requires
            old(self).wf(),
        ensures
            final(self).src@ == old(self).src@,
            final(self).states == old(self).states,
            final(self).wf(),
            old(self).pos < old(self).src@.len() ==> c == Some(old(self).src@[old(self).pos as int])
                && final(self).pos == old(self).pos + 1,
            old(self).pos >= old(self).src@.len() ==> c is None && final(self).pos == old(
                self,
            ).pos,
    {
        if self.pos < self.src.len() {
            let c = self.src[self.pos];
            self.pos += 1;
            Some(c)
        } else {
            None
        }
    }

    /// Parses one unit of the pattern and adds its states.
    fn parse_group(&mut self) -> (r: Result<(), CompileError>)
        requires
            old(self).wf(),
        ensures
            final(self).src@ == old(self).src@,
            match unit_at(old(self).src@, old(self).pos as nat, old(self).states@.len()) {
                Ok(unit) => {
                    &&& r is Ok
                    &&& final(self).wf()
                    &&& final(self).pos == unit.end
                    &&& graph_of(final(self).states@) == graph_of(old(self).states@) + unit.states
                    &&& final(self).states@.len() == old(self).states@.len() + unit.states.len()
                    &&& old(self).pos < old(self).src@.len() ==> old(self).pos < final(self).pos
                },
                Err(e) => r == Err::<(), CompileError>(e),
            },
        decreases old(self).src@.len() - old(self).pos,
    {
        let ghost p = self.src@;
        let ghost at = self.pos as nat;
        let ghost g0 = graph_of(self.states@);
        let ghost base = self.states@.len();
        let mut curr_state = self.states.len();
        let c = match self.bump() {
            Some('(') => {
                let first_char = match self.peek() {
                    Some(c) => c,
                    None => {
                        return Err(CompileError::MalformedPattern);
                    },
                };
                let ghost mut inner: Graph = Seq::empty();
                while self.pos < self.src.len() && self.src[self.pos] != ')'
                    invariant
                        self.wf(),
                        self.src@ == p,
                        p == old(self).src@,
                        at == old(self).pos,
                        at < self.pos,
                        at + 1 < p.len(),
                        graph_of(self.states@) == g0 + inner,
                        g0.len() == base,
                        base == old(self).states@.len(),
                        p[at as int] == '(',
                        self.states@.len() == base + inner.len(),
                        units_from(p, at + 1, base, true) == after(
                            inner,
                            units_from(p, self.pos as nat, base + inner.len(), true),
                        ),
                    decreases p.len() - self.pos,
                {
                    let ghost here = self.pos as nat;
                    let ghost unit = unit_at(p, here, base + inner.len());
                    match self.parse_group() {
                        Ok(()) => {},
                        Err(e) => {
                            return Err(e);
                        },
                    }
                    proof {
                        let unit = unit->Ok_0;
                        let rest = units_from(
                            p,
                            unit.end,
                            base + inner.len() + unit.states.len(),
                            true,
                        );
                        assert(units_from(p, here, base + inner.len(), true) == after(
                            unit.states,
                            rest,
                        ));
                        if let Ok(r) = rest {
                            assert(inner + (unit.states + r.states) =~= (inner + unit.states)
                                + r.states);
                        }
                        assert(g0 + inner + unit.states =~= g0 + (inner + unit.states));
                        inner = inner + unit.states;
                    }
                }
                match self.bump() {
                    Some(')') => {},
                    _ => {
                        return Err(CompileError::MalformedPattern);
                    },
                }
                curr_state += 1;
                first_char
            },
            Some('*') => {
                return Err(CompileError::UnsupportedQuantifier);
            },
            Some('?') => {
                return Err(CompileError::UnsupportedQuantifier);
            },
            Some(c) => c,
            None => {
                return Ok(());
            },
        };
        let ghost built = graph_of(self.states@);
        let ghost then = self.pos as nat;
        let next_state = self.states.len() + 1;
        let next_state = if self.peek().is_some() {
            EngineState::State(next_state)
        } else {
            EngineState::Done
        };
        let new_state = match self.parse_modifiers() {
            Modifier::ZeroPlus => {
                return Err(CompileError::UnsupportedQuantifier);
            },
            Modifier::Optional => {
                return Err(CompileError::UnsupportedQuantifier);
            },
            Modifier::OnePlus => {
                let next = match self.bump() {
                    Some(next) => (CharMatcher::new(MatchType::Is, OneOrMore::One(next)), next_state),
                    None => (
                        CharMatcher::new(MatchType::IsNot, OneOrMore::One(c)),
                        EngineState::Done,
                    ),
                };
                RegexState {
                    next: vec![
                        (
                            CharMatcher::new(MatchType::Is, OneOrMore::One(c)),
                            EngineState::State(curr_state),
                        ),
                        next,
                    ],
                }
            },
            Modifier::Once => RegexState {
                next: vec![(CharMatcher::new(MatchType::Is, OneOrMore::One(c)), next_state)],
            },
        };
        proof {
            let made = unit_state(p, then, c, curr_state as nat, self.states@.len());
            assert(new_state@ =~= made->Ok_0.states[0]);
            assert(graph_of(self.states@.push(new_state)) =~= built + seq![new_state@]);
        }
        self.states.push(new_state);
        Ok(())
    }

    /// Compiles the pattern, or says why it has no graph.
    ///
    /// The units of the pattern are parsed one after the other; then every
    /// edge that leads one past the last state is turned to acceptance.
    pub fn try_compile(self) -> (r: Result<Vec<RegexState>, CompileError>)
        requires
            self.is_fresh(),
        ensures
            outcome(r) == compiled(self.pattern()),
            r matches Ok(graph) ==> well_formed(graph_of(graph@)),
    {
        proof {
            compiled_graph_is_well_formed(self.src@);
        }
        let mut this = self;
        let ghost p = this.src@;
        let ghost mut done: Graph = Seq::empty();
        while this.pos < this.src.len()
            invariant
                this.wf(),
                this.src@ == p,
                p == self.src@,
                graph_of(this.states@) == done,
                units_from(p, 0, 0, false) == after(
                    done,
                    units_from(p, this.pos as nat, done.len(), false),
                ),
            decreases p.len() - this.pos,
        {
            let ghost here = this.pos as nat;
            let ghost unit = unit_at(p, here, done.len());
            match this.parse_group() {
                Ok(()) => {},
                Err(e) => {
                    return Err(e);
                },
            }
            proof {
                let unit = unit->Ok_0;
                let rest = units_from(p, unit.end, done.len() + unit.states.len(), false);
                assert(units_from(p, here, done.len(), false) == after(unit.states, rest));
                if let Ok(r) = rest {
                    assert(done + (unit.states + r.states) =~= (done + unit.states) + r.states);
                }
                done = done + unit.states;
            }
        }
        let mut states = this.states;
        let end = states.len();
        for s in 0..end
            invariant
                states.len() == end,
                done.len() == end,
                forall|i: int| 0 <= i < s ==> (#[trigger] states@[i])@ == closed_graph(done)[i],
                forall|i: int| s <= i < end ==> (#[trigger] states@[i])@ == done[i],
        {
            let n = states[s].next.len();
            for j in 0..n
                invariant
                    s < end,
                    states.len() == end,
                    done.len() == end,
                    states@[s as int].next@.len() == n,
                    done[s as int].len() == n,
                    forall|i: int|
                        0 <= i < s ==> (#[trigger] states@[i])@ == closed_graph(done)[i],
                    forall|i: int| s < i < end ==> (#[trigger] states@[i])@ == done[i],
                    forall|k: int|
                        0 <= k < j ==> (#[trigger] states@[s as int]@[k]) == closed_edge(
                            done[s as int][k],
                            end as nat,
                        ),
                    forall|k: int|
                        j <= k < n ==> (#[trigger] states@[s as int]@[k]) == done[s as int][k],
            {
                let ghost before = states;
                if states[s].next[j].1 == EngineState::State(end) {
                    states[s].next[j].1 = EngineState::Done;
                }
                proof {
                    assert(before@[s as int]@[j as int] == done[s as int][j as int]);
                    assert forall|k: int| 0 <= k < n && k != j implies (
                    #[trigger] states@[s as int]@[k]) == before@[s as int]@[k] by {
                        assert(states@[s as int].next@[k] == before@[s as int].next@[k]);
                    }
                }
            }
            proof {
                assert(states@[s as int]@ =~= closed_graph(done)[s as int]);
            }
        }
        proof {
            assert(graph_of(states@) =~= closed_graph(done));
        }
        Ok(states)
    }

    /// Compiles a pattern that has a graph.
    pub fn compile(self) -> (graph: Vec<RegexState>)
        requires
            self.is_fresh(),
            compiled(self.pattern()) is Ok,
        ensures
            compiled(self.pattern()) == Ok::<Graph, CompileError>(graph_of(graph@)),
            well_formed(graph_of(graph@)),
    {
        match self.try_compile() {
            Ok(graph) => graph,
            Err(_) => vstd::pervasive::unreached(),
        }
    }

    /// Reads the quantifier that stands next in the pattern, if one does.
    fn parse_modifiers(&mut self) -> (md: Modifier)
        requires
            old(self).wf(),
        ensures
            final(self).src@ == old(self).src@,
            final(self).states == old(self).states,
            final(self).wf(),
            md == Self::modifier_at(old(self).src@, old(self).pos as int),
            final(self).pos == if md is Once {
                old(self).pos as int
            } else {
                old(self).pos + 1
            },
    {
        let md = match self.peek() {
            Some('?') => Modifier::Optional,
            Some('*') => Modifier::ZeroPlus,
            Some('+') => Modifier::OnePlus,
            _ => {
                return Modifier::Once;
            },
        };
        self.bump();
        md
    }

    /// The quantifier that the character of `p` at `at` stands for.
    spec fn modifier_at(p: Seq<char>, at: int) -> Modifier {
        if at >= p.len() {
            Modifier::Once
        } else if p[at] == '?' {
            Modifier::Optional
        } else if p[at] == '*' {
            Modifier::ZeroPlus
        } else if p[at] == '+' {
            Modifier::OnePlus
        } else {
            Modifier::Once
        }
    }
}

} // verus!
