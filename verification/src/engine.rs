//! The engine: the walk of a subject through a compiled graph.
use vstd::prelude::*;

use crate::model::{first_taking, walk, Graph, Target};
use crate::{graph_of, RegexState};

verus! {

/// Where the engine stands, and where an edge leads.
#[derive(Debug, Clone, Copy, PartialEq, Eq, Structural)]
pub enum EngineState {
    State(usize),
    Failed,
    Done,
}

impl View for EngineState {
    type V = Target;

    open spec fn view(&self) -> Target {
        match self {
            EngineState::State(i) => Target::Index(*i as nat),
            EngineState::Failed => Target::Failed,
            EngineState::Done => Target::Done,
        }
    }
}

/// One run of a graph over one subject.
pub struct RegexEngine {
    src: Vec<char>,
    pos: usize,
    states: Vec<RegexState>,
    curr_state: EngineState,
}

impl RegexEngine {
    /// The graph that this engine walks.
    pub closed spec fn graph(&self) -> Graph {
        graph_of(self.states@)
    }

    /// What is left of the subject.
    pub closed spec fn unread(&self) -> Seq<char> {
        self.src@.skip(self.pos as int)
    }

    /// Where the walk stands.
    pub closed spec fn state(&self) -> Target {
        self.curr_state@
    }

    #[verifier::type_invariant]
    spec fn within_subject(&self) -> bool {
        self.pos <= self.src@.len()
    }

    /// An engine at the first state of `states`, with all of `src` to read.
    pub fn new(src: &str, states: Vec<RegexState>) -> (e: Self)
        ensures
            e.graph() == graph_of(states@),
            e.unread() == src@,
            e.state() == Target::Index(0),
    {
        let src = crate::chars_of(src);
        Self { curr_state: EngineState::State(0), src, pos: 0, states }
    }

    /// Where the first edge of `state` that takes `chr` leads.
    fn step(state: &RegexState, chr: char) -> (to: Option<EngineState>)
        ensures
            match to {
                Some(t) => first_taking(state@, chr, 0) == Some(t@),
                None => first_taking(state@, chr, 0) is None,
            },
    {
        let mut k: usize = 0;
        while k < state.next.len()
            invariant
                k <= state.next.len(),
                first_taking(state@, chr, 0) == first_taking(state@, chr, k as nat),
            decreases state.next.len() - k,
        {
            if state.next[k].0.matches(chr) {
                return Some(state.next[k].1);
            }
            k += 1;
        }
        None
    }

    /// Walks the subject through the graph and says whether it is accepted.
    pub fn run(self) -> (verdict: bool)
        ensures
            verdict == walk(self.graph(), self.unread(), self.state()),
    {
        proof {
            use_type_invariant(&self);
        }
        let mut curr_state = self.curr_state;
        let mut pos: usize = self.pos;
        loop
            invariant
                pos <= self.src@.len(),
                walk(self.graph(), self.unread(), self.state()) == walk(
                    self.graph(),
                    self.src@.skip(pos as int),
                    curr_state@,
                ),
            decreases self.src@.len() - pos,
        {
            match curr_state {
                EngineState::Done => {
                    return true;
                },
                EngineState::Failed => {
                    return false;
                },
                EngineState::State(state) => {
                    if pos >= self.src.len() || state >= self.states.len() {
                        return false;
                    }
                    let chr = self.src[pos];
                    proof {
                        assert(self.src@.skip(pos as int).drop_first() =~= self.src@.skip(pos + 1));
                    }
                    match Self::step(&self.states[state], chr) {
                        Some(new_state) => {
                            curr_state = new_state;
                            pos += 1;
                        },
                        None => {
                            return false;
                        },
                    }
                },
            }
        }
    }
}

} // verus!
