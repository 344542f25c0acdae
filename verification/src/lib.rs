//! A small pattern matcher: a pattern is compiled into a graph of states,
//! and a subject string is walked through that graph one character at a
//! time, always along the first edge that takes the character.
#![allow(clippy::needless_range_loop)]

use vstd::prelude::*;

pub mod compiler;
pub mod engine;
pub mod laws;
pub mod model;

use crate::compiler::{outcome, CompileError, RegexCompiler};
use crate::engine::EngineState;
use crate::model::{compiled, listed, well_formed, Edge, Graph, Items, Matcher};

verus! {

/// Whether a matcher takes the characters of its set or all the others.
#[derive(Debug, Clone, Copy, PartialEq, Eq, Structural)]
pub enum MatchType {
    Is,
    IsNot,
}

/// Either a single item or a list of them.
#[derive(Debug, Clone)]
pub enum OneOrMore<T> {
    One(T),
    More(Vec<T>),
}

impl<T> View for OneOrMore<T> {
    type V = Items<T>;

    open spec fn view(&self) -> Items<T> {
        match self {
            OneOrMore::One(x) => Items::One(*x),
            OneOrMore::More(v) => Items::More(v@),
        }
    }
}

/// A predicate on one character: a set of characters and a polarity.
#[derive(Debug, Clone)]
pub struct CharMatcher {
    ty: MatchType,
    elems: OneOrMore<char>,
}

impl View for CharMatcher {
    type V = Matcher;

    closed spec fn view(&self) -> Matcher {
        Matcher { ty: self.ty, elems: self.elems@ }
    }
}

/// `String::push` of std: the string afterwards is the string before with
/// `ch` added at its end.
pub assume_specification[ String::push ](s: &mut String, ch: char)
    ensures
        final(s)@ == old(s)@.push(ch),
;

impl CharMatcher {
    /// The matcher of the characters `elems`, taken or left out as `ty`
    /// says.
    pub fn new(ty: MatchType, elems: OneOrMore<char>) -> (m: Self)
        ensures
            m@ == (Matcher { ty, elems: elems@ }),
    {
        Self { ty, elems }
    }

    /// Whether this matcher takes `chr`: membership in the set, turned
    /// round for an excluding matcher.
    pub fn matches(&self, chr: char) -> (b: bool)
        ensures
            b == self@.accepts(chr),
    {
        let m = match &self.elems {
            OneOrMore::One(o) => {
                assert(seq![*o].contains(chr) <==> *o == chr) by {
                    assert(seq![*o][0] == *o);
                }
                *o == chr
            },
            OneOrMore::More(v) => {
                let mut found = false;
                for i in 0..v.len()
                    invariant
                        found <==> exists|k: int| 0 <= k < i && v@[k] == chr,
                {
                    if v[i] == chr {
                        found = true;
                    }
                }
                found
            },
        };
        match self.ty {
            MatchType::Is => m,
            MatchType::IsNot => !m,
        }
    }

    /// The matcher as text: the character itself, `[^c]` for an excluded
    /// one, and a bracketed list separated by `", "` for a set.
    pub fn label(&self) -> (s: String)
        ensures
            s@ == self@.label(),
    {
        let mut out = String::new();
        match &self.elems {
            OneOrMore::One(c) => {
                match self.ty {
                    MatchType::Is => {
                        out.push(*c);
                    },
                    MatchType::IsNot => {
                        out.push('[');
                        out.push('^');
                        out.push(*c);
                        out.push(']');
                    },
                }
            },
            OneOrMore::More(v) => {
                out.push('[');
                match self.ty {
                    MatchType::Is => {},
                    MatchType::IsNot => {
                        out.push('^');
                    },
                }
                if v.len() == 0 {
                    out.push(']');
                    return out;
                }
                let ghost head = out@;
                let last: usize = v.len() - 1;
                for i in 0..last
                    invariant
                        last == v.len() - 1,
                        out@ == head + listed(v@.take(i as int)),
                {
                    out.push(v[i]);
                    out.push(',');
                    out.push(' ');
                    proof {
                        assert(v@.take(i + 1).drop_last() =~= v@.take(i as int));
                    }
                }
                proof {
                    assert(v@.drop_last() =~= v@.take(last as int));
                }
                out.push(v[last]);
                out.push(']');
            },
        }
        out
    }
}

/// One state of the graph: its edges, in the order in which they are tried.
#[derive(Debug)]
pub struct RegexState {
    pub next: Vec<(CharMatcher, EngineState)>,
}

impl View for RegexState {
    type V = Seq<Edge>;

    open spec fn view(&self) -> Seq<Edge> {
        Seq::new(self.next@.len(), |i: int| Edge { on: self.next@[i].0@, to: self.next@[i].1@ })
    }
}

/// The graph of the model that a list of states stands for.
pub open spec fn graph_of(states: Seq<RegexState>) -> Graph {
    Seq::new(states.len(), |i: int| states[i]@)
}

/// The graph of the pattern `re`, which must have one.
pub fn build_states(re: &str) -> (graph: Vec<RegexState>)
    requires
        compiled(re@) is Ok,
    ensures
        compiled(re@) == Ok::<Graph, CompileError>(graph_of(graph@)),
        well_formed(graph_of(graph@)),
{
    RegexCompiler::new(re).compile()
}

/// The graph of the pattern `re`, or why it has none.
pub fn try_build_states(re: &str) -> (r: Result<Vec<RegexState>, CompileError>)
    ensures
        outcome(r) == compiled(re@),
        r matches Ok(graph) ==> well_formed(graph_of(graph@)),
{
    RegexCompiler::new(re).try_compile()
}

/// The characters of `s`, in order.
pub(crate) fn chars_of(s: &str) -> (out: Vec<char>)
    ensures
        out@ == s@,
{
    let mut out: Vec<char> = Vec::new();
    for c in it: s.chars()
        invariant
            it.seq() == s@,
            out@ == s@.take(it.index() as int),
    {
        out.push(c);
    }
    out
}

} // verus!
