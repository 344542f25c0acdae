//! The mathematical model: what a matcher, an edge and a graph are, which
//! graph a pattern stands for, and which subjects a graph accepts.
use vstd::prelude::*;

use crate::compiler::CompileError;
use crate::MatchType;

verus! {

/// The items of a `OneOrMore`, as a value of the model.
pub ghost enum Items<T> {
    One(T),
    More(Seq<T>),
}

impl<T> Items<T> {
    /// The items in order; a single item is a sequence of one.
    pub open spec fn seq(self) -> Seq<T> {
        match self {
            Items::One(x) => seq![x],
            Items::More(v) => v,
        }
    }
}

/// A matcher of the model: a polarity and a set of characters.
pub ghost struct Matcher {
    pub ty: MatchType,
    pub elems: Items<char>,
}

/// Every character of `s`, each followed by a comma and a space.
pub open spec fn listed(s: Seq<char>) -> Seq<char>
    decreases s.len(),
{
    if s.len() == 0 {
        Seq::empty()
    } else {
        listed(s.drop_last()) + seq![s.last(), ',', ' ']
    }
}

impl Matcher {
    /// The including matcher of the single character `c`.
    pub open spec fn is(c: char) -> Matcher {
        Matcher { ty: MatchType::Is, elems: Items::One(c) }
    }

    /// The matcher of every character but `c`.
    pub open spec fn is_not(c: char) -> Matcher {
        Matcher { ty: MatchType::IsNot, elems: Items::One(c) }
    }

    /// Membership in the set, exclusive-or the excluding polarity.
    pub open spec fn accepts(self, c: char) -> bool {
        self.elems.seq().contains(c) != (self.ty == MatchType::IsNot)
    }

    /// The text that names this matcher: the character itself; for
    /// anything but that character, `[^` before it and `]` behind; for a
    /// set its characters between `[`, or `[^`, and `]`, with a comma and
    /// a space between one and the next.
    pub open spec fn label(self) -> Seq<char> {
        let lead = if self.ty == MatchType::Is {
            seq!['[']
        } else {
            seq!['[', '^']
        };
        match self.elems {
            Items::One(c) => if self.ty == MatchType::Is {
                seq![c]
            } else {
                lead + seq![c, ']']
            },
            Items::More(v) => if v.len() == 0 {
                lead + seq![']']
            } else {
                lead + listed(v.drop_last()) + seq![v.last(), ']']
            },
        }
    }
}

/// Where an edge leads: to a state by its index, to rejection or to
/// acceptance.
pub ghost enum Target {
    Index(nat),
    Failed,
    Done,
}

/// An edge of the model: the matcher that guards it and where it leads.
pub ghost struct Edge {
    pub on: Matcher,
    pub to: Target,
}

/// A state is its edges in the order of trial; a graph is its states.
pub type Graph = Seq<Seq<Edge>>;

/// What parsing a stretch of a pattern gives: the position behind it and
/// the states that it adds to the graph.
pub ghost struct Parsed {
    pub end: nat,
    pub states: Graph,
}

/// The result `then` with the states `before` put in front of its own.
pub open spec fn after(before: Graph, then: Result<Parsed, CompileError>) -> Result<
    Parsed,
    CompileError,
> {
    match then {
        Err(e) => Err(e),
        Ok(rest) => Ok(Parsed { end: rest.end, states: before + rest.states }),
    }
}

/// The state of a unit whose character is `c`, followed in the pattern by
/// what stands at `at`. `back` is where the repetition of `c` leads, `own`
/// the index that the state gets.
///
/// Nothing behind the unit: one edge, to acceptance. A `+`: the repetition
/// first, then either the character behind the `+`, which is used up and
/// leads on, or, at the end of the pattern, anything but `c`, which
/// accepts. Any other character: one edge to the next state.
pub open spec fn unit_state(p: Seq<char>, at: nat, c: char, back: nat, own: nat) -> Result<
    Parsed,
    CompileError,
> {
    if at >= p.len() {
        Ok(Parsed { end: at, states: seq![seq![Edge { on: Matcher::is(c), to: Target::Done }]] })
    } else if p[at as int] == '?' || p[at as int] == '*' {
        Err(CompileError::UnsupportedQuantifier)
    } else if p[at as int] == '+' {
        let again = Edge { on: Matcher::is(c), to: Target::Index(back) };
        if at + 1 < p.len() {
            let onward = Edge { on: Matcher::is(p[at + 1 as int]), to: Target::Index(own + 1) };
            Ok(Parsed { end: at + 2, states: seq![seq![again, onward]] })
        } else {
            let out = Edge { on: Matcher::is_not(c), to: Target::Done };
            Ok(Parsed { end: at + 1, states: seq![seq![again, out]] })
        }
    } else {
        Ok(
            Parsed {
                end: at,
                states: seq![seq![Edge { on: Matcher::is(c), to: Target::Index(own + 1) }]],
            },
        )
    }
}

/// One unit of the pattern `p` at position `at`, when `base` states exist
/// already: a literal character, or a group in parentheses.
///
/// A group's content is parsed as units of its own up to the closing
/// parenthesis; the state of the group itself comes behind them, stands
/// for the group's first character, and repeats into the state behind the
/// first one of the group. A group that the pattern does not close is
/// malformed. A `*` or a `?` where a unit should begin is a quantifier
/// with nothing to quantify, and as little supported as behind a unit;
/// any other character, a `+` or a `)` too, is a literal there.
pub open spec fn unit_at(p: Seq<char>, at: nat, base: nat) -> Result<Parsed, CompileError>
    decreases p.len() - at, 0nat,
{
    if at >= p.len() {
        Ok(Parsed { end: at, states: Seq::empty() })
    } else if p[at as int] == '(' {
        if at + 1 >= p.len() {
            Err(CompileError::MalformedPattern)
        } else {
            match units_from(p, at + 1, base, true) {
                Err(e) => Err(e),
                Ok(inner) => if inner.end >= p.len() {
                    Err(CompileError::MalformedPattern)
                } else {
                    after(
                        inner.states,
                        unit_state(
                            p,
                            inner.end + 1,
                            p[at + 1 as int],
                            base + 1,
                            base + inner.states.len(),
                        ),
                    )
                },
            }
        }
    } else if p[at as int] == '*' || p[at as int] == '?' {
        Err(CompileError::UnsupportedQuantifier)
    } else {
        unit_state(p, at + 1, p[at as int], base, base)
    }
}

/// The units of `p` from `at` on, one after the other: up to the end of
/// the pattern, and inside a group up to the first closing parenthesis
/// that stands where a unit would begin.
///
/// A unit always ends behind where it begins, and within the pattern; the
/// test for it is there to show that the definition comes to an end.
pub open spec fn units_from(p: Seq<char>, at: nat, base: nat, in_group: bool) -> Result<
    Parsed,
    CompileError,
>
    decreases p.len() - at, 1nat,
{
    if at >= p.len() || (in_group && p[at as int] == ')') {
        Ok(Parsed { end: at, states: Seq::empty() })
    } else {
        match unit_at(p, at, base) {
            Err(e) => Err(e),
            Ok(first) => if first.end <= at || first.end > p.len() {
                Ok(first)
            } else {
                after(
                    first.states,
                    units_from(p, first.end, base + first.states.len(), in_group),
                )
            },
        }
    }
}

/// The edge `e` in a graph of `n` states: an edge to the index `n`, one
/// past the last state, leads to acceptance.
pub open spec fn closed_edge(e: Edge, n: nat) -> Edge {
    if e.to == Target::Index(n) {
        Edge { on: e.on, to: Target::Done }
    } else {
        e
    }
}

/// The graph `g` with each of its edges closed.
pub open spec fn closed_graph(g: Graph) -> Graph {
    Seq::new(g.len(), |i: int| Seq::new(g[i].len(), |j: int| closed_edge(g[i][j], g.len())))
}

/// The graph that the pattern `p` stands for, or why it has none.
pub open spec fn compiled(p: Seq<char>) -> Result<Graph, CompileError> {
    match units_from(p, 0, 0, false) {
        Err(e) => Err(e),
        Ok(all) => Ok(closed_graph(all.states)),
    }
}

/// Every edge of `g` that leads to a state leads to one of `g`.
pub open spec fn well_formed(g: Graph) -> bool {
    forall|i: int, j: int|
        0 <= i < g.len() && 0 <= j < g[i].len() ==> match (#[trigger] g[i][j]).to {
            Target::Index(k) => k < g.len(),
            _ => true,
        }
}

/// Where the first of `edges`, from index `k` on, that takes `c` leads.
pub open spec fn first_taking(edges: Seq<Edge>, c: char, k: nat) -> Option<Target>
    decreases edges.len() - k,
{
    if k >= edges.len() {
        None
    } else if edges[k as int].on.accepts(c) {
        Some(edges[k as int].to)
    } else {
        first_taking(edges, c, k + 1)
    }
}

/// The verdict of a walk that stands at `at` with `rest` still to read.
///
/// Acceptance and rejection are final, whatever is left to read. At a
/// state the walk needs a character; it follows the first edge that takes
/// it and rejects where there is none. An index beyond the graph names no
/// state, and rejects.
pub open spec fn walk(g: Graph, rest: Seq<char>, at: Target) -> bool
    decreases rest.len(),
{
    match at {
        Target::Done => true,
        Target::Failed => false,
        Target::Index(i) => if rest.len() == 0 || i >= g.len() {
            false
        } else {
            match first_taking(g[i as int], rest[0], 0) {
                None => false,
                Some(to) => walk(g, rest.drop_first(), to),
            }
        },
    }
}

/// Whether the graph `g` accepts `subject`, walking from its first state.
pub open spec fn accepts(g: Graph, subject: Seq<char>) -> bool {
    walk(g, subject, Target::Index(0))
}

} // verus!
