//! What holds of compiling and running, whatever the pattern and subject.
use vstd::prelude::*;

use crate::compiler::{outcome, CompileError};
use crate::model::{
    accepts, after, closed_graph, compiled, first_taking, unit_at, unit_state, units_from, walk,
    well_formed, Edge, Graph, Matcher, Parsed, Target,
};
use crate::RegexState;

verus! {

/// A character that stands for itself wherever it occurs in a pattern.
pub open spec fn is_plain(c: char) -> bool {
    c != '(' && c != '+' && c != '*' && c != '?'
}

/// A pattern of plain characters only.
pub open spec fn is_literal(p: Seq<char>) -> bool {
    forall|i: int| 0 <= i < p.len() ==> is_plain(#[trigger] p[i])
}

/// The chain of states that spells `p`: one state for each character, with
/// one edge, which takes that character and leads to the next state, and
/// from the last state to acceptance.
pub open spec fn chain(p: Seq<char>) -> Graph {
    Seq::new(
        p.len(),
        |i: int|
            seq![
                Edge {
                    on: Matcher::is(p[i]),
                    to: if i + 1 < p.len() {
                        Target::Index((i + 1) as nat)
                    } else {
                        Target::Done
                    },
                },
            ],
    )
}

/// What the units of a literal pattern from `at` on give: the rest of its
/// chain.
proof fn literal_units(p: Seq<char>, at: nat)
    requires
        is_literal(p),
        at <= p.len(),
    ensures
        units_from(p, at, at, false) == Ok::<Parsed, CompileError>(
            Parsed { end: p.len(), states: chain(p).skip(at as int) },
        ),
    decreases p.len() - at,
{
    if at < p.len() {
        let first = unit_state(p, at + 1, p[at as int], at, at);
        assert(unit_at(p, at, at) == first);
        let first = first->Ok_0;
        literal_units(p, at + 1);
        assert(first.states + chain(p).skip(at + 1 as int) =~= chain(p).skip(at as int));
    } else {
        assert(chain(p).skip(at as int) =~= Seq::empty());
    }
}

/// The graph of a literal pattern is its chain.
pub proof fn literal_pattern_compiles_to_its_chain(p: Seq<char>)
    requires
        is_literal(p),
    ensures
        compiled(p) == Ok::<Graph, CompileError>(chain(p)),
{
    literal_units(p, 0);
    assert(chain(p).skip(0) =~= chain(p));
    assert(closed_graph(chain(p)) =~= chain(p)) by {
        assert forall|i: int| 0 <= i < chain(p).len() implies closed_graph(chain(p))[i]
            =~= chain(p)[i] by {}
    }
}

/// A walk that stands at state `k` of the chain of `p` accepts exactly the
/// texts that begin with the rest of `p`.
proof fn chain_walk(p: Seq<char>, k: nat, rest: Seq<char>)
    requires
        k < p.len(),
    ensures
        walk(chain(p), rest, Target::Index(k)) <==> p.skip(k as int).is_prefix_of(rest),
    decreases p.len() - k,
{
    let g = chain(p);
    let tail = p.skip(k as int);
    if rest.len() > 0 {
        let c = rest[0];
        let edge = g[k as int][0];
        assert(seq![p[k as int]].contains(c) <==> c == p[k as int]) by {
            if c == p[k as int] {
                assert(seq![p[k as int]][0] == c);
            }
        }
        assert(first_taking(g[k as int], c, 1) is None);
        if c == p[k as int] {
            if k + 1 < p.len() {
                chain_walk(p, k + 1, rest.drop_first());
                let next = p.skip(k + 1 as int);
                if next.is_prefix_of(rest.drop_first()) {
                    assert(tail =~= rest.subrange(0, tail.len() as int)) by {
                        assert forall|i: int| 0 <= i < tail.len() implies tail[i] == rest[i] by {
                            if i > 0 {
                                assert(next[i - 1] == rest.drop_first().subrange(
                                    0,
                                    next.len() as int,
                                )[i - 1]);
                            }
                        }
                    }
                }
                if tail.is_prefix_of(rest) {
                    assert(next =~= rest.drop_first().subrange(0, next.len() as int)) by {
                        assert forall|i: int| 0 <= i < next.len() implies next[i]
                            == rest.drop_first()[i] by {
                            assert(tail[i + 1] == rest.subrange(0, tail.len() as int)[i + 1]);
                        }
                    }
                }
            } else {
                assert(walk(g, rest.drop_first(), Target::Done));
            }
        } else if tail.is_prefix_of(rest) {
            assert(tail[0] == rest.subrange(0, tail.len() as int)[0]);
        }
    }
}

/// A literal pattern that is not empty accepts itself, and more exactly
/// every subject that begins with it, and no other.
pub proof fn literal_pattern_accepts_what_begins_with_it(p: Seq<char>, subject: Seq<char>)
    requires
        is_literal(p),
        p.len() > 0,
    ensures
        compiled(p) is Ok,
        accepts(compiled(p)->Ok_0, p),
        accepts(compiled(p)->Ok_0, subject) <==> p.is_prefix_of(subject),
{
    literal_pattern_compiles_to_its_chain(p);
    chain_walk(p, 0, subject);
    chain_walk(p, 0, p);
}

/// Acceptance does not look at what is left of the subject: a walk that
/// accepts `rest` accepts whatever begins with `rest`.
pub proof fn accepted_walk_may_go_on(g: Graph, rest: Seq<char>, more: Seq<char>, at: Target)
    requires
        walk(g, rest, at),
    ensures
        walk(g, rest + more, at),
    decreases rest.len(),
{
    if let Target::Index(i) = at {
        let to = first_taking(g[i as int], rest[0], 0)->Some_0;
        accepted_walk_may_go_on(g, rest.drop_first(), more, to);
        assert((rest + more).drop_first() =~= rest.drop_first() + more);
    }
}

/// A subject that begins with an accepted subject is accepted.
pub proof fn accepted_subject_may_go_on(g: Graph, subject: Seq<char>, more: Seq<char>)
    requires
        accepts(g, subject),
    ensures
        accepts(g, subject + more),
{
    accepted_walk_may_go_on(g, subject, more, Target::Index(0));
}

/// The graph of a character `c` with a `+` behind it, and nothing else:
/// one state, which repeats on `c` and accepts on anything else.
pub open spec fn repeated(c: char) -> Graph {
    seq![
        seq![
            Edge { on: Matcher::is(c), to: Target::Index(0) },
            Edge { on: Matcher::is_not(c), to: Target::Done },
        ],
    ]
}

/// The pattern of a character `c` and a `+` accepts a subject exactly
/// when a character other than `c` occurs in it: the repetitions of `c`
/// are read, and the first other character ends the walk.
pub proof fn repeated_character_accepts_at_another(c: char, subject: Seq<char>)
    requires
        c != '(',
        c != '*',
        c != '?',
    ensures
        compiled(seq![c, '+']) == Ok::<Graph, CompileError>(repeated(c)),
        accepts(repeated(c), subject) <==> exists|k: int|
            0 <= k < subject.len() && subject[k] != c,
    decreases subject.len(),
{
    let p = seq![c, '+'];
    let unit = unit_state(p, 1, c, 0, 0);
    assert(unit_at(p, 0, 0) == unit);
    assert(units_from(p, 0, 0, false) == after(unit->Ok_0.states, units_from(p, 2, 1, false)));
    assert(closed_graph(repeated(c)) =~= repeated(c)) by {
        assert(closed_graph(repeated(c))[0] =~= repeated(c)[0]);
    }
    if subject.len() > 0 {
        let g = repeated(c);
        let first = subject[0];
        assert(seq![c].contains(first) <==> first == c) by {
            assert(seq![c][0] == c);
        }
        if first == c {
            repeated_character_accepts_at_another(c, subject.drop_first());
            if accepts(g, subject.drop_first()) {
                let k = choose|k: int|
                    0 <= k < subject.drop_first().len() && subject.drop_first()[k] != c;
                assert(subject[k + 1] != c);
            }
            if exists|k: int| 0 <= k < subject.len() && subject[k] != c {
                let k = choose|k: int| 0 <= k < subject.len() && subject[k] != c;
                assert(subject.drop_first()[k - 1] != c);
            }
        } else {
            assert(first_taking(g[0], first, 1) == Some(Target::Done));
            assert(walk(g, subject.drop_first(), Target::Done));
        }
    }
}

/// The graph of the empty pattern has no state, and accepts no subject.
pub proof fn empty_pattern_accepts_nothing(subject: Seq<char>)
    ensures
        compiled(Seq::empty()) == Ok::<Graph, CompileError>(Seq::empty()),
        !accepts(Seq::empty(), subject),
{
    literal_pattern_compiles_to_its_chain(Seq::empty());
    assert(chain(Seq::empty()) =~= Seq::empty());
}

/// A unit uses up at least one character of the pattern and adds at least
/// one state.
pub proof fn unit_advances(p: Seq<char>, at: nat, base: nat)
    requires
        at < p.len(),
    ensures
        unit_at(p, at, base) matches Ok(unit) ==> at < unit.end <= p.len() && unit.states.len()
            >= 1,
    decreases p.len() - at, 0nat,
{
    if p[at as int] == '(' && at + 1 < p.len() {
        units_stay_within(p, at + 1, base, true);
    }
}

/// A run of units ends behind where it starts, and within the pattern.
proof fn units_stay_within(p: Seq<char>, at: nat, base: nat, in_group: bool)
    requires
        at <= p.len(),
    ensures
        units_from(p, at, base, in_group) matches Ok(all) ==> at <= all.end <= p.len(),
    decreases p.len() - at, 1nat,
{
    if !(at >= p.len() || (in_group && p[at as int] == ')')) {
        unit_advances(p, at, base);
        if let Ok(first) = unit_at(p, at, base) {
            units_stay_within(p, first.end, base + first.states.len(), in_group);
        }
    }
}

/// Every edge of `g` leads to acceptance or to a state with an index of at
/// most `limit`.
pub open spec fn leads_within(g: Graph, limit: nat) -> bool {
    forall|i: int, j: int|
        0 <= i < g.len() && 0 <= j < g[i].len() ==> match (#[trigger] g[i][j]).to {
            Target::Index(k) => k <= limit,
            Target::Failed => false,
            Target::Done => true,
        }
}

/// No edge of `g` leads to rejection.
pub open spec fn never_fails(g: Graph) -> bool {
    forall|i: int, j: int|
        0 <= i < g.len() && 0 <= j < g[i].len() ==> (#[trigger] g[i][j]).to != Target::Failed
}

/// Putting `first` before `rest` keeps the edges of both within `limit`.
proof fn joined_leads_within(first: Graph, rest: Graph, limit: nat)
    requires
        leads_within(first, limit),
        leads_within(rest, limit),
    ensures
        leads_within(first + rest, limit),
{
    let g = first + rest;
    assert forall|i: int, j: int| 0 <= i < g.len() && 0 <= j < g[i].len() implies match (
    #[trigger] g[i][j]).to {
        Target::Index(k) => k <= limit,
        Target::Failed => false,
        Target::Done => true,
    } by {
        if i < first.len() {
            assert(g[i][j] == first[i][j]);
        } else {
            assert(g[i][j] == rest[i - first.len()][j]);
        }
    }
}

/// The states of one unit lead no further than one past the last of them.
proof fn unit_leads_within(p: Seq<char>, at: nat, base: nat)
    ensures
        unit_at(p, at, base) matches Ok(unit) ==> leads_within(
            unit.states,
            base + unit.states.len(),
        ),
    decreases p.len() - at, 0nat,
{
    if at < p.len() && p[at as int] == '(' && at + 1 < p.len() {
        units_lead_within(p, at + 1, base, true);
        if let Ok(inner) = units_from(p, at + 1, base, true) {
            if inner.end < p.len() {
                let own = base + inner.states.len();
                if let Ok(last) = unit_state(p, inner.end + 1, p[at + 1 as int], base + 1, own) {
                    joined_leads_within(inner.states, last.states, own + 1);
                }
            }
        }
    }
}

/// The states of a run of units lead no further than one past the last of
/// them.
proof fn units_lead_within(p: Seq<char>, at: nat, base: nat, in_group: bool)
    ensures
        units_from(p, at, base, in_group) matches Ok(all) ==> leads_within(
            all.states,
            base + all.states.len(),
        ),
    decreases p.len() - at, 1nat,
{
    if !(at >= p.len() || (in_group && p[at as int] == ')')) {
        unit_leads_within(p, at, base);
        if let Ok(first) = unit_at(p, at, base) {
            if !(first.end <= at || first.end > p.len()) {
                let then = base + first.states.len();
                units_lead_within(p, first.end, then, in_group);
                if let Ok(rest) = units_from(p, first.end, then, in_group) {
                    let limit = then + rest.states.len();
                    joined_leads_within(first.states, rest.states, limit);
                }
            }
        }
    }
}

/// In the graph of a pattern every edge leads to acceptance or to a state
/// of that graph: none leaves the graph, and none leads to rejection.
pub proof fn compiled_graph_is_well_formed(p: Seq<char>)
    ensures
        compiled(p) matches Ok(g) ==> well_formed(g) && never_fails(g),
{
    units_lead_within(p, 0, 0, false);
    if let Ok(all) = units_from(p, 0, 0, false) {
        let g = closed_graph(all.states);
        assert forall|i: int, j: int| 0 <= i < g.len() && 0 <= j < g[i].len() implies (
        #[trigger] g[i][j]).to != Target::Failed && (match g[i][j].to {
            Target::Index(k) => k < g.len(),
            _ => true,
        }) by {
            assert(g[i][j] == crate::model::closed_edge(all.states[i][j], g.len()));
        }
    }
}

/// Two compilations of one pattern give the same graph, or the same error.
pub proof fn compiling_twice_gives_the_same(
    p: Seq<char>,
    first: Result<Vec<RegexState>, CompileError>,
    second: Result<Vec<RegexState>, CompileError>,
)
    requires
        outcome(first) == compiled(p),
        outcome(second) == compiled(p),
    ensures
        outcome(first) == outcome(second),
        first is Ok ==> second is Ok && crate::graph_of(first->Ok_0@) == crate::graph_of(
            second->Ok_0@,
        ),
{
}

/// Two runs of one graph over one subject give the same verdict.
pub proof fn running_twice_gives_the_same(g: Graph, subject: Seq<char>, first: bool, second: bool)
    requires
        first == accepts(g, subject),
        second == accepts(g, subject),
    ensures
        first == second,
{
}

} // verus!
