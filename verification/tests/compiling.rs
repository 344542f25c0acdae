use regex::compiler::{CompileError, RegexCompiler};
use regex::engine::EngineState;
use regex::{build_states, try_build_states, RegexState};

fn edges(state: &RegexState) -> Vec<(String, EngineState)> {
    state.next.iter().map(|(m, to)| (m.label(), *to)).collect()
}

fn edge(label: &str, to: EngineState) -> (String, EngineState) {
    (label.to_string(), to)
}

#[test]
fn empty_pattern_has_no_state() {
    assert_eq!(build_states("").len(), 0);
}

#[test]
fn single_character_leads_to_acceptance() {
    let g = build_states("a");
    assert_eq!(g.len(), 1);
    assert_eq!(edges(&g[0]), vec![edge("a", EngineState::Done)]);
}

#[test]
fn literal_pattern_is_a_chain() {
    let g = build_states("abc");
    assert_eq!(g.len(), 3);
    assert_eq!(edges(&g[0]), vec![edge("a", EngineState::State(1))]);
    assert_eq!(edges(&g[1]), vec![edge("b", EngineState::State(2))]);
    assert_eq!(edges(&g[2]), vec![edge("c", EngineState::Done)]);
}

#[test]
fn plus_at_the_end_falls_back_to_any_other_character() {
    let g = build_states("a+");
    assert_eq!(g.len(), 1);
    assert_eq!(
        edges(&g[0]),
        vec![edge("a", EngineState::State(0)), edge("[^a]", EngineState::Done)]
    );
}

#[test]
fn plus_uses_up_the_character_behind_it() {
    let g = build_states("a+b");
    assert_eq!(g.len(), 1);
    assert_eq!(
        edges(&g[0]),
        vec![edge("a", EngineState::State(0)), edge("b", EngineState::Done)]
    );
}

#[test]
fn plus_in_the_middle_leads_on() {
    let g = build_states("a+bc");
    assert_eq!(g.len(), 2);
    assert_eq!(
        edges(&g[0]),
        vec![edge("a", EngineState::State(0)), edge("b", EngineState::State(1))]
    );
    assert_eq!(edges(&g[1]), vec![edge("c", EngineState::Done)]);
}

#[test]
fn group_repeats_into_the_state_behind_its_first() {
    let g = build_states("(wo)+ ");
    assert_eq!(g.len(), 3);
    assert_eq!(edges(&g[0]), vec![edge("w", EngineState::State(1))]);
    assert_eq!(edges(&g[1]), vec![edge("o", EngineState::State(2))]);
    assert_eq!(
        edges(&g[2]),
        vec![edge("w", EngineState::State(1)), edge(" ", EngineState::Done)]
    );
}

#[test]
fn group_without_quantifier_adds_a_state_for_its_first_character() {
    let g = build_states("(ab)c");
    assert_eq!(g.len(), 4);
    assert_eq!(edges(&g[0]), vec![edge("a", EngineState::State(1))]);
    assert_eq!(edges(&g[1]), vec![edge("b", EngineState::State(2))]);
    assert_eq!(edges(&g[2]), vec![edge("a", EngineState::State(3))]);
    assert_eq!(edges(&g[3]), vec![edge("c", EngineState::Done)]);
}

#[test]
fn group_of_one_character_repeats_into_itself() {
    let g = build_states("(a)+");
    assert_eq!(g.len(), 2);
    assert_eq!(edges(&g[0]), vec![edge("a", EngineState::State(1))]);
    assert_eq!(
        edges(&g[1]),
        vec![edge("a", EngineState::State(1)), edge("[^a]", EngineState::Done)]
    );
}

#[test]
fn nested_groups_compile() {
    let g = build_states("((a)b)");
    assert_eq!(g.len(), 4);
    assert_eq!(edges(&g[0]), vec![edge("a", EngineState::State(1))]);
    assert_eq!(edges(&g[1]), vec![edge("a", EngineState::State(2))]);
    assert_eq!(edges(&g[2]), vec![edge("b", EngineState::State(3))]);
    assert_eq!(edges(&g[3]), vec![edge("(", EngineState::Done)]);
}

#[test]
fn closing_parenthesis_outside_a_group_is_a_character() {
    let g = build_states("a)");
    assert_eq!(g.len(), 2);
    assert_eq!(edges(&g[0]), vec![edge("a", EngineState::State(1))]);
    assert_eq!(edges(&g[1]), vec![edge(")", EngineState::Done)]);
}

#[test]
fn hello_world_graph() {
    let g = build_states("Hello(wo)+ World!");
    assert_eq!(g.len(), 14);
    let chain = ['H', 'e', 'l', 'l', 'o', 'w', 'o'];
    for (i, c) in chain.iter().enumerate() {
        assert_eq!(edges(&g[i]), vec![edge(&c.to_string(), EngineState::State(i + 1))]);
    }
    assert_eq!(
        edges(&g[7]),
        vec![edge("w", EngineState::State(6)), edge(" ", EngineState::State(8))]
    );
    let tail = ['W', 'o', 'r', 'l', 'd'];
    for (i, c) in tail.iter().enumerate() {
        assert_eq!(edges(&g[8 + i]), vec![edge(&c.to_string(), EngineState::State(9 + i))]);
    }
    assert_eq!(edges(&g[13]), vec![edge("!", EngineState::Done)]);
}

#[test]
fn no_edge_of_a_compiled_graph_leaves_it() {
    for pattern in ["a", "ab+", "a+b", "(ab)+c", "Hello(wo)+ World!", "()+", "a+"] {
        let g = build_states(pattern);
        for state in &g {
            for (_, to) in &state.next {
                if let EngineState::State(i) = to {
                    assert!(*i < g.len());
                }
            }
        }
    }
}

#[test]
fn star_is_refused() {
    assert_eq!(try_build_states("*").err(), Some(CompileError::UnsupportedQuantifier));
    assert_eq!(try_build_states("a*").err(), Some(CompileError::UnsupportedQuantifier));
    assert_eq!(try_build_states("ab*c").err(), Some(CompileError::UnsupportedQuantifier));
}

#[test]
fn question_mark_is_refused() {
    assert_eq!(try_build_states("a?").err(), Some(CompileError::UnsupportedQuantifier));
    assert_eq!(try_build_states("?").err(), Some(CompileError::UnsupportedQuantifier));
    assert_eq!(try_build_states("(ab)?").err(), Some(CompileError::UnsupportedQuantifier));
}

#[test]
fn unmatched_group_is_refused() {
    assert_eq!(try_build_states("(a").err(), Some(CompileError::MalformedPattern));
    assert_eq!(try_build_states("(").err(), Some(CompileError::MalformedPattern));
    assert_eq!(try_build_states("a(bc").err(), Some(CompileError::MalformedPattern));
    assert_eq!(try_build_states("((a)").err(), Some(CompileError::MalformedPattern));
}

#[test]
fn plus_inside_a_group_uses_up_the_closing_parenthesis() {
    assert_eq!(try_build_states("(a+)").err(), Some(CompileError::MalformedPattern));
    let g = try_build_states("(a+))").unwrap();
    assert_eq!(g.len(), 2);
    assert_eq!(
        edges(&g[0]),
        vec![edge("a", EngineState::State(0)), edge(")", EngineState::State(1))]
    );
    assert_eq!(edges(&g[1]), vec![edge("a", EngineState::Done)]);
}

#[test]
fn first_error_from_the_left_is_reported() {
    assert_eq!(try_build_states("a*(b").err(), Some(CompileError::UnsupportedQuantifier));
    assert_eq!(try_build_states("(a*").err(), Some(CompileError::UnsupportedQuantifier));
}

#[test]
fn quantifier_behind_a_plus_is_a_character() {
    let g = try_build_states("a+*").unwrap();
    assert_eq!(
        edges(&g[0]),
        vec![edge("a", EngineState::State(0)), edge("*", EngineState::Done)]
    );
}

#[test]
fn compiler_and_shorthand_agree() {
    let a = RegexCompiler::new("ab+c").compile();
    let b = build_states("ab+c");
    assert_eq!(format!("{:?}", a), format!("{:?}", b));
    let c = RegexCompiler::new("ab+c").try_compile().unwrap();
    assert_eq!(format!("{:?}", a), format!("{:?}", c));
}

#[test]
fn compiling_twice_gives_equal_graphs() {
    for pattern in ["", "abc", "a+", "Hello(wo)+ World!", "((a)b)+c"] {
        let a = try_build_states(pattern).unwrap();
        let b = try_build_states(pattern).unwrap();
        assert_eq!(format!("{:?}", a), format!("{:?}", b));
    }
    assert_eq!(try_build_states("(a").err(), try_build_states("(a").err());
}

#[test]
fn empty_group_stands_for_its_closing_parenthesis() {
    let g = build_states("()");
    assert_eq!(g.len(), 1);
    assert_eq!(edges(&g[0]), vec![edge(")", EngineState::Done)]);
    let g = build_states("()+");
    assert_eq!(g.len(), 1);
    assert_eq!(
        edges(&g[0]),
        vec![edge(")", EngineState::Done), edge("[^)]", EngineState::Done)]
    );
}

#[test]
fn plus_where_a_unit_begins_is_a_character() {
    let g = build_states("++");
    assert_eq!(g.len(), 1);
    assert_eq!(
        edges(&g[0]),
        vec![edge("+", EngineState::State(0)), edge("[^+]", EngineState::Done)]
    );
}
