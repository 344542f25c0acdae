use regex::engine::{EngineState, RegexEngine};
use regex::{build_states, CharMatcher, MatchType, OneOrMore, RegexState};

fn run(subject: &str, pattern: &str) -> bool {
    RegexEngine::new(subject, build_states(pattern)).run()
}

fn is(c: char) -> CharMatcher {
    CharMatcher::new(MatchType::Is, OneOrMore::One(c))
}

#[test]
fn literal_pattern_accepts_itself() {
    for pattern in ["a", "ab", "abc", "Hello World!", "a)b", "héllo"] {
        assert!(run(pattern, pattern));
    }
}

#[test]
fn literal_pattern_accepts_what_begins_with_it() {
    assert!(run("abcx", "abc"));
    assert!(run("abc and more", "abc"));
}

#[test]
fn literal_pattern_rejects_what_does_not_begin_with_it() {
    assert!(!run("", "abc"));
    assert!(!run("ab", "abc"));
    assert!(!run("abd", "abc"));
    assert!(!run("xabc", "abc"));
}

#[test]
fn empty_pattern_rejects_every_subject() {
    assert!(!run("", ""));
    assert!(!run("x", ""));
}

#[test]
fn plus_at_the_end_needs_another_character_to_finish() {
    assert!(run("ax", "a+"));
    assert!(run("ab", "a+"));
    assert!(run("aaax", "a+"));
}

#[test]
fn plus_at_the_end_rejects_when_the_subject_runs_out() {
    assert!(!run("", "a+"));
    assert!(!run("a", "a+"));
    assert!(!run("aa", "a+"));
    assert!(!run("aaa", "a+"));
}

#[test]
fn plus_at_the_end_accepts_without_any_repetition_read() {
    assert!(run("x", "a+"));
}

#[test]
fn plus_followed_by_a_character() {
    assert!(run("ab", "a+b"));
    assert!(run("aaab", "a+b"));
    assert!(run("b", "a+b"));
    assert!(!run("ac", "a+b"));
    assert!(!run("aaa", "a+b"));
}

#[test]
fn hello_world_round_trip() {
    let s = "Hellowowowowo World!";
    let states = build_states("Hello(wo)+ World!");
    assert!(RegexEngine::new(s, states).run());
}

#[test]
fn hello_world_needs_one_repetition() {
    let states = build_states("Hello(wo)+ World!");
    assert!(!RegexEngine::new("Hello World!", states).run());
}

#[test]
fn hello_world_with_one_repetition() {
    assert!(run("Hellowo World!", "Hello(wo)+ World!"));
    assert!(!run("Hellow World!", "Hello(wo)+ World!"));
}

#[test]
fn first_edge_that_takes_the_character_wins() {
    let graph = vec![
        RegexState { next: vec![(is('a'), EngineState::State(1)), (is('a'), EngineState::Done)] },
        RegexState { next: vec![(is('b'), EngineState::Done)] },
    ];
    assert!(!RegexEngine::new("ac", graph).run());
    let graph = vec![
        RegexState { next: vec![(is('a'), EngineState::Done), (is('a'), EngineState::State(1))] },
        RegexState { next: vec![(is('b'), EngineState::Done)] },
    ];
    assert!(RegexEngine::new("ac", graph).run());
}

#[test]
fn edge_to_failure_rejects() {
    let graph = vec![RegexState { next: vec![(is('a'), EngineState::Failed)] }];
    assert!(!RegexEngine::new("a", graph).run());
    let graph = vec![RegexState { next: vec![(is('a'), EngineState::Failed)] }];
    assert!(!RegexEngine::new("ab", graph).run());
}

#[test]
fn edge_out_of_the_graph_rejects() {
    let graph = vec![RegexState { next: vec![(is('a'), EngineState::State(5))] }];
    assert!(!RegexEngine::new("ab", graph).run());
}

#[test]
fn running_twice_gives_the_same_verdict() {
    for (subject, pattern) in [("aaab", "a+b"), ("abc", "abd"), ("Hellowo World!", "Hello(wo)+ World!")] {
        assert_eq!(run(subject, pattern), run(subject, pattern));
    }
}

#[test]
fn long_subject_is_walked_once() {
    let mut subject = "a".repeat(200_000);
    subject.push('b');
    assert!(run(&subject, "a+b"));
    let all_a = "a".repeat(200_000);
    assert!(!run(&all_a, "a+b"));
}

#[test]
fn engine_state_compares_by_value() {
    assert_eq!(EngineState::State(3), EngineState::State(3));
    assert_ne!(EngineState::State(3), EngineState::State(4));
    assert_ne!(EngineState::Done, EngineState::Failed);
}
