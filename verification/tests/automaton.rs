use state_machine::{SimpleTransition, StateMachine, StateType};

/// The three-state automaton used across the end-to-end scenarios:
/// start --'a'--> start, start --'b'--> s1, s1 --'b'--> s1, s1 --'c'--> s2,
/// s2 --'c'--> s2; start and s1 are regular, s2 is accepting.
fn demo_machine() -> StateMachine<char, (), SimpleTransition<char>> {
    let mut m = StateMachine::new(StateType::Regular);
    let starting = m.starting_state();
    let s1 = m.add_state(StateType::Regular);
    let s2 = m.add_state(StateType::Accepting);

    m.set_transition(
        starting,
        SimpleTransition::from_iter(vec![('a', starting), ('b', s1)]),
    );
    m.set_transition(s1, SimpleTransition::from_iter(vec![('b', s1), ('c', s2)]));
    m.set_transition(s2, SimpleTransition::from_iter(vec![('c', s2)]));
    m
}

#[test]
fn scenario_c_b_a_a_rejects() {
    let m = demo_machine();
    assert_eq!(m.run(vec!['c', 'b', 'a', 'a']), false);
}

#[test]
fn scenario_a_b_b_c_c_accepts() {
    let m = demo_machine();
    assert_eq!(m.run(vec!['a', 'b', 'b', 'c', 'c']), true);
}

#[test]
fn scenario_a_b_c_accepts() {
    let m = demo_machine();
    assert_eq!(m.run(vec!['a', 'b', 'c']), true);
}

#[test]
fn scenario_b_c_accepts() {
    let m = demo_machine();
    assert_eq!(m.run(vec!['b', 'c']), true);
}

#[test]
fn scenario_a_c_rejects() {
    let m = demo_machine();
    assert_eq!(m.run(vec!['a', 'c']), false);
}

#[test]
fn repeated_runs_give_identical_verdicts() {
    let m = demo_machine();
    for input in [vec!['a', 'b', 'c'], vec!['a', 'c'], vec![], vec!['b', 'b', 'c']] {
        let first = m.run(input.clone());
        let second = m.run(input.clone());
        let third = m.run(input);
        assert_eq!(first, second);
        assert_eq!(second, third);
    }
}

#[test]
fn handles_are_pairwise_distinct_and_fresh() {
    let mut m = StateMachine::<char, (), SimpleTransition<char>>::new(StateType::Regular);
    let starting = m.starting_state();
    let s1 = m.add_state(StateType::Accepting);
    let s2 = m.add_state(StateType::Regular);
    let s3 = m.add_state(StateType::Accepting);
    assert_ne!(starting, s1);
    assert_ne!(starting, s2);
    assert_ne!(starting, s3);
    assert_ne!(s1, s2);
    assert_ne!(s1, s3);
    assert_ne!(s2, s3);
    assert_eq!(m.len(), 4);
}

#[test]
fn set_then_remove_behaves_like_never_set() {
    let inputs = [vec!['a'], vec!['a', 'a'], vec![]];
    for input in inputs {
        // never set
        let mut plain = StateMachine::<char, (), SimpleTransition<char>>::new(StateType::Regular);
        let target = plain.add_state(StateType::Accepting);
        let _ = target;
        let before = plain.run(input.clone());

        // set, then immediately removed again
        let mut touched =
            StateMachine::<char, (), SimpleTransition<char>>::new(StateType::Regular);
        let target = touched.add_state(StateType::Accepting);
        let starting = touched.starting_state();
        touched.set_transition(starting, SimpleTransition::from_iter(vec![('a', target)]));
        touched.remove_transition(starting);
        let after = touched.run(input.clone());

        assert_eq!(before, after);
    }
}

#[test]
fn remove_transition_is_idempotent() {
    let mut m = StateMachine::<char, (), SimpleTransition<char>>::new(StateType::Regular);
    let starting = m.starting_state();
    let target = m.add_state(StateType::Accepting);
    m.set_transition(starting, SimpleTransition::from_iter(vec![('a', target)]));
    m.remove_transition(starting);
    m.remove_transition(starting);
    assert_eq!(m.run(vec!['a']), false);
}

#[test]
fn table_maps_present_item_and_consumes_exactly_one() {
    let mut m = StateMachine::<char, (), SimpleTransition<char>>::new(StateType::Regular);
    let starting = m.starting_state();
    let target = m.add_state(StateType::Accepting);
    m.set_transition(starting, SimpleTransition::from_iter(vec![('x', target)]));
    // exactly the one mapped item: consumed, and the run ends at the target
    assert_eq!(m.run(vec!['x']), true);
    // a second, unconsumed item would need a strategy at the target
    assert_eq!(m.run(vec!['x', 'x']), false);
}

#[test]
fn table_rejects_absent_item() {
    let mut m = StateMachine::<char, (), SimpleTransition<char>>::new(StateType::Accepting);
    let starting = m.starting_state();
    m.set_transition(starting, SimpleTransition::from_iter(vec![('x', starting)]));
    assert_eq!(m.run(vec!['y']), false);
}

#[test]
fn empty_table_rejects_everything() {
    let mut m = StateMachine::<char, (), SimpleTransition<char>>::new(StateType::Accepting);
    let starting = m.starting_state();
    m.set_transition(starting, SimpleTransition::new());
    assert_eq!(m.run(vec!['a']), false);
    assert_eq!(m.run(vec![]), true);
}

#[test]
fn missing_strategy_rejects_even_in_accepting_state() {
    // the starting state is accepting and has no strategy: any leftover
    // input rejects, short-circuiting before the final-state-type check
    let m = StateMachine::<char, (), SimpleTransition<char>>::new(StateType::Accepting);
    assert_eq!(m.run(vec!['a']), false);
    assert_eq!(m.run(vec!['a', 'b']), false);
}

#[test]
fn empty_input_decides_by_starting_state_type() {
    let accepting = StateMachine::<char, (), SimpleTransition<char>>::new(StateType::Accepting);
    assert_eq!(accepting.run(vec![]), true);
    let regular = StateMachine::<char, (), SimpleTransition<char>>::new(StateType::Regular);
    assert_eq!(regular.run(vec![]), false);
}

#[test]
fn from_iter_duplicate_items_last_pair_wins() {
    let mut m = StateMachine::<char, (), SimpleTransition<char>>::new(StateType::Regular);
    let starting = m.starting_state();
    let dead_end = m.add_state(StateType::Regular);
    let target = m.add_state(StateType::Accepting);
    m.set_transition(
        starting,
        SimpleTransition::from_iter(vec![('a', dead_end), ('a', target)]),
    );
    assert_eq!(m.run(vec!['a']), true);
}

#[test]
fn add_transition_overwrites_existing_mapping() {
    let mut m = StateMachine::<char, (), SimpleTransition<char>>::new(StateType::Regular);
    let starting = m.starting_state();
    let dead_end = m.add_state(StateType::Regular);
    let target = m.add_state(StateType::Accepting);
    let mut table = SimpleTransition::new();
    table.add_transition('a', dead_end);
    table.add_transition('a', target);
    m.set_transition(starting, table);
    assert_eq!(m.run(vec!['a']), true);
}

#[test]
fn set_transition_overwrites_previous_strategy() {
    let mut m = StateMachine::<char, (), SimpleTransition<char>>::new(StateType::Regular);
    let starting = m.starting_state();
    let target = m.add_state(StateType::Accepting);
    m.set_transition(starting, SimpleTransition::new());
    m.set_transition(starting, SimpleTransition::from_iter(vec![('a', target)]));
    assert_eq!(m.run(vec!['a']), true);
}

#[test]
fn integer_alphabet_works_too() {
    let mut m = StateMachine::<u32, (), SimpleTransition<u32>>::new(StateType::Regular);
    let starting = m.starting_state();
    let target = m.add_state(StateType::Accepting);
    m.set_transition(
        starting,
        SimpleTransition::from_iter(vec![(7, starting), (9, target)]),
    );
    assert_eq!(m.run(vec![7, 7, 9]), true);
    assert_eq!(m.run(vec![9, 9]), false);
    assert_eq!(m.run(vec![8]), false);
}
