//! The state machine proper: state handles, the transition-strategy
//! abstraction, and the run loop that consumes an input sequence and decides
//! acceptance.

use vstd::prelude::*;

verus! {

/// Whether a state is a final (accepting) state.
#[derive(Debug, Clone, Copy, PartialEq, Eq, Structural)]
pub enum StateType {
    Regular,
    Accepting,
}

/// An opaque handle to a state of a [`StateMachine`]: an index into the
/// machine's internal tables. Handles are issued by [`StateMachine::new`]
/// (the starting state) and [`StateMachine::add_state`], and are only
/// meaningful to the machine that issued them.
#[derive(Debug, Clone, Copy, PartialEq, Eq, Structural)]
pub struct State(usize);

impl View for State {
    type V = nat;

    closed spec fn view(&self) -> nat {
        self.0 as nat
    }
}

/// Per-state transition logic: given the remaining input and an auxiliary
/// stack, consume input (and possibly stack) elements and report the next
/// state, or signal rejection with `None`.
///
/// The input sequence is held with its consumable end at the back: a strategy
/// consumes the next input item by popping the last element of `input`.
///
/// Implementations must supply a mathematical model of their behavior
/// (`spec_transition`), a bound on the state handles they can name
/// (`valid_for`), and proofs that the model consumes input on success and
/// stays within that bound. In particular every successful step must consume
/// at least one input item; this is what makes every run of a machine built
/// from such strategies terminate.
pub trait StateTransformer<Item, StackItem>: Sized {
    /// All state handles this strategy can return lie below `num_states`.
    spec fn valid_for(&self, num_states: nat) -> bool;

    /// The mathematical model of one transition step: the verdict (next state
    /// or rejection), the remaining input, and the new stack.
    spec fn spec_transition(&self, input: Seq<Item>, stack: Seq<StackItem>) -> (
        Option<State>,
        Seq<Item>,
        Seq<StackItem>,
    );

    /// A strategy valid for a machine of `n` states is valid for any larger
    /// machine: states are only ever added, never removed.
    proof fn lemma_valid_for_widen(&self, n: nat, m: nat)
        requires
            self.valid_for(n),
            n <= m,
        ensures
            self.valid_for(m),
    ;

    /// A successful step consumes at least one input item and names a state
    /// within the strategy's bound.
    proof fn lemma_spec_transition(&self, input: Seq<Item>, stack: Seq<StackItem>, n: nat)
        requires
            self.valid_for(n),
        ensures
            self.spec_transition(input, stack).0 is Some ==> self.spec_transition(
                input,
                stack,
            ).1.len() < input.len(),
            self.spec_transition(input, stack).0 matches Some(s) ==> s@ < n,
    ;

    /// One transition step. Conforms exactly to `spec_transition`.
    fn transition(&self, input: &mut Vec<Item>, stack: &mut Vec<StackItem>) -> (r: Option<State>)
        ensures
            r == self.spec_transition(old(input)@, old(stack)@).0,
            final(input)@ == self.spec_transition(old(input)@, old(stack)@).1,
            final(stack)@ == self.spec_transition(old(input)@, old(stack)@).2,
    ;
}

/// The verdict of running the automaton from the given configuration:
/// `state` is the current state, `input` holds the remaining input with its
/// consumable end at the back, and `stack` is the auxiliary stack.
///
/// When the input is exhausted, the verdict is acceptance exactly when the
/// current state is an accepting state. While input remains, a state with no
/// attached strategy rejects immediately, a strategy that signals rejection
/// rejects immediately, and otherwise the run continues from the state the
/// strategy names.
pub open spec fn run_config<Item, StackItem, T: StateTransformer<Item, StackItem>>(
    strategies: Seq<Option<T>>,
    types: Seq<StateType>,
    state: nat,
    input: Seq<Item>,
    stack: Seq<StackItem>,
) -> bool
    decreases input.len(),
{
    if input.len() == 0 {
        state < types.len() && types[state as int] is Accepting
    } else {
        if state < strategies.len() && strategies[state as int] is Some {
            let step = match strategies[state as int] {
                Some(t) => t.spec_transition(input, stack),
                None => (None, input, stack),
            };
            match step.0 {
                Some(next) => if step.1.len() < input.len() {
                    run_config(strategies, types, next@, step.1, step.2)
                } else {
                    false
                },
                None => false,
            }
        } else {
            false
        }
    }
}

/// Reverses a vector, so that the front item of the original order sits at
/// the consumable back end.
#[verifier::loop_isolation(false)]
fn reverse_vec<A>(v: Vec<A>) -> (r: Vec<A>)
    ensures
        r@ == v@.reverse(),
{
    let ghost orig = v@;
    let mut v = v;
    let mut r: Vec<A> = Vec::new();
    proof {
        assert(v@ =~= orig.take(v@.len() as int));
    }
    while v.len() > 0
        invariant
            v@.len() + r@.len() == orig.len(),
            v@ == orig.take(v@.len() as int),
            forall|j: int| 0 <= j < r@.len() ==> r@[j] == orig[orig.len() - 1 - j],
        decreases v@.len(),
    {
        let x = v.pop().unwrap();
        r.push(x);
        proof {
            assert(v@ =~= orig.take(v@.len() as int));
        }
    }
    proof {
        assert(r@ =~= orig.reverse());
    }
    r
}

/// A finite automaton: an indexed set of states, each tagged
/// [`StateType::Regular`] or [`StateType::Accepting`] and each optionally
/// carrying a transition strategy, plus the designated starting state
/// (always the state of index 0, created at construction).
pub struct StateMachine<Item, StackItem, T> {
    starting_state: State,
    transitions: Vec<Option<T>>,
    state_types: Vec<StateType>,
    marker: core::marker::PhantomData<(Item, StackItem)>,
}

impl<Item, StackItem, T: StateTransformer<Item, StackItem>> StateMachine<Item, StackItem, T> {
    /// The tag of each state, by index.
    pub closed spec fn types(&self) -> Seq<StateType> {
        self.state_types@
    }

    /// The attached strategy of each state, by index.
    pub closed spec fn strategies(&self) -> Seq<Option<T>> {
        self.transitions@
    }

    /// The handle of the state execution begins from.
    pub closed spec fn spec_starting_state(&self) -> State {
        self.starting_state
    }

    /// The handle of the state execution begins from.
    #[verifier::when_used_as_spec(spec_starting_state)]
    pub fn starting_state(&self) -> (s: State)
        ensures
            s == self.spec_starting_state(),
    {
        self.starting_state
    }

    /// The number of states.
    pub open spec fn spec_len(&self) -> nat {
        self.types().len()
    }

    /// Well-formedness: the two per-state tables agree in length, at least
    /// the starting state exists, the starting state is the state of index 0,
    /// and every attached strategy names only states of this machine.
    pub open spec fn wf(&self) -> bool {
        &&& self.strategies().len() == self.types().len()
        &&& self.types().len() >= 1
        &&& self.spec_starting_state()@ == 0
        &&& forall|i: int|
            0 <= i < self.strategies().len() ==> match #[trigger] self.strategies()[i] {
                Some(t) => t.valid_for(self.types().len()),
                None => true,
            }
    }

    /// Creates a machine with a single state of the given type, index 0,
    /// which is the starting state and has no attached strategy.
    pub fn new(starting_state: StateType) -> (r: Self)
        ensures
            r.wf(),
            r.types() == seq![starting_state],
            r.strategies() == seq![None::<T>],
            r.spec_starting_state()@ == 0,
    {
        let mut transitions: Vec<Option<T>> = Vec::new();
        transitions.push(None);
        let mut state_types: Vec<StateType> = Vec::new();
        state_types.push(starting_state);
        let starting_node_idx = State(0);
        proof {
            assert(transitions@ =~= seq![None::<T>]);
            assert(state_types@ =~= seq![starting_state]);
        }
        StateMachine { transitions, starting_state: starting_node_idx, state_types, marker: core::marker::PhantomData }
    }

    /// The number of states of this machine.
    pub fn len(&self) -> (n: usize)
        ensures
            n == self.spec_len(),
    {
        self.state_types.len()
    }

    /// Appends a new state with no attached strategy and returns its freshly
    /// issued handle. Handles are issued monotonically: the returned handle
    /// equals the machine's size before the call, so it differs from every
    /// handle issued earlier by this machine and from the starting state's.
    pub fn add_state(&mut self, state_type: StateType) -> (s: State)
        requires
            old(self).wf(),
        ensures
            final(self).wf(),
            s@ == old(self).spec_len(),
            final(self).types() == old(self).types().push(state_type),
            final(self).strategies() == old(self).strategies().push(None::<T>),
            final(self).spec_starting_state() == old(self).spec_starting_state(),
            s@ != final(self).spec_starting_state()@,
    {
        self.transitions.push(None);
        self.state_types.push(state_type);
        proof {
            let n: nat = old(self).types().len();
            assert forall|i: int| 0 <= i < self.strategies().len() implies match #[trigger] self.strategies()[i] {
                Some(t) => t.valid_for(self.types().len()),
                None => true,
            } by {
                if i < n {
                    assert(self.strategies()[i] == old(self).strategies()[i]);
                    match self.strategies()[i] {
                        Some(t) => t.lemma_valid_for_widen(n, n + 1),
                        None => (),
                    }
                }
            }
        }
        State(self.state_types.len() - 1)
    }

    /// Installs the given strategy for `state`, overwriting any strategy
    /// already attached there. `state` must be a handle issued by this
    /// machine, and the strategy may name only states of this machine.
    pub fn set_transition(&mut self, state: State, transition: T)
        requires
            old(self).wf(),
            state@ < old(self).spec_len(),
            transition.valid_for(old(self).spec_len()),
        ensures
            final(self).wf(),
            final(self).types() == old(self).types(),
            final(self).strategies() == old(self).strategies().update(
                state@ as int,
                Some(transition),
            ),
            final(self).spec_starting_state() == old(self).spec_starting_state(),
    {
        self.transitions[state.0] = Some(transition);
    }

    /// Clears the strategy attached to `state`, if any; removing an
    /// already-absent strategy is a no-op. `state` must be a handle issued by
    /// this machine.
    pub fn remove_transition(&mut self, state: State)
        requires
            old(self).wf(),
            state@ < old(self).spec_len(),
        ensures
            final(self).wf(),
            final(self).types() == old(self).types(),
            final(self).strategies() == old(self).strategies().update(state@ as int, None::<T>),
            final(self).spec_starting_state() == old(self).spec_starting_state(),
    {
        self.transitions[state.0] = None;
    }

    /// The verdict of running this machine on `input`, given in its original
    /// left-to-right order: execution starts at the starting state with an
    /// empty stack and proceeds as [`run_config`] describes.
    pub open spec fn spec_run(&self, input: Seq<Item>) -> bool {
        run_config(
            self.strategies(),
            self.types(),
            self.spec_starting_state()@,
            input.reverse(),
            Seq::<StackItem>::empty(),
        )
    }

    /// Executes the automaton on `input`, starting at the starting state with
    /// a fresh, empty stack; the machine itself is not mutated. The verdict is
    /// `true` exactly when the run ends in an accepting state with the input
    /// exhausted; a state with no attached strategy reached while input
    /// remains, or a strategy signalling rejection, yields `false`.
    ///
    /// Items are consumed in their original left-to-right order; internally
    /// the input is reversed once so that each strategy can consume the next
    /// item from the back of the sequence.
    #[verifier::loop_isolation(false)]
    pub fn run(&self, input: Vec<Item>) -> (r: bool)
        requires
            self.wf(),
        ensures
            r == self.spec_run(input@),
    {
        let ghost orig = input@;
        let mut input = reverse_vec(input);
        let mut stack: Vec<StackItem> = Vec::new();
        let mut cur_state = self.starting_state;
        while input.len() > 0
            invariant
                self.wf(),
                cur_state@ < self.spec_len(),
                self.spec_run(orig) == run_config(
                    self.strategies(),
                    self.types(),
                    cur_state@,
                    input@,
                    stack@,
                ),
            decreases input@.len(),
        {
            let idx: usize = cur_state.0;
            let t = match &self.transitions[idx] {
                Some(t) => t,
                None => {
                    return false;
                },
            };
            let ghost prev_state = cur_state@;
            let ghost pre_input = input@;
            let ghost pre_stack = stack@;
            proof {
                assert(self.strategies()[idx as int] == Some(*t));
                t.lemma_spec_transition(pre_input, pre_stack, self.types().len());
            }
            let next = t.transition(&mut input, &mut stack);
            match next {
                Some(s) => {
                    proof {
                        assert(run_config(
                            self.strategies(),
                            self.types(),
                            prev_state,
                            pre_input,
                            pre_stack,
                        ) == run_config(
                            self.strategies(),
                            self.types(),
                            s@,
                            input@,
                            stack@,
                        ));
                    }
                    cur_state = s;
                },
                None => {
                    return false;
                },
            }
        }
        match self.state_types[cur_state.0] {
            StateType::Accepting => true,
            StateType::Regular => false,
        }
    }
}

/// Determinism of `run`: the verdict is a function of the machine's model
/// (state tags, attached strategies, starting state) and of the input alone,
/// so repeated runs of an unmutated machine on identical inputs yield
/// identical verdicts, and `run` itself never mutates the machine.
pub proof fn lemma_run_deterministic<Item, StackItem, T: StateTransformer<Item, StackItem>>(
    m1: &StateMachine<Item, StackItem, T>,
    m2: &StateMachine<Item, StackItem, T>,
    input: Seq<Item>,
)
    requires
        m1.types() == m2.types(),
        m1.strategies() == m2.strategies(),
        m1.spec_starting_state() == m2.spec_starting_state(),
    ensures
        m1.spec_run(input) == m2.spec_run(input),
{
}

/// Installing a strategy on a state that had none and then removing it
/// restores the machine's model exactly, and with it the verdict of every
/// run: the strategy slot returns to empty.
pub proof fn lemma_set_then_remove_runs_same<
    Item,
    StackItem,
    T: StateTransformer<Item, StackItem>,
>(
    m0: &StateMachine<Item, StackItem, T>,
    m1: &StateMachine<Item, StackItem, T>,
    m2: &StateMachine<Item, StackItem, T>,
    state: State,
    strategy: T,
    input: Seq<Item>,
)
    requires
        m0.wf(),
        state@ < m0.spec_len(),
        m0.strategies()[state@ as int] is None,
        // `m1` is `m0` after `set_transition(state, strategy)`:
        m1.types() == m0.types(),
        m1.spec_starting_state() == m0.spec_starting_state(),
        m1.strategies() == m0.strategies().update(state@ as int, Some(strategy)),
        // `m2` is `m1` after `remove_transition(state)`:
        m2.types() == m1.types(),
        m2.spec_starting_state() == m1.spec_starting_state(),
        m2.strategies() == m1.strategies().update(state@ as int, None::<T>),
    ensures
        m2.spec_run(input) == m0.spec_run(input),
{
    assert(m2.strategies() =~= m0.strategies());
}

/// Rejection short-circuits before the final-state-type check: a state with
/// no attached strategy, reached while input remains, yields a rejecting run
/// regardless of the state's type, even if it is an accepting state.
pub proof fn lemma_no_strategy_rejects<Item, StackItem, T: StateTransformer<Item, StackItem>>(
    strategies: Seq<Option<T>>,
    types: Seq<StateType>,
    state: nat,
    input: Seq<Item>,
    stack: Seq<StackItem>,
)
    requires
        input.len() > 0,
        state < strategies.len() ==> strategies[state as int] is None,
    ensures
        !run_config(strategies, types, state, input, stack),
{
}

} // verus!
