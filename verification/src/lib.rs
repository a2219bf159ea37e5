//! A generic engine for finite automata with pluggable per-state transition
//! logic: a state's next-state function may be a lookup table or any other
//! strategy with access to an auxiliary stack, enabling pushdown-style
//! behavior.

pub mod machine;
pub mod table;

pub use machine::{State, StateMachine, StateTransformer, StateType};
pub use table::{SimpleTransition, TableKey};
