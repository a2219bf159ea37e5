//! The table-lookup transition strategy: maps a single consumed input item to
//! a fixed next state by exact match.

use vstd::prelude::*;

use crate::machine::State;
use crate::machine::StateTransformer;

verus! {

/// An alphabet type usable as the key of a lookup table: exact-match equality
/// whose result agrees with mathematical equality.
pub trait TableKey: Sized {
    /// Exact-match comparison.
    fn key_eq(&self, other: &Self) -> (r: bool)
        ensures
            r <==> self == other,
    ;
}

impl TableKey for char {
    fn key_eq(&self, other: &Self) -> (r: bool)
        ensures
            r <==> self == other,
    {
        *self == *other
    }
}

impl TableKey for bool {
    fn key_eq(&self, other: &Self) -> (r: bool)
        ensures
            r <==> self == other,
    {
        *self == *other
    }
}

impl TableKey for u8 {
    fn key_eq(&self, other: &Self) -> (r: bool)
        ensures
            r <==> self == other,
    {
        *self == *other
    }
}

impl TableKey for u32 {
    fn key_eq(&self, other: &Self) -> (r: bool)
        ensures
            r <==> self == other,
    {
        *self == *other
    }
}

impl TableKey for u64 {
    fn key_eq(&self, other: &Self) -> (r: bool)
        ensures
            r <==> self == other,
    {
        *self == *other
    }
}

impl TableKey for usize {
    fn key_eq(&self, other: &Self) -> (r: bool)
        ensures
            r <==> self == other,
    {
        *self == *other
    }
}

impl TableKey for i32 {
    fn key_eq(&self, other: &Self) -> (r: bool)
        ensures
            r <==> self == other,
    {
        *self == *other
    }
}

impl TableKey for i64 {
    fn key_eq(&self, other: &Self) -> (r: bool)
        ensures
            r <==> self == other,
    {
        *self == *other
    }
}

/// A transition strategy that maps a single consumed input item to a fixed
/// next state by exact-match lookup, and never touches the stack.
///
/// Viewed as a [`Map`] from items to next states. Entries added later win
/// over earlier ones for the same item, both in [`SimpleTransition::add_transition`]
/// and among the pairs handed to [`SimpleTransition::from_iter`].
pub struct SimpleTransition<Item> {
    transitions: Vec<(Item, State)>,
}

impl<Item> SimpleTransition<Item> {
    /// The mapping that a sequence of (item, next state) pairs denotes:
    /// each item maps to the state of its last pair, later pairs
    /// overwriting earlier ones.
    pub open spec fn map_of_pairs(pairs: Seq<(Item, State)>) -> Map<Item, State>
        decreases pairs.len(),
    {
        if pairs.len() == 0 {
            Map::empty()
        } else {
            Self::map_of_pairs(pairs.drop_last()).insert(pairs.last().0, pairs.last().1)
        }
    }

    /// The lookup result an item gets in a mapping: the mapped state, or
    /// `None` when the item is absent.
    pub open spec fn map_get(m: Map<Item, State>, item: Item) -> Option<State> {
        if m.dom().contains(item) {
            Some(m[item])
        } else {
            None
        }
    }

    /// Creates an empty table: every item is absent, so every transition
    /// attempt through it rejects.
    pub fn new() -> (r: Self)
        ensures
            r@ == Map::<Item, State>::empty(),
    {
        SimpleTransition { transitions: Vec::new() }
    }

    /// Creates a table holding the given (item, next state) pairs; for
    /// duplicate items the last pair wins, as when a mapping is built from
    /// pairs one insertion at a time.
    pub fn from_iter(pairs: Vec<(Item, State)>) -> (r: Self)
        ensures
            r@ == Self::map_of_pairs(pairs@),
    {
        SimpleTransition { transitions: pairs }
    }

    /// Inserts or overwrites the mapping for `inp_letter`.
    pub fn add_transition(&mut self, inp_letter: Item, next_state: State)
        ensures
            final(self)@ == old(self)@.insert(inp_letter, next_state),
    {
        self.transitions.push((inp_letter, next_state));
        proof {
            assert(self.transitions@.drop_last() =~= old(self).transitions@);
        }
    }
}

impl<Item> View for SimpleTransition<Item> {
    type V = Map<Item, State>;

    closed spec fn view(&self) -> Map<Item, State> {
        Self::map_of_pairs(self.transitions@)
    }
}

impl<Item: TableKey> SimpleTransition<Item> {
    /// Looks `item` up: the mapped state of the latest matching entry, or
    /// `None` when no entry matches.
    fn lookup(&self, item: &Item) -> (r: Option<State>)
        ensures
            r == Self::map_get(self@, *item),
    {
        let mut i: usize = self.transitions.len();
        proof {
            assert(self.transitions@.take(i as int) =~= self.transitions@);
        }
        while i > 0
            invariant
                i <= self.transitions@.len(),
                Self::map_get(Self::map_of_pairs(self.transitions@.take(i as int)), *item)
                    == Self::map_get(self@, *item),
            decreases i,
        {
            i = i - 1;
            let entry = &self.transitions[i];
            proof {
                assert(self.transitions@.take(i + 1).drop_last() =~= self.transitions@.take(
                    i as int,
                ));
                assert(self.transitions@.take(i + 1).last() == self.transitions@[i as int]);
            }
            if entry.0.key_eq(item) {
                return Some(entry.1);
            }
        }
        proof {
            assert(self.transitions@.take(0) =~= Seq::<(Item, State)>::empty());
        }
        None
    }
}

impl<Item: TableKey> StateTransformer<Item, ()> for SimpleTransition<Item> {
    /// Every state this table maps to lies below `num_states`.
    open spec fn valid_for(&self, num_states: nat) -> bool {
        forall|k: Item| #[trigger] self@.dom().contains(k) ==> self@[k]@ < num_states
    }

    /// One table step: with input remaining, consume exactly one item from
    /// the consumable (back) end — whether or not a mapping for it exists —
    /// and move to the mapped state, or reject if the item is absent; the
    /// stack is never read or written. With no input remaining, reject.
    open spec fn spec_transition(&self, input: Seq<Item>, stack: Seq<()>) -> (
        Option<State>,
        Seq<Item>,
        Seq<()>,
    ) {
        if input.len() == 0 {
            (None::<State>, input, stack)
        } else {
            (Self::map_get(self@, input.last()), input.drop_last(), stack)
        }
    }

    proof fn lemma_valid_for_widen(&self, n: nat, m: nat) {
    }

    proof fn lemma_spec_transition(&self, input: Seq<Item>, stack: Seq<()>, n: nat) {
    }

    fn transition(&self, input: &mut Vec<Item>, stack: &mut Vec<()>) -> (r: Option<State>) {
        match input.pop() {
            Some(inp) => self.lookup(&inp),
            None => None,
        }
    }
}

/// The table-lookup step in words: whenever input remains, a step consumes
/// exactly one item (the engine does not peek without consuming, not even on
/// rejection) and leaves the stack untouched; for an item present in the
/// table it moves to the mapped state, and for an absent item it rejects.
pub proof fn lemma_table_step<Item: TableKey>(
    table: &SimpleTransition<Item>,
    input: Seq<Item>,
    stack: Seq<()>,
)
    requires
        input.len() > 0,
    ensures
        table.spec_transition(input, stack).1 == input.drop_last(),
        table.spec_transition(input, stack).1.len() == input.len() - 1,
        table.spec_transition(input, stack).2 == stack,
        table@.dom().contains(input.last()) ==> table.spec_transition(input, stack).0 == Some(
            table@[input.last()],
        ),
        !table@.dom().contains(input.last()) ==> table.spec_transition(input, stack).0 is None,
{
}

} // verus!
