//! Tables that give each distinct value a position: the first value that
//! is inserted has position zero, and a value that is inserted again keeps
//! the position that it has.

use crate::block::{Block, BlockView};
use crate::function::{Signature, SignatureView};
use crate::identifier::Identifier;
use crate::type_system::Any;
use vstd::prelude::*;

verus! {

/// The keys of a table after `key` is inserted: the keys as they were where
/// `key` is among them, and else the keys with `key` behind them.
pub open spec fn inserted<V>(keys: Seq<V>, key: V) -> Seq<V> {
    if keys.contains(key) {
        keys
    } else {
        keys.push(key)
    }
}

/// The keys of a table after all of `items` are inserted, in their order.
pub open spec fn inserted_all<V>(keys: Seq<V>, items: Seq<V>) -> Seq<V>
    decreases items.len(),
{
    if items.len() == 0 {
        keys
    } else {
        inserted(inserted_all(keys, items.drop_last()), items.last())
    }
}

/// Whether no value occurs twice in `keys`.
pub open spec fn distinct<V>(keys: Seq<V>) -> bool {
    forall|i: int, j: int| 0 <= i < j < keys.len() ==> keys[i] != keys[j]
}

/// A position of `key` in `keys`: the one position, where the keys are
/// distinct and `key` is among them.
pub open spec fn position<V>(keys: Seq<V>, key: V) -> int {
    choose|i: int| 0 <= i < keys.len() && keys[i] == key
}

/// The positions in `keys` of the values of `items`.
pub open spec fn positions<V>(keys: Seq<V>, items: Seq<V>) -> Seq<usize> {
    items.map_values(|item: V| position(keys, item) as usize)
}

/// Whether all values of `items` are among `keys`.
pub open spec fn contains_all<V>(keys: Seq<V>, items: Seq<V>) -> bool {
    forall|i: int| 0 <= i < items.len() ==> keys.contains(#[trigger] items[i])
}

/// The position of a key that is among the keys is a position of the keys,
/// and the key stands there.
pub proof fn lemma_position<V>(keys: Seq<V>, key: V)
    requires
        keys.contains(key),
    ensures
        0 <= position(keys, key) < keys.len(),
        keys[position(keys, key)] == key,
{
    let i = choose|i: int| 0 <= i < keys.len() && keys[i] == key;
}

/// Among distinct keys, a key stands at its position and nowhere else.
pub proof fn lemma_position_unique<V>(keys: Seq<V>, index: int)
    requires
        distinct(keys),
        0 <= index < keys.len(),
    ensures
        position(keys, keys[index]) == index,
{
    lemma_position(keys, keys[index]);
}

/// Inserting a key into distinct keys leaves distinct keys that start with
/// the keys as they were and that hold the key; what was among the keys
/// keeps its position.
pub proof fn lemma_inserted<V>(keys: Seq<V>, key: V)
    requires
        distinct(keys),
    ensures
        distinct(inserted(keys, key)),
        keys.is_prefix_of(inserted(keys, key)),
        inserted(keys, key).contains(key),
        inserted(keys, key).len() <= keys.len() + 1,
{
    let after = inserted(keys, key);
    if keys.contains(key) {
    } else {
        assert(after[keys.len() as int] == key);
        assert forall|i: int, j: int| 0 <= i < j < after.len() implies after[i] != after[j] by {
            if j == keys.len() {
                assert(keys[i] == after[i]);
                assert(keys.contains(after[i]));
            }
        }
    }
}

/// Among distinct keys that start with other keys, what is among the other
/// keys has the position that it has in them.
pub proof fn lemma_position_stable<V>(before: Seq<V>, after: Seq<V>, key: V)
    requires
        distinct(after),
        before.is_prefix_of(after),
        before.contains(key),
    ensures
        position(after, key) == position(before, key),
        after.contains(key),
{
    lemma_position(before, key);
    let index = position(before, key);
    assert(after[index] == key);
    lemma_position_unique(after, index);
}

/// The positions of values that are among some keys are their positions in
/// distinct keys that start with these keys.
pub proof fn lemma_positions_stable<V>(before: Seq<V>, after: Seq<V>, items: Seq<V>)
    requires
        distinct(after),
        before.is_prefix_of(after),
        contains_all(before, items),
    ensures
        positions(after, items) == positions(before, items),
        contains_all(after, items),
{
    assert forall|i: int| 0 <= i < items.len() implies position(after, items[i]) == position(
        before,
        items[i],
    ) && after.contains(#[trigger] items[i]) by {
        lemma_position_stable(before, after, items[i]);
    }
    assert(positions(after, items) =~= positions(before, items));
}

/// Inserting values into distinct keys leaves distinct keys that start with
/// the keys as they were and that hold each of the values.
pub proof fn lemma_inserted_all<V>(keys: Seq<V>, items: Seq<V>)
    requires
        distinct(keys),
    ensures
        distinct(inserted_all(keys, items)),
        keys.is_prefix_of(inserted_all(keys, items)),
        contains_all(inserted_all(keys, items), items),
    decreases items.len(),
{
    if items.len() > 0 {
        let most = items.drop_last();
        let middle = inserted_all(keys, most);
        lemma_inserted_all(keys, most);
        lemma_inserted(middle, items.last());
        let after = inserted_all(keys, items);
        assert forall|i: int| 0 <= i < items.len() implies after.contains(
            #[trigger] items[i],
        ) by {
            if i < most.len() {
                assert(most[i] == items[i]);
                assert(middle.contains(most[i]));
                let at = choose|at: int| 0 <= at < middle.len() && middle[at] == items[i];
                assert(after[at] == items[i]);
            }
        }
    }
}

/// Inserting values one list after the other is inserting the values of the
/// two lists put together.
pub proof fn lemma_inserted_all_concat<V>(keys: Seq<V>, first: Seq<V>, second: Seq<V>)
    ensures
        inserted_all(keys, first + second) == inserted_all(inserted_all(keys, first), second),
    decreases second.len(),
{
    if second.len() == 0 {
        assert(first + second =~= first);
    } else {
        assert((first + second).drop_last() =~= first + second.drop_last());
        assert((first + second).last() == second.last());
        lemma_inserted_all_concat(keys, first, second.drop_last());
    }
}

/// Inserting a value twice is inserting it once: the second time the keys
/// stay as they are, and the value keeps its position.
pub proof fn lemma_inserted_idempotent<V>(keys: Seq<V>, key: V)
    requires
        distinct(keys),
    ensures
        inserted(inserted(keys, key), key) == inserted(keys, key),
        position(inserted(inserted(keys, key), key), key) == position(inserted(keys, key), key),
{
    lemma_inserted(keys, key);
}

/// Values that can be keys of a table: two of them can be told apart.
pub trait Interned {
    /// What a value stands for.
    type V;

    /// What `self` stands for.
    spec fn model(&self) -> Self::V;

    /// Whether two values stand for the same.
    fn same(&self, other: &Self) -> (equal: bool)
        ensures
            equal == (self.model() == other.model()),
    ;
}

impl Interned for Any {
    type V = Any;

    open spec fn model(&self) -> Any {
        *self
    }

    fn same(&self, other: &Any) -> (equal: bool) {
        *self == *other
    }
}

impl Interned for Identifier {
    type V = Seq<u8>;

    open spec fn model(&self) -> Seq<u8> {
        self@
    }

    fn same(&self, other: &Identifier) -> (equal: bool) {
        Identifier::same(self, other)
    }
}

impl Interned for Signature {
    type V = SignatureView;

    open spec fn model(&self) -> SignatureView {
        self@
    }

    fn same(&self, other: &Signature) -> (equal: bool) {
        Signature::same(self, other)
    }
}

impl Interned for Block {
    type V = BlockView;

    open spec fn model(&self) -> BlockView {
        self@
    }

    fn same(&self, other: &Block) -> (equal: bool) {
        Block::same(self, other)
    }
}

/// A table that gives each of its keys a position, in the order in which
/// the keys were first inserted. Its view is its keys in that order.
#[derive(Debug)]
pub struct IndexMap<'a, K: Interned> {
    keys: Vec<&'a K>,
}

impl<'a, K: Interned> View for IndexMap<'a, K> {
    type V = Seq<K::V>;

    closed spec fn view(&self) -> Seq<K::V> {
        self.keys@.map_values(|key: &'a K| key.model())
    }
}

impl<'a, K: Interned> IndexMap<'a, K> {
    #[verifier::type_invariant]
    spec fn well_formed(self) -> bool {
        distinct(self.keys@.map_values(|key: &'a K| key.model()))
    }

    /// A table without keys.
    pub fn new() -> (map: Self)
        ensures
            map@ == Seq::<K::V>::empty(),
    {
        let map = IndexMap { keys: Vec::new() };
        proof {
            assert(map@ =~= Seq::<K::V>::empty());
        }
        map
    }

    /// The position of `key`, which is inserted behind the other keys
    /// where it is not among them yet.
    pub fn get_or_insert(&mut self, key: &'a K) -> (index: usize)
        ensures
            distinct(old(self)@),
            final(self)@ == inserted(old(self)@, key.model()),
            index == position(final(self)@, key.model()),
            index < final(self)@.len(),
            final(self)@[index as int] == key.model(),
    {
        proof {
            use_type_invariant(&*self);
            lemma_inserted(self@, key.model());
        }
        let mut index: usize = 0;
        while index < self.keys.len()
            invariant
                index <= self.keys@.len(),
                self.keys@ == old(self).keys@,
                self@ == old(self)@,
                distinct(self@),
                inserted(self@, key.model()).contains(key.model()),
                forall|i: int| 0 <= i < index ==> self@[i] != key.model(),
            decreases self.keys@.len() - index,
        {
            if self.keys[index].same(key) {
                proof {
                    assert(self@[index as int] == key.model());
                    lemma_position_unique(self@, index as int);
                }
                return index;
            }
            index += 1;
        }
        let mut taken = IndexMap { keys: Vec::new() };
        proof {
            assert(taken@ =~= Seq::<K::V>::empty());
        }
        std::mem::swap(self, &mut taken);
        let IndexMap { mut keys } = taken;
        keys.push(key);
        proof {
            assert(keys@.map_values(|key: &'a K| key.model()) =~= old(self)@.push(key.model()));
        }
        *self = IndexMap { keys };
        proof {
            assert(self@[index as int] == key.model());
            lemma_position_unique(self@, index as int);
        }
        index
    }

    /// The number of keys.
    pub fn len(&self) -> (count: usize)
        ensures
            count == self@.len(),
            distinct(self@),
    {
        proof {
            use_type_invariant(self);
        }
        self.keys.len()
    }

    /// The keys in the order of their positions.
    pub fn into_keys(self) -> (keys: Vec<&'a K>)
        ensures
            keys@.map_values(|key: &'a K| key.model()) == self@,
            distinct(self@),
    {
        proof {
            use_type_invariant(&self);
        }
        self.keys
    }
}

} // verus!
