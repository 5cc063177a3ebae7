//! Transition tables and sets of accepting states, held in rustc_hash's
//! `FxHashMap` and `FxHashSet` (std's hash collections with `FxBuildHasher`).
//!
//! The items marked `external_body` below are trusted: Verus believes their
//! contracts. Each claims of one std hash-collection method what its
//! documentation says, over vstd's view of the collection. The keys are
//! `Reading`s and `State`s, whose `Eq` and `Hash` are derived field by field,
//! so two keys are the same key exactly when they are equal values.

use vstd::prelude::*;

use rustc_hash::{FxHashMap, FxHashSet};

use crate::types::{Action, Direction, Reading, State, Symbol};

verus! {

/// rustc_hash's hasher builder, carried inside the tables; opaque to Verus.
#[verifier::external_type_specification]
#[verifier::external_body]
pub struct ExFxBuildHasher(rustc_hash::FxBuildHasher);

/// The transition table of a single-tape machine.
pub type SingleTable = FxHashMap<Reading<Symbol>, Action<Symbol, Direction>>;

/// The transition table of a machine that reads `N` symbols at once.
pub type ArrayTable<const N: usize> = FxHashMap<
    Reading<[Symbol; N]>,
    Action<[Symbol; N], [Direction; N]>,
>;

/// The value a map holds for a key, if any.
pub open spec fn lookup<K, V>(m: Map<K, V>, k: K) -> Option<V> {
    if m.contains_key(k) {
        Some(m[k])
    } else {
        None
    }
}

/// `m` with `v` stored under `k`, unless `k` already has a value.
pub open spec fn insert_absent<K, V>(m: Map<K, V>, k: K, v: V) -> Map<K, V> {
    if m.contains_key(k) {
        m
    } else {
        m.insert(k, v)
    }
}

/// `m` after [`insert_absent`] of each pair of `pairs`, first to last.
pub open spec fn insert_all_absent<K, V>(m: Map<K, V>, pairs: Seq<(K, V)>) -> Map<K, V>
    decreases pairs.len(),
{
    if pairs.len() == 0 {
        m
    } else {
        insert_all_absent(insert_absent(m, pairs[0].0, pairs[0].1), pairs.drop_first())
    }
}

/// Inserting pairs never replaces a value already present.
pub proof fn lemma_insert_all_absent_keeps<K, V>(m: Map<K, V>, pairs: Seq<(K, V)>, k: K)
    requires
        m.contains_key(k),
    ensures
        insert_all_absent(m, pairs).contains_key(k),
        insert_all_absent(m, pairs)[k] == m[k],
    decreases pairs.len(),
{
    if pairs.len() > 0 {
        lemma_insert_all_absent_keeps(insert_absent(m, pairs[0].0, pairs[0].1), pairs.drop_first(), k);
    }
}

/// A key that is new to `m` ends up with the value of its first pair.
pub proof fn lemma_insert_all_absent_first<K, V>(m: Map<K, V>, pairs: Seq<(K, V)>, j: int)
    requires
        0 <= j < pairs.len(),
        !m.contains_key(pairs[j].0),
        forall|i: int| 0 <= i < j ==> pairs[i].0 != pairs[j].0,
    ensures
        insert_all_absent(m, pairs).contains_key(pairs[j].0),
        insert_all_absent(m, pairs)[pairs[j].0] == pairs[j].1,
    decreases pairs.len(),
{
    let m1 = insert_absent(m, pairs[0].0, pairs[0].1);
    let rest = pairs.drop_first();
    if j == 0 {
        lemma_insert_all_absent_keeps(m1, rest, pairs[0].0);
    } else {
        assert(rest[j - 1] == pairs[j]);
        assert forall|i: int| 0 <= i < j - 1 implies #[trigger] rest[i].0 != rest[j - 1].0 by {
            assert(rest[i] == pairs[i + 1]);
        }
        lemma_insert_all_absent_first(m1, rest, j - 1);
    }
}

/// A key holds a value after the inserts exactly when it held one before
/// or some pair carries it.
pub proof fn lemma_insert_all_absent_domain<K, V>(m: Map<K, V>, pairs: Seq<(K, V)>, k: K)
    ensures
        insert_all_absent(m, pairs).contains_key(k) <==> (m.contains_key(k) || exists|j: int|
            0 <= j < pairs.len() && #[trigger] pairs[j].0 == k),
    decreases pairs.len(),
{
    if pairs.len() > 0 {
        let m1 = insert_absent(m, pairs[0].0, pairs[0].1);
        let rest = pairs.drop_first();
        lemma_insert_all_absent_domain(m1, rest, k);
        if exists|j: int| 0 <= j < pairs.len() && #[trigger] pairs[j].0 == k {
            let j = choose|j: int| 0 <= j < pairs.len() && #[trigger] pairs[j].0 == k;
            if j > 0 {
                assert(rest[j - 1].0 == k);
            }
        }
        if exists|j: int| 0 <= j < rest.len() && #[trigger] rest[j].0 == k {
            let j = choose|j: int| 0 <= j < rest.len() && #[trigger] rest[j].0 == k;
            assert(pairs[j + 1].0 == k);
        }
    }
}

/// `HashMap::get` on a single-tape table. Claims: the result is the action
/// that the table's view holds for the reading, `None` when it holds none.
#[verifier::external_body]
pub(crate) fn single_table_get(t: &SingleTable, k: &Reading<Symbol>) -> (r: Option<
    Action<Symbol, Direction>,
>)
    ensures
        r == lookup(t@, *k),
{
    t.get(k).copied()
}

/// `HashMap::contains_key` on a single-tape table. Claims: the result says
/// whether the table's view holds the reading.
#[verifier::external_body]
pub(crate) fn single_table_contains(t: &SingleTable, k: &Reading<Symbol>) -> (r: bool)
    ensures
        r == t@.contains_key(*k),
{
    t.contains_key(k)
}

/// `HashMap::insert` on a single-tape table. Claims: afterwards the table's
/// view is the old one with the action stored under the reading.
#[verifier::external_body]
pub(crate) fn single_table_insert(
    t: &mut SingleTable,
    k: Reading<Symbol>,
    v: Action<Symbol, Direction>,
)
    ensures
        final(t)@ == old(t)@.insert(k, v),
{
    t.insert(k, v);
}

/// `HashMap::get` on a table of `N`-symbol readings. Claims: the result is
/// the action that the table's view holds for the reading, `None` when it
/// holds none.
#[verifier::external_body]
pub(crate) fn array_table_get<const N: usize>(t: &ArrayTable<N>, k: &Reading<[Symbol; N]>) -> (r:
    Option<Action<[Symbol; N], [Direction; N]>>)
    ensures
        r == lookup(t@, *k),
{
    t.get(k).copied()
}

/// `HashMap::contains_key` on a table of `N`-symbol readings. Claims: the
/// result says whether the table's view holds the reading.
#[verifier::external_body]
pub(crate) fn array_table_contains<const N: usize>(
    t: &ArrayTable<N>,
    k: &Reading<[Symbol; N]>,
) -> (r: bool)
    ensures
        r == t@.contains_key(*k),
{
    t.contains_key(k)
}

/// `HashMap::insert` on a table of `N`-symbol readings. Claims: afterwards
/// the table's view is the old one with the action stored under the reading.
#[verifier::external_body]
pub(crate) fn array_table_insert<const N: usize>(
    t: &mut ArrayTable<N>,
    k: Reading<[Symbol; N]>,
    v: Action<[Symbol; N], [Direction; N]>,
)
    ensures
        final(t)@ == old(t)@.insert(k, v),
{
    t.insert(k, v);
}

/// `FromIterator::from_iter` of an `FxHashSet` over the states of a vector.
/// Claims: the set's view holds exactly the states of the vector.
#[verifier::external_body]
pub(crate) fn state_set_from(states: Vec<State>) -> (r: FxHashSet<State>)
    ensures
        r@ == states@.to_set(),
{
    states.into_iter().collect()
}

/// `HashSet::contains` on a set of states. Claims: the result says whether
/// the set's view holds the state.
#[verifier::external_body]
pub(crate) fn state_set_contains(s: &FxHashSet<State>, k: &State) -> (r: bool)
    ensures
        r == s@.contains(*k),
{
    s.contains(k)
}

} // verus!
