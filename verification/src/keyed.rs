//! Entries kept under string keys in ascending order of the keys, each key
//! once: the order in which a leaderboard lists its members and a member its
//! days.

use vstd::prelude::*;
use crate::text::{
    compare,
    lemma_lex_irreflexive,
    lemma_lex_total,
    lemma_lex_transitive,
    lex_lt,
    Order,
};

verus! {

/// The keys of a list of entries, in the order of the list.
pub open spec fn keys_of<T>(entries: Seq<(String, T)>) -> Seq<Seq<char>> {
    Seq::new(entries.len(), |i: int| entries[i].0@)
}

/// Whether each key comes before all the keys after it.
pub open spec fn ascending(keys: Seq<Seq<char>>) -> bool {
    forall|i: int, j: int|
        0 <= i < j < keys.len() ==> lex_lt(#[trigger] keys[i], #[trigger] keys[j])
}

/// The number of keys that come before `key`.
pub open spec fn count_before(keys: Seq<Seq<char>>, key: Seq<char>) -> int
    decreases keys.len(),
{
    if keys.len() == 0 {
        0
    } else {
        count_before(keys.drop_last(), key) + if lex_lt(keys.last(), key) {
            1int
        } else {
            0int
        }
    }
}

/// The place of `key` among `keys`, if it is one of them.
pub open spec fn position_of(keys: Seq<Seq<char>>, key: Seq<char>) -> Option<int> {
    let at = count_before(keys, key);
    if at < keys.len() && keys[at] == key {
        Some(at)
    } else {
        None
    }
}

/// The entries with `value` put under `key`: in place of the entry that has
/// this key, or else at the place that keeps the keys ascending.
pub open spec fn with_entry<T>(entries: Seq<(String, T)>, key: String, value: T) -> Seq<
    (String, T),
> {
    let at = count_before(keys_of(entries), key@);
    if position_of(keys_of(entries), key@) is Some {
        entries.update(at, (key, value))
    } else {
        entries.insert(at, (key, value))
    }
}

/// No more keys come before `key` than there are keys.
pub proof fn lemma_count_before_bounds(keys: Seq<Seq<char>>, key: Seq<char>)
    ensures
        0 <= count_before(keys, key) <= keys.len(),
    decreases keys.len(),
{
    if keys.len() > 0 {
        lemma_count_before_bounds(keys.drop_last(), key);
    }
}

/// Among ascending keys, those before `key` are the first `count_before`.
pub proof fn lemma_count_before(keys: Seq<Seq<char>>, key: Seq<char>)
    requires
        ascending(keys),
    ensures
        0 <= count_before(keys, key) <= keys.len(),
        forall|i: int| 0 <= i < count_before(keys, key) ==> lex_lt(#[trigger] keys[i], key),
        forall|i: int|
            count_before(keys, key) <= i < keys.len() ==> !lex_lt(#[trigger] keys[i], key),
    decreases keys.len(),
{
    if keys.len() > 0 {
        let front = keys.drop_last();
        assert forall|i: int, j: int| 0 <= i < j < front.len() implies lex_lt(
            #[trigger] front[i],
            #[trigger] front[j],
        ) by {
            assert(front[i] == keys[i] && front[j] == keys[j]);
        }
        lemma_count_before(front, key);
        let n = count_before(front, key);
        if lex_lt(keys.last(), key) {
            assert forall|i: int| 0 <= i < front.len() implies lex_lt(#[trigger] keys[i], key) by {
                assert(lex_lt(keys[i], keys[keys.len() - 1]));
                lemma_lex_transitive(keys[i], keys.last(), key);
            }
            if n < front.len() {
                assert(front[n] == keys[n]);
                assert(!lex_lt(front[n], key));
            }
            assert(n == front.len());
        } else {
            assert forall|i: int| n <= i < keys.len() implies !lex_lt(#[trigger] keys[i], key) by {
                if i < front.len() {
                    assert(front[i] == keys[i]);
                }
            }
            assert forall|i: int| 0 <= i < n implies lex_lt(#[trigger] keys[i], key) by {
                assert(front[i] == keys[i]);
            }
        }
    }
}

/// A key is found exactly where it stands, and a key that stands nowhere is
/// not found.
pub proof fn lemma_position_of(keys: Seq<Seq<char>>, key: Seq<char>)
    requires
        ascending(keys),
    ensures
        match position_of(keys, key) {
            Some(at) => 0 <= at < keys.len() && keys[at] == key,
            None => forall|i: int| 0 <= i < keys.len() ==> #[trigger] keys[i] != key,
        },
        forall|i: int|
            0 <= i < keys.len() && #[trigger] keys[i] == key ==> position_of(keys, key) == Some(i),
{
    lemma_count_before(keys, key);
    let at = count_before(keys, key);
    lemma_lex_irreflexive(key);
    assert forall|i: int| 0 <= i < keys.len() && #[trigger] keys[i] == key implies i == at by {
        if i < at {
            assert(lex_lt(keys[i], key));
        } else if i > at {
            assert(lex_lt(keys[at], keys[i]));
            assert(!lex_lt(keys[at], key));
        }
    }
}

/// Putting an entry under a key keeps the keys ascending.
pub proof fn lemma_with_entry_ascending<T>(entries: Seq<(String, T)>, key: String, value: T)
    requires
        ascending(keys_of(entries)),
    ensures
        ascending(keys_of(with_entry(entries, key, value))),
        position_of(keys_of(with_entry(entries, key, value)), key@) == Some(
            count_before(keys_of(entries), key@),
        ),
{
    let keys = keys_of(entries);
    let at = count_before(keys, key@);
    lemma_count_before(keys, key@);
    lemma_position_of(keys, key@);
    let after = with_entry(entries, key, value);
    let after_keys = keys_of(after);
    if position_of(keys, key@) is Some {
        assert(after_keys =~= keys);
    } else {
        assert(after_keys =~= keys.insert(at, key@));
        assert forall|i: int, j: int| 0 <= i < j < after_keys.len() implies lex_lt(
            #[trigger] after_keys[i],
            #[trigger] after_keys[j],
        ) by {
            if j < at {
                assert(after_keys[i] == keys[i] && after_keys[j] == keys[j]);
            } else if j == at {
                assert(after_keys[i] == keys[i]);
            } else if i == at {
                assert(after_keys[j] == keys[j - 1]);
                assert(!lex_lt(keys[j - 1], key@));
                assert(keys[j - 1] != key@);
                lemma_lex_total(keys[j - 1], key@);
            } else if i < at {
                assert(after_keys[i] == keys[i] && after_keys[j] == keys[j - 1]);
            } else {
                assert(after_keys[i] == keys[i - 1] && after_keys[j] == keys[j - 1]);
            }
        }
    }
    lemma_position_of(after_keys, key@);
    assert(after_keys[at] == key@);
}

/// What holds of all entries and of a new value holds of all entries once the
/// value is put among them.
pub proof fn lemma_with_entry_keeps<T>(
    entries: Seq<(String, T)>,
    key: String,
    value: T,
    holds: spec_fn(T) -> bool,
)
    requires
        forall|i: int| 0 <= i < entries.len() ==> holds((#[trigger] entries[i]).1),
        holds(value),
    ensures
        forall|i: int|
            0 <= i < with_entry(entries, key, value).len() ==> holds(
                (#[trigger] with_entry(entries, key, value)[i]).1,
            ),
{
    let after = with_entry(entries, key, value);
    let at = count_before(keys_of(entries), key@);
    lemma_count_before_bounds(keys_of(entries), key@);
    assert forall|i: int| 0 <= i < after.len() implies holds((#[trigger] after[i]).1) by {
        if position_of(keys_of(entries), key@) is Some {
            if i != at {
                assert(after[i] == entries[i]);
            }
        } else {
            if i < at {
                assert(after[i] == entries[i]);
            } else if i > at {
                assert(after[i] == entries[i - 1]);
            }
        }
    }
}

/// Finds the entry that stands under `key`.
pub(crate) fn find<T>(entries: &Vec<(String, T)>, key: &str) -> (found: Option<usize>)
    requires
        ascending(keys_of(entries@)),
    ensures
        match found {
            Some(at) => position_of(keys_of(entries@), key@) == Some(at as int),
            None => position_of(keys_of(entries@), key@) is None,
        },
{
    let ghost keys = keys_of(entries@);
    let mut at: usize = 0;
    while at < entries.len()
        invariant
            at <= entries.len(),
            keys == keys_of(entries@),
            ascending(keys),
            forall|i: int| 0 <= i < at ==> lex_lt(#[trigger] keys[i], key@),
        decreases entries.len() - at,
    {
        let order = compare(entries[at].0.as_str(), key);
        assert(keys[at as int] == entries@[at as int].0@);
        match order {
            Order::Before => {},
            Order::Same => {
                proof {
                    lemma_position_of(keys, key@);
                }
                return Some(at);
            },
            Order::After => {
                proof {
                    lemma_position_of(keys, key@);
                    lemma_count_before(keys, key@);
                    lemma_lex_irreflexive(key@);
                    let p = count_before(keys, key@);
                    if position_of(keys, key@) is Some {
                        if p < at {
                            assert(lex_lt(keys[p], key@));
                        } else if p > at {
                            assert(lex_lt(keys[at as int], keys[p]));
                            lemma_lex_transitive(key@, keys[at as int], keys[p]);
                        }
                    }
                }
                return None;
            },
        }
        at = at + 1;
    }
    proof {
        lemma_position_of(keys, key@);
        lemma_lex_irreflexive(key@);
        if position_of(keys, key@) is Some {
            let p = position_of(keys, key@).unwrap();
            assert(lex_lt(keys[p], key@));
        }
    }
    None
}

/// Puts `value` under `key`, in place of what stood there.
pub(crate) fn put<T>(entries: &mut Vec<(String, T)>, key: String, value: T)
    requires
        ascending(keys_of(old(entries)@)),
    ensures
        final(entries)@ == with_entry(old(entries)@, key, value),
        ascending(keys_of(final(entries)@)),
{
    let ghost keys = keys_of(entries@);
    let mut at: usize = 0;
    while at < entries.len()
        invariant
            at <= entries.len(),
            entries@ == old(entries)@,
            keys == keys_of(entries@),
            ascending(keys),
            forall|i: int| 0 <= i < at ==> lex_lt(#[trigger] keys[i], key@),
        decreases entries.len() - at,
    {
        let order = compare(entries[at].0.as_str(), key.as_str());
        assert(keys[at as int] == entries@[at as int].0@);
        match order {
            Order::Before => {},
            Order::Same => {
                proof {
                    lemma_position_of(keys, key@);
                    lemma_with_entry_ascending(entries@, key, value);
                }
                entries.set(at, (key, value));
                return ;
            },
            Order::After => {
                proof {
                    lemma_count_before(keys, key@);
                    let p = count_before(keys, key@);
                    if p < at {
                        assert(lex_lt(keys[p], key@));
                    } else if p > at {
                        assert(lex_lt(keys[at as int], key@));
                    }
                    assert(p == at);
                    lemma_position_of(keys, key@);
                    lemma_with_entry_ascending(entries@, key, value);
                }
                entries.insert(at, (key, value));
                return ;
            },
        }
        at = at + 1;
    }
    proof {
        lemma_count_before(keys, key@);
        let p = count_before(keys, key@);
        if p < at {
            assert(lex_lt(keys[p], key@));
        }
        assert(entries@.insert(at as int, (key, value)) =~= entries@.push((key, value)));
        lemma_position_of(keys, key@);
        lemma_with_entry_ascending(entries@, key, value);
    }
    entries.push((key, value));
}

/// Entries as they are seen from outside: each key as its characters, each
/// value as what it holds.
pub type Keyed<T> = Seq<(Seq<char>, T)>;

/// The keys of a list of entries.
pub open spec fn entry_keys<T>(entries: Keyed<T>) -> Seq<Seq<char>> {
    Seq::new(entries.len(), |i: int| entries[i].0)
}

/// `with_entry` on what the entries hold: `value` put under `key`, in place
/// of the entry that has this key, or else where the keys stay ascending.
pub open spec fn view_with_entry<T>(entries: Keyed<T>, key: Seq<char>, value: T) -> Keyed<T> {
    let at = count_before(entry_keys(entries), key);
    if position_of(entry_keys(entries), key) is Some {
        entries.update(at, (key, value))
    } else {
        entries.insert(at, (key, value))
    }
}

/// What the entries hold, each value seen through `see`.
pub open spec fn entries_view<T, V>(entries: Seq<(String, T)>, see: spec_fn(T) -> V) -> Keyed<V> {
    Seq::new(entries.len(), |i: int| (entries[i].0@, see(entries[i].1)))
}

/// Putting an entry and then looking at what the entries hold gives the same
/// as looking first and putting what the entry holds.
pub proof fn lemma_view_with_entry<T, V>(
    entries: Seq<(String, T)>,
    key: String,
    value: T,
    see: spec_fn(T) -> V,
)
    ensures
        entries_view(with_entry(entries, key, value), see) == view_with_entry(
            entries_view(entries, see),
            key@,
            see(value),
        ),
{
    assert(entry_keys(entries_view(entries, see)) =~= keys_of(entries));
    lemma_count_before_bounds(keys_of(entries), key@);
    assert(entries_view(with_entry(entries, key, value), see) =~= view_with_entry(
        entries_view(entries, see),
        key@,
        see(value),
    ));
}

/// An entry whose key comes after all the others goes to the end.
pub proof fn lemma_view_with_entry_appends<T>(entries: Keyed<T>, key: Seq<char>, value: T)
    requires
        ascending(entry_keys(entries)),
        forall|i: int| 0 <= i < entries.len() ==> lex_lt(#[trigger] entries[i].0, key),
    ensures
        view_with_entry(entries, key, value) == entries.push((key, value)),
{
    let keys = entry_keys(entries);
    lemma_count_before(keys, key);
    let at = count_before(keys, key);
    if at < keys.len() {
        assert(!lex_lt(keys[at], key));
        assert(keys[at] == entries[at].0);
    }
    assert(entries.insert(at, (key, value)) =~= entries.push((key, value)));
}

} // verus!
