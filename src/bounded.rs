//! The mathematical model of a bounded cache that evicts by write order.
//!
//! A cache is modelled as its entries, oldest write first. Writing a key moves it to the end;
//! writing a new key into a full cache drops the first entry. Reading changes nothing.
use vstd::prelude::*;

verus! {

/// Whether `key` is stored among `entries`.
pub open spec fn holds_key<V>(entries: Seq<(Seq<char>, V)>, key: Seq<char>) -> bool {
    exists|i: int| 0 <= i < entries.len() && #[trigger] entries[i].0 == key
}

/// The position of `key` among `entries`, where it is stored.
pub open spec fn slot_of<V>(entries: Seq<(Seq<char>, V)>, key: Seq<char>) -> int {
    choose|i: int| 0 <= i < entries.len() && #[trigger] entries[i].0 == key
}

/// The value stored under `key`, if any.
pub open spec fn lookup<V>(entries: Seq<(Seq<char>, V)>, key: Seq<char>) -> Option<V> {
    if holds_key(entries, key) {
        Some(entries[slot_of(entries, key)].1)
    } else {
        None
    }
}

/// No key is stored twice.
pub open spec fn keys_unique<V>(entries: Seq<(Seq<char>, V)>) -> bool {
    forall|i: int, j: int|
        0 <= i < j < entries.len() ==> #[trigger] entries[i].0 != #[trigger] entries[j].0
}

/// A well-formed bounded cache: a positive capacity that is never exceeded, unique keys.
pub open spec fn bounded_wf<V>(entries: Seq<(Seq<char>, V)>, capacity: nat) -> bool {
    &&& 0 < capacity
    &&& entries.len() <= capacity
    &&& keys_unique(entries)
}

/// The entries after writing `value` under `key`: the key becomes the most recent write, and
/// a new key in a full cache pushes out the oldest write.
pub open spec fn after_put<V>(
    entries: Seq<(Seq<char>, V)>,
    capacity: nat,
    key: Seq<char>,
    value: V,
) -> Seq<(Seq<char>, V)> {
    if holds_key(entries, key) {
        entries.remove(slot_of(entries, key)).push((key, value))
    } else if entries.len() < capacity {
        entries.push((key, value))
    } else {
        entries.drop_first().push((key, value))
    }
}

/// The entries after storing `value` under `key` in a keyed list without eviction: an existing
/// key keeps its place and takes the new value; a new key goes last.
pub open spec fn with_entry<V>(entries: Seq<(Seq<char>, V)>, key: Seq<char>, value: V) -> Seq<(Seq<char>, V)> {
    if holds_key(entries, key) {
        entries.update(slot_of(entries, key), (key, value))
    } else {
        entries.push((key, value))
    }
}

/// The entries of a keyed list once `key` is removed from it.
pub open spec fn without_entry<V>(entries: Seq<(Seq<char>, V)>, key: Seq<char>) -> Seq<(Seq<char>, V)> {
    if holds_key(entries, key) {
        entries.remove(slot_of(entries, key))
    } else {
        entries
    }
}

/// The entries after writing each of `writes` in turn, starting from `entries`.
pub open spec fn after_puts<V>(
    entries: Seq<(Seq<char>, V)>,
    capacity: nat,
    writes: Seq<(Seq<char>, V)>,
) -> Seq<(Seq<char>, V)>
    decreases writes.len(),
{
    if writes.len() == 0 {
        entries
    } else {
        let last = writes.last();
        after_put(after_puts(entries, capacity, writes.drop_last()), capacity, last.0, last.1)
    }
}

/// Writing keeps a cache well formed.
pub proof fn lemma_put_keeps_wf<V>(
    entries: Seq<(Seq<char>, V)>,
    capacity: nat,
    key: Seq<char>,
    value: V,
)
    requires
        bounded_wf(entries, capacity),
    ensures
        bounded_wf(after_put(entries, capacity, key, value), capacity),
{
    let r = after_put(entries, capacity, key, value);
    if holds_key(entries, key) {
        let s = slot_of(entries, key);
        let rest = entries.remove(s);
        assert forall|i: int, j: int| 0 <= i < j < r.len() implies r[i].0 != r[j].0 by {
            if j == r.len() - 1 {
                let ii = if i < s { i } else { i + 1 };
                assert(r[i] == entries[ii]);
                assert(entries[ii].0 != entries[s].0);
            } else {
                let ii = if i < s { i } else { i + 1 };
                let jj = if j < s { j } else { j + 1 };
                assert(r[i] == entries[ii] && r[j] == entries[jj]);
            }
        }
    } else if entries.len() < capacity {
        assert forall|i: int, j: int| 0 <= i < j < r.len() implies r[i].0 != r[j].0 by {
            if j == r.len() - 1 {
                assert(r[i] == entries[i]);
            } else {
                assert(r[i] == entries[i] && r[j] == entries[j]);
            }
        }
    } else {
        assert forall|i: int, j: int| 0 <= i < j < r.len() implies r[i].0 != r[j].0 by {
            if j == r.len() - 1 {
                assert(r[i] == entries[i + 1]);
            } else {
                assert(r[i] == entries[i + 1] && r[j] == entries[j + 1]);
            }
        }
    }
}

/// Right after `value` is written under `key`, reading `key` gives back `value`: a repeated
/// request for the same key is answered with exactly what the first one stored.
pub proof fn lemma_read_after_put<V>(
    entries: Seq<(Seq<char>, V)>,
    capacity: nat,
    key: Seq<char>,
    value: V,
)
    requires
        bounded_wf(entries, capacity),
    ensures
        lookup(after_put(entries, capacity, key, value), key) == Some(value),
{
    let r = after_put(entries, capacity, key, value);
    lemma_put_keeps_wf(entries, capacity, key, value);
    let last = r.len() - 1;
    assert(r[last].0 == key);
    assert(holds_key(r, key));
    let s = slot_of(r, key);
    assert(s == last);
}

/// Writing another key never changes what is stored under `key`: afterwards `key` holds its
/// old value, or nothing if the write evicted it. So a repeated request that still finds its
/// key gets exactly the value first stored under it, whatever was written in between.
pub proof fn lemma_put_other_key<V>(
    entries: Seq<(Seq<char>, V)>,
    capacity: nat,
    key: Seq<char>,
    other: Seq<char>,
    value: V,
)
    requires
        bounded_wf(entries, capacity),
        key != other,
    ensures
        lookup(after_put(entries, capacity, other, value), key) == lookup(entries, key)
            || lookup(after_put(entries, capacity, other, value), key) is None,
{
    let r = after_put(entries, capacity, other, value);
    lemma_put_keeps_wf(entries, capacity, other, value);
    if holds_key(r, key) {
        let i = slot_of(r, key);
        assert(r[i].0 == key);
        assert(i != r.len() - 1);
        let j = if holds_key(entries, other) {
            let s = slot_of(entries, other);
            if i < s { i } else { i + 1 }
        } else if entries.len() < capacity {
            i
        } else {
            i + 1
        };
        assert(r[i] == entries[j]);
        assert(holds_key(entries, key));
        let k = slot_of(entries, key);
        if k != j {
            if k < j {
                assert(entries[k].0 != entries[j].0);
            } else {
                assert(entries[j].0 != entries[k].0);
            }
        }
    }
}

/// Capacity law: writing `capacity + k` distinct keys (k > 0) into an empty cache leaves
/// exactly `capacity` entries, and the `k` keys written first are gone.
pub proof fn lemma_capacity_law<V>(capacity: nat, writes: Seq<(Seq<char>, V)>, k: nat)
    requires
        0 < capacity,
        0 < k,
        writes.len() == capacity + k,
        keys_unique(writes),
    ensures
        after_puts(Seq::empty(), capacity, writes).len() == capacity,
        forall|i: int|
            0 <= i < k ==> !holds_key(
                after_puts(Seq::empty(), capacity, writes),
                #[trigger] writes[i].0,
            ),
        forall|i: int|
            k <= i < writes.len() ==> holds_key(
                after_puts(Seq::empty(), capacity, writes),
                #[trigger] writes[i].0,
            ),
{
    lemma_distinct_writes(capacity, writes);
    let r = after_puts(Seq::empty(), capacity, writes);
    assert(r == writes.subrange(k as int, writes.len() as int));
    assert forall|i: int| 0 <= i < k implies !holds_key(r, #[trigger] writes[i].0) by {
        if holds_key(r, writes[i].0) {
            let j = choose|j: int| 0 <= j < r.len() && #[trigger] r[j].0 == writes[i].0;
            assert(r[j] == writes[j + k]);
        }
    }
    assert forall|i: int| k <= i < writes.len() implies holds_key(r, #[trigger] writes[i].0) by {
        assert(r[i - k] == writes[i]);
    }
}

/// Distinct writes into an empty cache leave the last `capacity` of them, in write order.
proof fn lemma_distinct_writes<V>(capacity: nat, writes: Seq<(Seq<char>, V)>)
    requires
        0 < capacity,
        keys_unique(writes),
    ensures
        after_puts(Seq::empty(), capacity, writes) == writes.subrange(
            writes.len() - if writes.len() <= capacity { writes.len() as int } else { capacity as int },
            writes.len() as int,
        ),
    decreases writes.len(),
{
    let n = writes.len() as int;
    if n > 0 {
        let front = writes.drop_last();
        assert(keys_unique(front)) by {
            assert forall|i: int, j: int| 0 <= i < j < front.len() implies front[i].0
                != front[j].0 by {
                assert(front[i] == writes[i] && front[j] == writes[j]);
            }
        }
        lemma_distinct_writes(capacity, front);
        let prev = after_puts(Seq::empty(), capacity, front);
        let a = (n - 1) - if n - 1 <= capacity { n - 1 } else { capacity as int };
        assert(prev == writes.subrange(a, n - 1));
        let last = writes.last();
        assert(!holds_key(prev, last.0)) by {
            if holds_key(prev, last.0) {
                let j = choose|j: int| 0 <= j < prev.len() && #[trigger] prev[j].0 == last.0;
                assert(prev[j] == writes[a + j]);
            }
        }
        let r = after_puts(Seq::empty(), capacity, writes);
        assert(r == after_put(prev, capacity, last.0, last.1));
        let b = n - if n <= capacity { n } else { capacity as int };
        if prev.len() < capacity {
            assert(r =~= writes.subrange(b, n));
        } else {
            assert(r =~= writes.subrange(b, n));
        }
    } else {
        assert(writes.subrange(0, 0) =~= Seq::<(Seq<char>, V)>::empty());
    }
}

} // verus!
