//! Tables of the interpreter's heap: associations from keys to values in
//! which a missing key and a key bound to nil are the same thing.

use vstd::prelude::*;
use crate::slot::Slot;

verus! {

/// The position of the entry that binds `k`: the last one with that key.
pub open spec fn spec_find(e: Seq<(Slot, Slot)>, k: Slot) -> Option<int>
    decreases e.len(),
{
    if e.len() == 0 {
        None
    } else if e.last().0 == k {
        Some(e.len() - 1)
    } else {
        spec_find(e.drop_last(), k)
    }
}

/// The mathematical content of a table.
pub struct TableView {
    /// The bindings, in the order in which their keys first appeared.
    pub entries: Seq<(Slot, Slot)>,
    /// The handle of the table's metatable, if it has one.
    pub meta: Option<usize>,
}

impl TableView {
    /// A table without bindings or metatable.
    pub open spec fn empty() -> TableView {
        TableView { entries: Seq::empty(), meta: None }
    }

    /// The value bound to `k`; nil where nothing is bound.
    pub open spec fn get(self, k: Slot) -> Slot {
        match spec_find(self.entries, k) {
            Some(i) => self.entries[i].1,
            None => Slot::Nil,
        }
    }

    /// The table after binding `k` to `v`.
    pub open spec fn set(self, k: Slot, v: Slot) -> TableView {
        match spec_find(self.entries, k) {
            Some(i) => TableView { entries: self.entries.update(i, (k, v)), ..self },
            None => TableView { entries: self.entries.push((k, v)), ..self },
        }
    }

    /// The table with another metatable.
    pub open spec fn with_meta(self, meta: Option<usize>) -> TableView {
        TableView { meta, ..self }
    }

    /// Whether the integer keys `1..=n` are all bound to non-nil values.
    pub open spec fn filled_to(self, n: int) -> bool {
        forall|i: int| 1 <= i <= n ==> #[trigger] self.get(Slot::Int(i as i64)) != Slot::Nil
    }

    /// Whether `n` is the length of the table's array part: keys `1..=n`
    /// are bound and key `n + 1` is not.
    pub open spec fn is_border(self, n: int) -> bool {
        &&& 0 <= n <= i64::MAX
        &&& self.filled_to(n)
        &&& (n < i64::MAX ==> self.get(Slot::Int((n + 1) as i64)) == Slot::Nil)
    }
}

/// What `spec_find` returns is the last entry with the key, and it
/// returns nothing only where no entry has the key.
pub proof fn lemma_find(e: Seq<(Slot, Slot)>, k: Slot)
    ensures
        match spec_find(e, k) {
            Some(i) => 0 <= i < e.len() && e[i].0 == k && forall|j: int|
                i < j < e.len() ==> (#[trigger] e[j]).0 != k,
            None => forall|j: int| 0 <= j < e.len() ==> (#[trigger] e[j]).0 != k,
        },
    decreases e.len(),
{
    if e.len() == 0 {
    } else if e.last().0 == k {
    } else {
        lemma_find(e.drop_last(), k);
        let d = e.drop_last();
        assert forall|j: int| 0 <= j < d.len() implies d[j] == e[j] by {}
        match spec_find(d, k) {
            Some(i) => {
                assert forall|j: int| i < j < e.len() implies (#[trigger] e[j]).0 != k by {
                    if j < d.len() {
                        assert(d[j] == e[j]);
                    }
                }
            },
            None => {
                assert forall|j: int| 0 <= j < e.len() implies (#[trigger] e[j]).0 != k by {
                    if j < d.len() {
                        assert(d[j] == e[j]);
                    }
                }
            },
        }
    }
}

/// An index is what `spec_find` returns as soon as it holds the key and
/// no later entry does.
pub proof fn lemma_find_is(e: Seq<(Slot, Slot)>, k: Slot, i: int)
    requires
        0 <= i < e.len(),
        e[i].0 == k,
        forall|j: int| i < j < e.len() ==> (#[trigger] e[j]).0 != k,
    ensures
        spec_find(e, k) == Some(i),
    decreases e.len(),
{
    if e.last().0 == k {
        if i < e.len() - 1 {
            assert(e[e.len() - 1].0 != k);
        }
    } else {
        let d = e.drop_last();
        assert(i < d.len());
        assert forall|j: int| i < j < d.len() implies (#[trigger] d[j]).0 != k by {
            assert(d[j] == e[j]);
        }
        lemma_find_is(d, k, i);
    }
}

/// Nothing is found where no entry holds the key.
pub proof fn lemma_find_none(e: Seq<(Slot, Slot)>, k: Slot)
    requires
        forall|j: int| 0 <= j < e.len() ==> (#[trigger] e[j]).0 != k,
    ensures
        spec_find(e, k).is_none(),
    decreases e.len(),
{
    if e.len() > 0 {
        assert(e[e.len() - 1].0 != k);
        let d = e.drop_last();
        assert forall|j: int| 0 <= j < d.len() implies (#[trigger] d[j]).0 != k by {
            assert(d[j] == e[j]);
        }
        lemma_find_none(d, k);
    }
}

/// Reading after writing: a table updated at `k` answers `v` for `k` and
/// what it answered before for every other key.
pub proof fn lemma_get_set(t: TableView, k: Slot, v: Slot, k2: Slot)
    ensures
        t.set(k, v).get(k2) == if k2 == k {
            v
        } else {
            t.get(k2)
        },
        t.set(k, v).meta == t.meta,
{
    let e = t.entries;
    lemma_find(e, k);
    lemma_find(e, k2);
    match spec_find(e, k) {
        Some(i) => {
            let e2 = e.update(i, (k, v));
            if k2 == k {
                lemma_find_is(e2, k, i);
            } else {
                match spec_find(e, k2) {
                    Some(i2) => {
                        assert(i2 != i);
                        lemma_find_is(e2, k2, i2);
                    },
                    None => {
                        lemma_find_none(e2, k2);
                    },
                }
            }
        },
        None => {
            let e2 = e.push((k, v));
            if k2 == k {
                assert(e2.last().0 == k);
            } else {
                assert(e2.last().0 != k2);
                assert(e2.drop_last() =~= e);
            }
        },
    }
}

/// A table of the interpreter's heap.
pub struct Table {
    entries: Vec<(Slot, Slot)>,
    meta: Option<usize>,
}

impl View for Table {
    type V = TableView;

    closed spec fn view(&self) -> TableView {
        TableView { entries: self.entries@, meta: self.meta }
    }
}

impl Table {
    /// A table without bindings or metatable.
    pub fn new() -> (t: Table)
        ensures
            t@ == TableView::empty(),
    {
        Table { entries: Vec::new(), meta: None }
    }

    /// The position of the entry that binds `k`, if there is one.
    fn find(&self, k: Slot) -> (r: Option<usize>)
        ensures
            match r {
                Some(i) => spec_find(self@.entries, k) == Some(i as int) && i < self@.entries.len(),
                None => spec_find(self@.entries, k).is_none(),
            },
    {
        let mut i: usize = self.entries.len();
        while i > 0
            invariant
                i <= self.entries.len(),
                forall|j: int| i <= j < self.entries@.len() ==> (#[trigger] self.entries@[j]).0 != k,
            decreases i,
        {
            i = i - 1;
            if self.entries[i].0 == k {
                proof {
                    lemma_find_is(self.entries@, k, i as int);
                }
                return Some(i);
            }
        }
        proof {
            lemma_find_none(self.entries@, k);
        }
        None
    }

    /// The value bound to `k`; nil where nothing is bound.
    pub fn get(&self, k: Slot) -> (v: Slot)
        ensures
            v == self@.get(k),
    {
        match self.find(k) {
            Some(i) => self.entries[i].1,
            None => Slot::Nil,
        }
    }

    /// Binds `k` to `v`.
    pub fn set(&mut self, k: Slot, v: Slot)
        ensures
            final(self)@ == old(self)@.set(k, v),
    {
        match self.find(k) {
            Some(i) => {
                self.entries[i] = (k, v);
            },
            None => {
                self.entries.push((k, v));
            },
        }
    }

    /// The handle of the metatable, if the table has one.
    pub fn meta(&self) -> (m: Option<usize>)
        ensures
            m == self@.meta,
    {
        self.meta
    }

    /// Gives the table another metatable, or none.
    pub fn set_meta(&mut self, meta: Option<usize>)
        ensures
            final(self)@ == old(self)@.with_meta(meta),
    {
        self.meta = meta;
    }

    /// The length of the array part: the `n` for which keys `1..=n` are
    /// bound and key `n + 1` is not.
    pub fn border(&self) -> (n: usize)
        ensures
            self@.is_border(n as int),
    {
        let len: usize = self.entries.len();
        let mut n: usize = 0;
        loop
            invariant
                self@.filled_to(n as int),
                len == self.entries@.len(),
                n <= len,
                n <= i64::MAX,
            decreases self.entries@.len() - n,
        {
            if n as u64 >= 0x7fff_ffff_ffff_ffffu64 {
                return n;
            }
            let next: i64 = (n as u64 + 1) as i64;
            let bound = self.get(Slot::Int(next));
            if bound.is_nil() {
                return n;
            }
            proof {
                assert forall|i: int| 1 <= i <= n + 1 implies #[trigger] self@.get(
                    Slot::Int(i as i64),
                ) != Slot::Nil by {
                    if i <= n {
                        assert(self@.filled_to(n as int));
                    }
                }
                self.lemma_filled_bound((n + 1) as int);
            }
            n = n + 1;
        }
    }

    /// A table cannot bind more integer keys than it has entries.
    proof fn lemma_filled_bound(&self, n: int)
        requires
            0 <= n <= i64::MAX,
            self@.filled_to(n),
        ensures
            n <= self@.entries.len(),
    {
        lemma_injection_bound(self@, n, n);
    }
}

/// The positions of the keys `1..=m` are `m` distinct positions.
proof fn lemma_injection_bound(t: TableView, n: int, m: int)
    requires
        0 <= m <= n <= i64::MAX,
        t.filled_to(n),
    ensures
        Set::new(
            |p: int|
                exists|i: int|
                    1 <= i <= m && #[trigger] spec_find(t.entries, Slot::Int(i as i64)) == Some(p),
        ).finite(),
        Set::new(
            |p: int|
                exists|i: int|
                    1 <= i <= m && #[trigger] spec_find(t.entries, Slot::Int(i as i64)) == Some(p),
        ).len() == m,
        Set::new(
            |p: int|
                exists|i: int|
                    1 <= i <= m && #[trigger] spec_find(t.entries, Slot::Int(i as i64)) == Some(p),
        ).subset_of(Set::new(|p: int| 0 <= p < t.entries.len())),
        m <= t.entries.len(),
    decreases m,
{
    let full = Set::new(|p: int| 0 <= p < t.entries.len());
    let cur = Set::new(
        |p: int|
            exists|i: int|
                1 <= i <= m && #[trigger] spec_find(t.entries, Slot::Int(i as i64)) == Some(p),
    );
    vstd::set_lib::lemma_int_range(0, t.entries.len() as int);
    assert(full =~= vstd::set_lib::set_int_range(0, t.entries.len() as int));
    if m == 0 {
        assert(cur =~= Set::<int>::empty());
    } else {
        lemma_injection_bound(t, n, m - 1);
        let prev = Set::new(
            |p: int|
                exists|i: int|
                    1 <= i <= m - 1 && #[trigger] spec_find(t.entries, Slot::Int(i as i64))
                        == Some(p),
        );
        lemma_find(t.entries, Slot::Int(m as i64));
        assert(t.get(Slot::Int(m as i64)) != Slot::Nil);
        let pm = spec_find(t.entries, Slot::Int(m as i64)).unwrap();
        assert(!prev.contains(pm)) by {
            if prev.contains(pm) {
                let i = choose|i: int|
                    1 <= i <= m - 1 && #[trigger] spec_find(t.entries, Slot::Int(i as i64))
                        == Some(pm);
                lemma_find(t.entries, Slot::Int(i as i64));
                assert(Slot::Int(i as i64) == Slot::Int(m as i64));
            }
        }
        assert(cur =~= prev.insert(pm)) by {
            assert forall|p: int| cur.contains(p) implies prev.insert(pm).contains(p) by {
                let i = choose|i: int|
                    1 <= i <= m && #[trigger] spec_find(t.entries, Slot::Int(i as i64)) == Some(p);
                if i == m {
                } else {
                    assert(1 <= i <= m - 1);
                }
            }
            assert forall|p: int| prev.insert(pm).contains(p) implies cur.contains(p) by {
                if p == pm {
                    assert(spec_find(t.entries, Slot::Int(m as i64)) == Some(pm));
                } else {
                    let i = choose|i: int|
                        1 <= i <= m - 1 && #[trigger] spec_find(t.entries, Slot::Int(i as i64))
                            == Some(p);
                    assert(1 <= i <= m);
                }
            }
        }
        assert(cur.subset_of(full)) by {
            assert forall|p: int| cur.contains(p) implies full.contains(p) by {
                let i = choose|i: int|
                    1 <= i <= m && #[trigger] spec_find(t.entries, Slot::Int(i as i64)) == Some(p);
                lemma_find(t.entries, Slot::Int(i as i64));
            }
        }
        vstd::set_lib::lemma_len_subset(cur, full);
    }
}

} // verus!
