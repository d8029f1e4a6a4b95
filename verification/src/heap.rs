//! The interpreter's heap: interned byte strings, tables, opaque objects
//! and native closures, each addressed by a handle that stays valid for
//! the life of the heap.

use vstd::prelude::*;
use crate::slot::Slot;
use crate::table::{Table, TableView};

verus! {

/// The handle of the registry table.
pub const REGISTRY: usize = 0;

/// The handle of the table of globals.
pub const GLOBALS: usize = 1;

/// The registry key under which the main thread is kept.
pub const RIDX_MAINTHREAD: i64 = 1;

/// The registry key under which the table of globals is kept.
pub const RIDX_GLOBALS: i64 = 2;

/// An opaque object: host data that the interpreter owns or refers to.
#[derive(Clone, Copy, Debug, PartialEq, Eq, Structural)]
pub struct Userdata {
    /// The handle of the object's metatable, if it has one.
    pub meta: Option<usize>,
    /// The size of the block in bytes.
    pub size: usize,
    /// The host address that the object stands for.
    pub target: usize,
    /// The host address of the body stored inside the block, if the block
    /// stores one.
    pub inline: Option<usize>,
    /// The value attached to the object.
    pub uservalue: Slot,
}

/// The mathematical content of a native closure.
pub struct ClosureView {
    /// The identity of the native entry point.
    pub entry: usize,
    /// The values captured with it.
    pub upvalues: Seq<Slot>,
}

/// A native closure: an entry point with the values captured for it.
pub struct Closure {
    entry: usize,
    upvalues: Vec<Slot>,
}

impl View for Closure {
    type V = ClosureView;

    closed spec fn view(&self) -> ClosureView {
        ClosureView { entry: self.entry, upvalues: self.upvalues@ }
    }
}

/// The mathematical content of a heap.
pub struct HeapView {
    pub strings: Seq<Seq<u8>>,
    pub tables: Seq<TableView>,
    pub userdata: Seq<Userdata>,
    pub closures: Seq<ClosureView>,
    /// The number of threads created so far; thread 0 is the main thread.
    pub threads: nat,
}

/// The handle under which `b` is interned: that of its first occurrence,
/// or the next free handle.
pub open spec fn spec_intern_id(strings: Seq<Seq<u8>>, b: Seq<u8>) -> int {
    match strings.index_of_first(b) {
        Some(i) => i,
        None => strings.len() as int,
    }
}

/// The strings after interning `b`.
pub open spec fn spec_interned(strings: Seq<Seq<u8>>, b: Seq<u8>) -> Seq<Seq<u8>> {
    if strings.contains(b) {
        strings
    } else {
        strings.push(b)
    }
}

impl HeapView {
    /// The heap of a fresh interpreter: an empty table of globals, and a
    /// registry that holds the main thread and the globals.
    pub open spec fn initial() -> HeapView {
        HeapView {
            strings: Seq::empty(),
            tables: seq![
                TableView::empty().set(Slot::Int(RIDX_MAINTHREAD), Slot::Thread(0)).set(
                    Slot::Int(RIDX_GLOBALS),
                    Slot::Table(GLOBALS),
                ),
                TableView::empty(),
            ],
            userdata: Seq::empty(),
            closures: Seq::empty(),
            threads: 1,
        }
    }

    /// The heap always holds the registry and the table of globals, and
    /// every object has a handle.
    pub open spec fn wf(self) -> bool {
        &&& self.tables.len() >= 2
        &&& self.strings.len() <= usize::MAX
        &&& self.tables.len() <= usize::MAX
        &&& self.userdata.len() <= usize::MAX
        &&& self.closures.len() <= usize::MAX
    }

    /// The bytes of the string `id`, if there is such a string.
    pub open spec fn string(self, id: usize) -> Option<Seq<u8>> {
        if id < self.strings.len() {
            Some(self.strings[id as int])
        } else {
            None
        }
    }

    /// The heap after interning `b`.
    pub open spec fn intern(self, b: Seq<u8>) -> HeapView {
        HeapView { strings: spec_interned(self.strings, b), ..self }
    }

    /// The handle under which `b` is interned.
    pub open spec fn intern_id(self, b: Seq<u8>) -> int {
        spec_intern_id(self.strings, b)
    }

    /// The value that table `t` binds to `k`; nil where there is no such
    /// table.
    pub open spec fn table_get(self, t: usize, k: Slot) -> Slot {
        if t < self.tables.len() {
            self.tables[t as int].get(k)
        } else {
            Slot::Nil
        }
    }

    /// The heap after binding `k` to `v` in table `t`.
    pub open spec fn table_set(self, t: usize, k: Slot, v: Slot) -> HeapView {
        HeapView { tables: self.tables.update(t as int, self.tables[t as int].set(k, v)), ..self }
    }

    /// The metatable of table `t`, if it has one.
    pub open spec fn table_meta(self, t: usize) -> Option<usize> {
        if t < self.tables.len() {
            self.tables[t as int].meta
        } else {
            None
        }
    }

    /// The heap after giving table `t` the metatable `meta`.
    pub open spec fn with_table_meta(self, t: usize, meta: Option<usize>) -> HeapView {
        HeapView {
            tables: self.tables.update(t as int, self.tables[t as int].with_meta(meta)),
            ..self
        }
    }

    /// The heap with one more, empty, table.
    pub open spec fn with_new_table(self) -> HeapView {
        HeapView { tables: self.tables.push(TableView::empty()), ..self }
    }

    /// The heap with one more opaque object.
    pub open spec fn with_new_userdata(self, u: Userdata) -> HeapView {
        HeapView { userdata: self.userdata.push(u), ..self }
    }

    /// The heap with another record for the opaque object `id`.
    pub open spec fn with_userdata(self, id: usize, u: Userdata) -> HeapView {
        HeapView { userdata: self.userdata.update(id as int, u), ..self }
    }

    /// The opaque object `id`, if there is one.
    pub open spec fn get_userdata(self, id: usize) -> Option<Userdata> {
        if id < self.userdata.len() {
            Some(self.userdata[id as int])
        } else {
            None
        }
    }

    /// The heap with one more native closure.
    pub open spec fn with_new_closure(self, entry: usize, upvalues: Seq<Slot>) -> HeapView {
        HeapView { closures: self.closures.push(ClosureView { entry, upvalues }), ..self }
    }

    /// The closure `id`, if there is one.
    pub open spec fn get_closure(self, id: usize) -> Option<ClosureView> {
        if id < self.closures.len() {
            Some(self.closures[id as int])
        } else {
            None
        }
    }

    /// The heap with one more thread.
    pub open spec fn with_new_thread(self) -> HeapView {
        HeapView { threads: self.threads + 1, ..self }
    }

    /// Whether this heap can have come from `old` by creating objects and
    /// changing tables and opaque objects: every string and closure of
    /// `old` is unchanged, and every handle of `old` still names an
    /// object of its kind.
    pub open spec fn extends(self, old: HeapView) -> bool {
        &&& old.strings.len() <= self.strings.len()
        &&& self.strings.subrange(0, old.strings.len() as int) == old.strings
        &&& old.tables.len() <= self.tables.len()
        &&& old.userdata.len() <= self.userdata.len()
        &&& old.closures.len() <= self.closures.len()
        &&& self.closures.subrange(0, old.closures.len() as int) == old.closures
        &&& old.threads <= self.threads
    }
}

/// Interning keeps every string that was there.
pub proof fn lemma_intern_extends(h: HeapView, b: Seq<u8>)
    ensures
        h.intern(b).extends(h),
        0 <= h.intern_id(b) <= h.strings.len(),
        h.strings.len() <= usize::MAX ==> h.intern(b).string(h.intern_id(b) as usize) == Some(b),
{
    lemma_intern_again(h.strings, b);
    lemma_intern_keeps(h.strings, b, b);
    h.strings.index_of_first_ensures(b);
    assert(h.intern(b).strings.subrange(0, h.strings.len() as int) =~= h.strings);
    assert(h.intern(b).closures.subrange(0, h.closures.len() as int) =~= h.closures);
}

/// Interning the same bytes again changes nothing and gives the same
/// handle, under which the bytes are then found.
pub proof fn lemma_intern_again(strings: Seq<Seq<u8>>, b: Seq<u8>)
    ensures
        spec_interned(spec_interned(strings, b), b) == spec_interned(strings, b),
        spec_intern_id(spec_interned(strings, b), b) == spec_intern_id(strings, b),
        0 <= spec_intern_id(strings, b) < spec_interned(strings, b).len(),
        spec_interned(strings, b)[spec_intern_id(strings, b)] == b,
{
    let s2 = spec_interned(strings, b);
    strings.index_of_first_ensures(b);
    s2.index_of_first_ensures(b);
    if strings.contains(b) {
    } else {
        assert(s2[strings.len() as int] == b);
        assert(s2.contains(b));
        let i = s2.index_of_first(b).unwrap();
        if i < strings.len() {
            assert(strings[i] == s2[i]);
            assert(strings.contains(b));
        }
    }
}

/// Interning keeps every string where it was, and the handle of each
/// content that was interned before.
pub proof fn lemma_intern_keeps(strings: Seq<Seq<u8>>, b: Seq<u8>, c: Seq<u8>)
    ensures
        strings.len() <= spec_interned(strings, b).len(),
        forall|i: int| 0 <= i < strings.len() ==> spec_interned(strings, b)[i] == strings[i],
        strings.contains(c) ==> spec_intern_id(spec_interned(strings, b), c) == spec_intern_id(
            strings,
            c,
        ),
        spec_interned(strings, b).contains(c) <==> (strings.contains(c) || c == b),
{
    let s2 = spec_interned(strings, b);
    strings.index_of_first_ensures(c);
    s2.index_of_first_ensures(c);
    strings.index_of_first_ensures(b);
    if !strings.contains(b) {
        assert(s2[strings.len() as int] == b);
        assert forall|i: int| 0 <= i < strings.len() implies s2[i] == strings[i] by {}
        if strings.contains(c) {
            let i = strings.index_of_first(c).unwrap();
            assert(s2[i] == c);
            assert(s2.contains(c));
            let j = s2.index_of_first(c).unwrap();
            if j < i {
                assert(strings[j] == s2[j]);
            }
            if i < j {
                assert(s2[i] == c);
            }
        }
        if s2.contains(c) && c != b {
            let j = s2.index_of_first(c).unwrap();
            assert(j < strings.len());
            assert(strings[j] == c);
            assert(strings.contains(c));
        }
        if c == b {
            assert(s2.contains(c));
        }
    }
}

/// Whether two byte strings are equal.
pub fn bytes_eq(a: &[u8], b: &[u8]) -> (r: bool)
    ensures
        r == (a@ == b@),
{
    if a.len() != b.len() {
        return false;
    }
    let mut i: usize = 0;
    while i < a.len()
        invariant
            i <= a.len(),
            a.len() == b.len(),
            forall|j: int| 0 <= j < i ==> a@[j] == b@[j],
        decreases a.len() - i,
    {
        if a[i] != b[i] {
            return false;
        }
        i = i + 1;
    }
    proof {
        assert(a@ =~= b@);
    }
    true
}

/// A copy of a byte string.
pub fn bytes_to_vec(a: &[u8]) -> (v: Vec<u8>)
    ensures
        v@ == a@,
{
    let mut v: Vec<u8> = Vec::new();
    let mut i: usize = 0;
    while i < a.len()
        invariant
            i <= a.len(),
            v@ == a@.subrange(0, i as int),
        decreases a.len() - i,
    {
        v.push(a[i]);
        proof {
            assert(v@ =~= a@.subrange(0, i + 1));
        }
        i = i + 1;
    }
    proof {
        assert(a@.subrange(0, a@.len() as int) =~= a@);
    }
    v
}

/// The interpreter's heap.
pub struct Heap {
    strings: Vec<Vec<u8>>,
    tables: Vec<Table>,
    userdata: Vec<Userdata>,
    closures: Vec<Closure>,
    threads: usize,
}

impl View for Heap {
    type V = HeapView;

    closed spec fn view(&self) -> HeapView {
        HeapView {
            strings: Seq::new(self.strings@.len(), |i: int| self.strings@[i]@),
            tables: Seq::new(self.tables@.len(), |i: int| self.tables@[i]@),
            userdata: self.userdata@,
            closures: Seq::new(self.closures@.len(), |i: int| self.closures@[i]@),
            threads: self.threads as nat,
        }
    }
}

impl Heap {
    /// The heap always holds the registry and the table of globals, and
    /// every object has a handle.
    pub open spec fn wf(&self) -> bool {
        self@.wf()
    }

    /// Every object has a handle: the number of objects of a kind is a
    /// machine number.
    proof fn lemma_bounds(&self)
        ensures
            self@.strings.len() <= usize::MAX,
            self@.tables.len() <= usize::MAX,
            self@.userdata.len() <= usize::MAX,
            self@.closures.len() <= usize::MAX,
    {
        assert(self.strings.len() == self.strings@.len());
        assert(self.tables.len() == self.tables@.len());
        assert(self.userdata.len() == self.userdata@.len());
        assert(self.closures.len() == self.closures@.len());
    }

    /// The heap of a fresh interpreter.
    pub fn new() -> (h: Heap)
        ensures
            h@ == HeapView::initial(),
            h.wf(),
    {
        let mut registry = Table::new();
        registry.set(Slot::Int(RIDX_MAINTHREAD), Slot::Thread(0));
        registry.set(Slot::Int(RIDX_GLOBALS), Slot::Table(GLOBALS));
        let mut tables: Vec<Table> = Vec::new();
        tables.push(registry);
        tables.push(Table::new());
        let h = Heap {
            strings: Vec::new(),
            tables,
            userdata: Vec::new(),
            closures: Vec::new(),
            threads: 1,
        };
        proof {
            assert(h@.strings =~= HeapView::initial().strings);
            assert(h@.tables =~= HeapView::initial().tables);
            assert(h@.closures =~= HeapView::initial().closures);
        }
        h
    }

    /// Interns a byte string and returns its handle. Equal contents share
    /// one handle.
    pub fn intern(&mut self, b: &[u8]) -> (id: usize)
        requires
            old(self).wf(),
        ensures
            final(self)@ == old(self)@.intern(b@),
            id == old(self)@.intern_id(b@),
            final(self)@.string(id) == Some(b@),
            final(self).wf(),
    {
        proof {
            self@.strings.index_of_first_ensures(b@);
            lemma_intern_again(self@.strings, b@);
        }
        let mut i: usize = 0;
        while i < self.strings.len()
            invariant
                i <= self.strings@.len(),
                forall|j: int| 0 <= j < i ==> self@.strings[j] != b@,
                *self == *old(self),
                self.wf(),
            decreases self.strings@.len() - i,
        {
            if bytes_eq(self.strings[i].as_slice(), b) {
                proof {
                    let ss = self@.strings;
                    assert(ss[i as int] == b@);
                    assert(ss.contains(b@));
                    ss.index_of_first_ensures(b@);
                    lemma_intern_again(ss, b@);
                    let first = ss.index_of_first(b@).unwrap();
                    if first < i {
                        assert(ss[first] != b@);
                    }
                    if i < first {
                        assert(ss[i as int] != b@);
                    }
                }
                return i;
            }
            i = i + 1;
        }
        proof {
            assert(!self@.strings.contains(b@));
        }
        let id = self.strings.len();
        self.strings.push(bytes_to_vec(b));
        proof {
            self.lemma_bounds();
            assert(self@.strings =~= old(self)@.strings.push(b@));
            assert(self@.tables =~= old(self)@.tables);
            assert(self@.closures =~= old(self)@.closures);
        }
        id
    }

    /// The handle under which `b` is interned, if it is interned.
    pub fn find_string(&self, b: &[u8]) -> (r: Option<usize>)
        ensures
            match r {
                Some(id) => self@.strings.contains(b@) && id == self@.intern_id(b@)
                    && self@.string(id) == Some(b@),
                None => !self@.strings.contains(b@),
            },
    {
        let mut i: usize = 0;
        while i < self.strings.len()
            invariant
                i <= self.strings@.len(),
                forall|j: int| 0 <= j < i ==> self@.strings[j] != b@,
            decreases self.strings@.len() - i,
        {
            if bytes_eq(self.strings[i].as_slice(), b) {
                proof {
                    let ss = self@.strings;
                    assert(ss[i as int] == b@);
                    assert(ss.contains(b@));
                    ss.index_of_first_ensures(b@);
                    let first = ss.index_of_first(b@).unwrap();
                    if first < i {
                        assert(ss[first] != b@);
                    }
                    if i < first {
                        assert(ss[i as int] != b@);
                    }
                }
                return Some(i);
            }
            i = i + 1;
        }
        proof {
            assert(!self@.strings.contains(b@));
        }
        None
    }

    /// The bytes of the string `id`, if there is such a string.
    pub fn string(&self, id: usize) -> (r: Option<&Vec<u8>>)
        ensures
            match r {
                Some(v) => self@.string(id) == Some(v@),
                None => self@.string(id).is_none(),
            },
    {
        if id < self.strings.len() {
            Some(&self.strings[id])
        } else {
            None
        }
    }

    /// Whether `t` is the handle of a table.
    pub fn is_table(&self, t: usize) -> (r: bool)
        ensures
            r == (t < self@.tables.len()),
    {
        t < self.tables.len()
    }

    /// Creates an empty table and returns its handle.
    pub fn new_table(&mut self) -> (t: usize)
        requires
            old(self).wf(),
        ensures
            final(self)@ == old(self)@.with_new_table(),
            t == old(self)@.tables.len(),
            final(self).wf(),
    {
        let t = self.tables.len();
        self.tables.push(Table::new());
        proof {
            self.lemma_bounds();
            assert(self@.strings =~= old(self)@.strings);
            assert(self@.tables =~= old(self)@.tables.push(TableView::empty()));
            assert(self@.closures =~= old(self)@.closures);
        }
        t
    }

    /// The value that table `t` binds to `k`; nil where nothing is bound.
    pub fn table_get(&self, t: usize, k: Slot) -> (v: Slot)
        ensures
            v == self@.table_get(t, k),
    {
        if t < self.tables.len() {
            self.tables[t].get(k)
        } else {
            Slot::Nil
        }
    }

    /// Binds `k` to `v` in table `t`.
    pub fn table_set(&mut self, t: usize, k: Slot, v: Slot)
        requires
            old(self).wf(),
            t < old(self)@.tables.len(),
        ensures
            final(self)@ == old(self)@.table_set(t, k, v),
            final(self).wf(),
    {
        let mut tb = Table::new();
        std::mem::swap(&mut tb, &mut self.tables[t]);
        tb.set(k, v);
        self.tables[t] = tb;
        proof {
            assert(self@.strings =~= old(self)@.strings);
            assert(self@.tables =~= old(self)@.table_set(t, k, v).tables);
            assert(self@.closures =~= old(self)@.closures);
        }
    }

    /// The metatable of table `t`, if it has one.
    pub fn table_meta(&self, t: usize) -> (m: Option<usize>)
        ensures
            m == self@.table_meta(t),
    {
        if t < self.tables.len() {
            self.tables[t].meta()
        } else {
            None
        }
    }

    /// Gives table `t` the metatable `meta`, or none.
    pub fn set_table_meta(&mut self, t: usize, meta: Option<usize>)
        requires
            old(self).wf(),
            t < old(self)@.tables.len(),
        ensures
            final(self)@ == old(self)@.with_table_meta(t, meta),
            final(self).wf(),
    {
        let mut tb = Table::new();
        std::mem::swap(&mut tb, &mut self.tables[t]);
        tb.set_meta(meta);
        self.tables[t] = tb;
        proof {
            assert(self@.strings =~= old(self)@.strings);
            assert(self@.tables =~= old(self)@.with_table_meta(t, meta).tables);
            assert(self@.closures =~= old(self)@.closures);
        }
    }

    /// The length of the array part of table `t`.
    pub fn table_border(&self, t: usize) -> (n: usize)
        requires
            t < self@.tables.len(),
        ensures
            self@.tables[t as int].is_border(n as int),
    {
        self.tables[t].border()
    }

    /// Creates an opaque object and returns its handle.
    pub fn new_userdata(&mut self, u: Userdata) -> (id: usize)
        requires
            old(self).wf(),
        ensures
            final(self)@ == old(self)@.with_new_userdata(u),
            id == old(self)@.userdata.len(),
            final(self).wf(),
    {
        let id = self.userdata.len();
        self.userdata.push(u);
        proof {
            self.lemma_bounds();
            assert(self@.strings =~= old(self)@.strings);
            assert(self@.tables =~= old(self)@.tables);
            assert(self@.closures =~= old(self)@.closures);
        }
        id
    }

    /// The opaque object `id`, if there is one.
    pub fn get_userdata(&self, id: usize) -> (r: Option<Userdata>)
        ensures
            r == self@.get_userdata(id),
    {
        if id < self.userdata.len() {
            Some(self.userdata[id])
        } else {
            None
        }
    }

    /// Replaces the record of the opaque object `id`.
    pub fn set_userdata(&mut self, id: usize, u: Userdata)
        requires
            old(self).wf(),
            id < old(self)@.userdata.len(),
        ensures
            final(self)@ == old(self)@.with_userdata(id, u),
            final(self).wf(),
    {
        self.userdata[id] = u;
        proof {
            assert(self@.strings =~= old(self)@.strings);
            assert(self@.tables =~= old(self)@.tables);
            assert(self@.closures =~= old(self)@.closures);
        }
    }

    /// Creates a native closure and returns its handle.
    pub fn new_closure(&mut self, entry: usize, upvalues: Vec<Slot>) -> (id: usize)
        requires
            old(self).wf(),
        ensures
            final(self)@ == old(self)@.with_new_closure(entry, upvalues@),
            id == old(self)@.closures.len(),
            final(self).wf(),
    {
        let id = self.closures.len();
        self.closures.push(Closure { entry, upvalues });
        proof {
            self.lemma_bounds();
            assert(self@.strings =~= old(self)@.strings);
            assert(self@.tables =~= old(self)@.tables);
            assert(self@.closures =~= old(self)@.with_new_closure(entry, upvalues@).closures);
        }
        id
    }

    /// The entry point of the closure `id`, if there is such a closure.
    pub fn closure_entry(&self, id: usize) -> (r: Option<usize>)
        ensures
            r == match self@.get_closure(id) {
                Some(c) => Some(c.entry),
                None => None,
            },
    {
        if id < self.closures.len() {
            Some(self.closures[id].entry)
        } else {
            None
        }
    }

    /// The values captured by the closure `id`; none where there is no
    /// such closure.
    pub fn closure_upvalues(&self, id: usize) -> (r: Vec<Slot>)
        ensures
            r@ == match self@.get_closure(id) {
                Some(c) => c.upvalues,
                None => Seq::empty(),
            },
    {
        let mut r: Vec<Slot> = Vec::new();
        if id < self.closures.len() {
            let c = &self.closures[id];
            let mut i: usize = 0;
            while i < c.upvalues.len()
                invariant
                    i <= c.upvalues@.len(),
                    r@ == c.upvalues@.subrange(0, i as int),
                decreases c.upvalues@.len() - i,
            {
                r.push(c.upvalues[i]);
                proof {
                    assert(r@ =~= c.upvalues@.subrange(0, i + 1));
                }
                i = i + 1;
            }
            proof {
                assert(c.upvalues@.subrange(0, c.upvalues@.len() as int) =~= c.upvalues@);
            }
        }
        r
    }

    /// The number of strings, tables, opaque objects and closures that
    /// the heap holds, in this order.
    pub fn counts(&self) -> (n: (usize, usize, usize, usize))
        ensures
            n.0 == self@.strings.len(),
            n.1 == self@.tables.len(),
            n.2 == self@.userdata.len(),
            n.3 == self@.closures.len(),
    {
        (self.strings.len(), self.tables.len(), self.userdata.len(), self.closures.len())
    }

    /// The number of threads created so far.
    pub fn thread_count(&self) -> (n: usize)
        ensures
            n == self@.threads,
    {
        self.threads
    }

    /// Creates a thread and returns its handle.
    pub fn new_thread(&mut self) -> (id: usize)
        requires
            old(self).wf(),
            old(self)@.threads < usize::MAX,
        ensures
            final(self)@ == old(self)@.with_new_thread(),
            id == old(self)@.threads,
            final(self).wf(),
    {
        let id = self.threads;
        self.threads = self.threads + 1;
        proof {
            assert(self@.strings =~= old(self)@.strings);
            assert(self@.tables =~= old(self)@.tables);
            assert(self@.closures =~= old(self)@.closures);
        }
        id
    }
}

} // verus!
