//! Insertion-ordered tables keyed by name: variable scopes and the function
//! table.

use crate::forth::cell::{cells_view, names_view, Cell, CellView, Name};
use crate::forth::cell_data::CellData;
use vstd::prelude::*;

verus! {

/// Most variables that one scope holds.
pub const VARS_CAPACITY: usize = 32;

/// Most functions that the table holds.
pub const FUNCS_CAPACITY: usize = 4;

/// Most parameters of a function.
pub const PARAMS_CAPACITY: usize = 4;

/// Most cells of a function body, and of the data stack.
pub const STACK_CAPACITY: usize = 64;

/// A variable scope as specifications see it: names with their values, in
/// the order in which they were declared. `None` is a name without a value.
pub type Store = Seq<(Name, Option<CellData>)>;

/// The first position at which `name` is a key of `table`.
pub open spec fn find_key<V>(table: Seq<(Name, V)>, name: Name) -> Option<int>
    decreases table.len(),
{
    if table.len() == 0 {
        None
    } else if table.last().0 == name && find_key(table.drop_last(), name) is None {
        Some(table.len() - 1)
    } else {
        find_key(table.drop_last(), name)
    }
}

/// Whether no name is a key twice.
pub open spec fn keys_unique<V>(table: Seq<(Name, V)>) -> bool {
    forall|i: int, j: int|
        0 <= i < j < table.len() ==> (#[trigger] table[i]).0 != (#[trigger] table[j]).0
}

/// [`find_key`] finds the first position whose key is `name`, if there is one.
pub proof fn lemma_find_key<V>(table: Seq<(Name, V)>, name: Name)
    ensures
        match find_key(table, name) {
            Some(i) => 0 <= i < table.len() && table[i].0 == name && forall|j: int|
                0 <= j < i ==> (#[trigger] table[j]).0 != name,
            None => forall|j: int| 0 <= j < table.len() ==> (#[trigger] table[j]).0 != name,
        },
    decreases table.len(),
{
    if table.len() > 0 {
        let front = table.drop_last();
        lemma_find_key(front, name);
        assert forall|j: int| 0 <= j < front.len() implies front[j] == table[j] by {}
        match find_key(front, name) {
            Some(i) => {
                assert(front[i] == table[i]);
                assert forall|j: int| 0 <= j < i implies (#[trigger] table[j]).0 != name by {
                    assert(front[j].0 != name);
                }
            },
            None => {
                assert forall|j: int| 0 <= j < table.len() - 1 implies (#[trigger] table[j]).0
                    != name by {
                    assert(front[j].0 != name);
                }
            },
        }
    }
}

/// A key that stands at `i`, with no equal key before it, is found at `i`.
pub proof fn lemma_find_key_at<V>(table: Seq<(Name, V)>, name: Name, i: int)
    requires
        0 <= i < table.len(),
        table[i].0 == name,
        forall|j: int| 0 <= j < i ==> (#[trigger] table[j]).0 != name,
    ensures
        find_key(table, name) == Some(i),
{
    lemma_find_key(table, name);
}

/// A name that is no key is not found.
pub proof fn lemma_find_key_none<V>(table: Seq<(Name, V)>, name: Name)
    requires
        forall|j: int| 0 <= j < table.len() ==> (#[trigger] table[j]).0 != name,
    ensures
        find_key(table, name) is None,
{
    lemma_find_key(table, name);
}

/// The value under `name`, if the name is a key.
pub open spec fn store_get(store: Store, name: Name) -> Option<Option<CellData>> {
    match find_key(store, name) {
        Some(i) => Some(store[i].1),
        None => None,
    }
}

/// The store with `value` under `name`: in place where the name is a key
/// already, else at the end. `None` when the store is full and the name new.
pub open spec fn store_insert(store: Store, name: Name, value: Option<CellData>) -> Option<Store> {
    match find_key(store, name) {
        Some(i) => Some(store.update(i, (name, value))),
        None => if store.len() < VARS_CAPACITY {
            Some(store.push((name, value)))
        } else {
            None
        },
    }
}

/// A scope of variables.
#[derive(Debug)]
pub struct VarStorage {
    pub entries: Vec<(String, Option<CellData>)>,
}

impl View for VarStorage {
    type V = Store;

    open spec fn view(&self) -> Store {
        self.entries@.map_values(|e: (String, Option<CellData>)| (e.0@, e.1))
    }
}

impl Clone for VarStorage {
    fn clone(&self) -> (r: Self)
        ensures
            r@ == self@,
            r.wf() == self.wf(),
    {
        let mut entries: Vec<(String, Option<CellData>)> = Vec::new();
        let mut i: usize = 0;
        while i < self.entries.len()
            invariant
                i <= self.entries.len(),
                entries.len() == i,
                forall|k: int| 0 <= k < i ==> #[trigger] entries[k] == self.entries[k],
            decreases self.entries.len() - i,
        {
            entries.push((self.entries[i].0.clone(), self.entries[i].1));
            i += 1;
        }
        let r = VarStorage { entries };
        assert(r@ =~= self@);
        r
    }
}

impl VarStorage {
    /// Names are unique and the scope is within its capacity.
    pub open spec fn wf(&self) -> bool {
        &&& self@.len() <= VARS_CAPACITY
        &&& keys_unique(self@)
    }

    /// Whether the scope is well formed; see [`VarStorage::wf`].
    pub fn check(&self) -> (r: bool)
        ensures
            r == self.wf(),
    {
        if self.entries.len() > VARS_CAPACITY {
            return false;
        }
        let unique = check_unique(&self.entries);
        proof {
            if unique {
                assert forall|i: int, j: int| 0 <= i < j < self@.len() implies (
                #[trigger] self@[i]).0 != (#[trigger] self@[j]).0 by {
                    assert(self.entries@[i].0@ != self.entries@[j].0@);
                }
            } else {
                let (i, j) = choose|i: int, j: int|
                    0 <= i < j < self.entries@.len() && (#[trigger] self.entries@[i]).0@ == (
                    #[trigger] self.entries@[j]).0@;
                assert(self@[i].0 == self@[j].0);
            }
        }
        unique
    }

    /// The empty scope.
    pub fn new() -> (r: Self)
        ensures
            r@ == Seq::<(Name, Option<CellData>)>::empty(),
            r.wf(),
    {
        let r = VarStorage { entries: Vec::new() };
        assert(r@ =~= Seq::<(Name, Option<CellData>)>::empty());
        r
    }

    /// Number of names in the scope.
    pub fn len(&self) -> (r: usize)
        ensures
            r == self@.len(),
    {
        self.entries.len()
    }

    /// The position of `name`, if it is declared.
    pub fn position(&self, name: &String) -> (r: Option<usize>)
        ensures
            match r {
                Some(i) => i < self@.len() && find_key(self@, name@) == Some(i as int),
                None => find_key(self@, name@) is None,
            },
    {
        let mut i: usize = 0;
        while i < self.entries.len()
            invariant
                i <= self.entries.len(),
                forall|j: int| 0 <= j < i ==> (#[trigger] self@[j]).0 != name@,
            decreases self.entries.len() - i,
        {
            if self.entries[i].0 == *name {
                proof {
                    lemma_find_key_at(self@, name@, i as int);
                }
                return Some(i);
            }
            i += 1;
        }
        proof {
            lemma_find_key_none(self@, name@);
        }
        None
    }

    /// The value under `name`: `None` for a name that is not declared,
    /// `Some(None)` for one that has no value yet.
    pub fn get(&self, name: &str) -> (r: Option<Option<CellData>>)
        ensures
            r == store_get(self@, name@),
    {
        let key = name.to_owned();
        self.lookup(&key)
    }

    /// As [`VarStorage::get`], for a name that is a `String`.
    pub fn lookup(&self, name: &String) -> (r: Option<Option<CellData>>)
        ensures
            r == store_get(self@, name@),
    {
        match self.position(name) {
            Some(i) => {
                assert(self@[i as int] == (self.entries@[i as int].0@, self.entries@[i as int].1));
                Some(self.entries[i].1)
            },
            None => None,
        }
    }

    /// Whether `name` is declared.
    pub fn contains_key(&self, name: &String) -> (r: bool)
        ensures
            r == find_key(self@, name@).is_some(),
    {
        self.position(name).is_some()
    }

    /// Puts `value` under `name`: in place for a declared name, at the end for
    /// a new one. Returns `false`, and changes nothing, when the name is new
    /// and the scope is full.
    pub fn insert(&mut self, name: String, value: Option<CellData>) -> (r: bool)
        requires
            old(self).wf(),
        ensures
            final(self).wf(),
            match store_insert(old(self)@, name@, value) {
                Some(store) => r && final(self)@ == store,
                None => !r && final(self)@ == old(self)@,
            },
    {
        proof {
            lemma_find_key(self@, name@);
        }
        match self.position(&name) {
            Some(i) => {
                let ghost before = self@;
                self.entries[i] = (name, value);
                proof {
                    assert(self@ =~= before.update(i as int, (name@, value)));
                    assert forall|a: int, b: int| 0 <= a < b < self@.len() implies (
                    #[trigger] self@[a]).0 != (#[trigger] self@[b]).0 by {
                        assert(before[a].0 != before[b].0);
                    }
                }
                true
            },
            None => {
                if self.entries.len() < VARS_CAPACITY {
                    let ghost before = self@;
                    self.entries.push((name, value));
                    proof {
                        assert(self@ =~= before.push((name@, value)));
                        assert forall|a: int, b: int| 0 <= a < b < self@.len() implies (
                        #[trigger] self@[a]).0 != (#[trigger] self@[b]).0 by {
                            if b < before.len() {
                                assert(before[a].0 != before[b].0);
                            } else {
                                assert(before[a].0 != name@);
                            }
                        }
                    }
                    true
                } else {
                    false
                }
            },
        }
    }
}

/// Whether no name is a key twice among the entries; see [`keys_unique`].
pub fn check_unique<V>(entries: &Vec<(String, V)>) -> (r: bool)
    ensures
        r == (forall|i: int, j: int|
            0 <= i < j < entries@.len() ==> (#[trigger] entries@[i]).0@ != (
            #[trigger] entries@[j]).0@),
{
    let n = entries.len();
    let mut j: usize = 0;
    while j < n
        invariant
            n == entries@.len(),
            j <= n,
            forall|a: int, b: int|
                0 <= a < b < j ==> (#[trigger] entries@[a]).0@ != (#[trigger] entries@[b]).0@,
        decreases n - j,
    {
        let mut i: usize = 0;
        while i < j
            invariant
                n == entries@.len(),
                i <= j < n,
                forall|a: int| 0 <= a < i ==> (#[trigger] entries@[a]).0@ != entries@[j as int].0@,
            decreases j - i,
        {
            if entries[i].0 == entries[j].0 {
                return false;
            }
            i += 1;
        }
        j += 1;
    }
    true
}

/// A function as specifications see it.
pub struct FuncDefView<FFI> {
    pub params: Seq<Name>,
    pub body: Seq<CellView<FFI>>,
}

/// A function: the names of its parameters and its body, which is run from
/// its last cell down.
#[derive(Debug)]
pub struct FuncDef<FFI> {
    pub params: Vec<String>,
    pub stack: Vec<Cell<FFI>>,
}

impl<FFI> View for FuncDef<FFI> {
    type V = FuncDefView<FFI>;

    open spec fn view(&self) -> FuncDefView<FFI> {
        FuncDefView { params: names_view(self.params@), body: cells_view(self.stack@) }
    }
}

impl<FFI> FuncDef<FFI> {
    /// Whether parameters and body are within their capacities.
    pub open spec fn wf(&self) -> bool {
        &&& self.params@.len() <= PARAMS_CAPACITY
        &&& self.stack@.len() <= STACK_CAPACITY
    }

    /// The function with the given parameters and body.
    pub fn new(params: Vec<String>, stack: Vec<Cell<FFI>>) -> (r: Self)
        ensures
            r@ == (FuncDefView { params: names_view(params@), body: cells_view(stack@) }),
            r.params == params,
            r.stack == stack,
    {
        FuncDef { params, stack }
    }

    /// The body.
    pub fn stack(&self) -> (r: &[Cell<FFI>])
        ensures
            r@ == self.stack@,
    {
        self.stack.as_slice()
    }

    /// The names of the parameters.
    pub fn params(&self) -> (r: &[String])
        ensures
            r@ == self.params@,
    {
        self.params.as_slice()
    }
}

/// The function table as specifications see it.
pub type Funcs<FFI> = Seq<(Name, FuncDefView<FFI>)>;

/// The function table.
#[derive(Debug)]
pub struct FuncTable<FFI> {
    pub entries: Vec<(String, FuncDef<FFI>)>,
}

impl<FFI> View for FuncTable<FFI> {
    type V = Funcs<FFI>;

    open spec fn view(&self) -> Funcs<FFI> {
        self.entries@.map_values(|e: (String, FuncDef<FFI>)| (e.0@, e.1@))
    }
}

impl<FFI> FuncTable<FFI> {
    /// Names are unique, and the table and each function are within their
    /// capacities.
    pub open spec fn wf(&self) -> bool {
        &&& self.entries@.len() <= FUNCS_CAPACITY
        &&& keys_unique(self@)
        &&& forall|i: int| 0 <= i < self.entries@.len() ==> (#[trigger] self.entries@[i]).1.wf()
    }

    /// Whether the table is well formed; see [`FuncTable::wf`].
    pub fn check(&self) -> (r: bool)
        ensures
            r == self.wf(),
    {
        if self.entries.len() > FUNCS_CAPACITY {
            return false;
        }
        let unique = check_unique(&self.entries);
        proof {
            if unique {
                assert forall|i: int, j: int| 0 <= i < j < self@.len() implies (
                #[trigger] self@[i]).0 != (#[trigger] self@[j]).0 by {
                    assert(self.entries@[i].0@ != self.entries@[j].0@);
                }
            } else {
                let (i, j) = choose|i: int, j: int|
                    0 <= i < j < self.entries@.len() && (#[trigger] self.entries@[i]).0@ == (
                    #[trigger] self.entries@[j]).0@;
                assert(self@[i].0 == self@[j].0);
            }
        }
        if !unique {
            return false;
        }
        let mut k: usize = 0;
        while k < self.entries.len()
            invariant
                k <= self.entries@.len(),
                forall|i: int| 0 <= i < k ==> (#[trigger] self.entries@[i]).1.wf(),
            decreases self.entries.len() - k,
        {
            if self.entries[k].1.params.len() > PARAMS_CAPACITY || self.entries[k].1.stack.len()
                > STACK_CAPACITY {
                return false;
            }
            k += 1;
        }
        true
    }

    /// The empty table.
    pub fn new() -> (r: Self)
        ensures
            r@ == Seq::<(Name, FuncDefView<FFI>)>::empty(),
            r.wf(),
    {
        let r = FuncTable { entries: Vec::new() };
        assert(r@ =~= Seq::<(Name, FuncDefView<FFI>)>::empty());
        r
    }

    /// Number of functions.
    pub fn len(&self) -> (r: usize)
        ensures
            r == self@.len(),
    {
        self.entries.len()
    }

    /// The position of the function called `name`.
    pub fn position(&self, name: &String) -> (r: Option<usize>)
        ensures
            match r {
                Some(i) => i < self@.len() && find_key(self@, name@) == Some(i as int),
                None => find_key(self@, name@) is None,
            },
    {
        let mut i: usize = 0;
        while i < self.entries.len()
            invariant
                i <= self.entries.len(),
                forall|j: int| 0 <= j < i ==> (#[trigger] self@[j]).0 != name@,
            decreases self.entries.len() - i,
        {
            if self.entries[i].0 == *name {
                proof {
                    lemma_find_key_at(self@, name@, i as int);
                }
                return Some(i);
            }
            i += 1;
        }
        proof {
            lemma_find_key_none(self@, name@);
        }
        None
    }

    /// The function called `name`.
    pub fn get(&self, name: &str) -> (r: Option<&FuncDef<FFI>>)
        ensures
            match find_key(self@, name@) {
                Some(i) => r is Some && r->Some_0@ == self@[i].1 && *r->Some_0 == self.entries@[i].1,
                None => r is None,
            },
    {
        let key = name.to_owned();
        match self.position(&key) {
            Some(i) => {
                assert(self@[i as int] == (self.entries@[i as int].0@, self.entries@[i as int].1@));
                Some(&self.entries[i].1)
            },
            None => None,
        }
    }

    /// Puts `def` under `name`, in place of a function of that name if there
    /// is one. Returns `false`, and changes nothing, when the name is new and
    /// the table is full.
    pub fn insert(&mut self, name: String, def: FuncDef<FFI>) -> (r: bool)
        requires
            old(self).wf(),
            def.wf(),
        ensures
            final(self).wf(),
            match find_key(old(self)@, name@) {
                Some(i) => r && final(self)@ == old(self)@.update(i, (name@, def@)),
                None => if old(self)@.len() < FUNCS_CAPACITY {
                    r && final(self)@ == old(self)@.push((name@, def@))
                } else {
                    !r && final(self)@ == old(self)@
                },
            },
    {
        proof {
            lemma_find_key(self@, name@);
        }
        match self.position(&name) {
            Some(i) => {
                let ghost before = self@;
                let ghost before_entries = self.entries@;
                self.entries[i] = (name, def);
                proof {
                    assert(self@ =~= before.update(i as int, (name@, def@)));
                    assert forall|a: int, b: int| 0 <= a < b < self@.len() implies (
                    #[trigger] self@[a]).0 != (#[trigger] self@[b]).0 by {
                        assert(before[a].0 != before[b].0);
                    }
                    assert forall|k: int| 0 <= k < self.entries@.len() implies (
                    #[trigger] self.entries@[k]).1.wf() by {
                        if k != i {
                            assert(before_entries[k].1.wf());
                        }
                    }
                }
                true
            },
            None => {
                if self.entries.len() < FUNCS_CAPACITY {
                    let ghost before = self@;
                    let ghost before_entries = self.entries@;
                    self.entries.push((name, def));
                    proof {
                        assert(self@ =~= before.push((name@, def@)));
                        assert forall|a: int, b: int| 0 <= a < b < self@.len() implies (
                        #[trigger] self@[a]).0 != (#[trigger] self@[b]).0 by {
                            if b < before.len() {
                                assert(before[a].0 != before[b].0);
                            } else {
                                assert(before[a].0 != name@);
                            }
                        }
                        assert forall|k: int| 0 <= k < self.entries@.len() implies (
                        #[trigger] self.entries@[k]).1.wf() by {
                            if k < before_entries.len() {
                                assert(before_entries[k].1.wf());
                            }
                        }
                    }
                    true
                } else {
                    false
                }
            },
        }
    }
}

} // verus!
