use vstd::prelude::*;

use crate::error::CompileError;
use crate::error::ErrV;

verus! {

/// One allocated tape slot for a named variable: the slot's fixed position on
/// the tape, assigned at allocation time and never reused.
pub struct MemCell {
    pub address: u32,
}

impl MemCell {
    pub fn allocate(address: u32) -> (c: MemCell)
        ensures
            c.address == address,
    {
        MemCell { address }
    }
}

/// The mathematical form of a compilation state: the allocation counter, the
/// generator's belief about the tape head's position, and the live variables
/// as a map from name to address.
pub ghost struct StView {
    pub alloc: nat,
    pub ptr: nat,
    pub vars: Map<Seq<char>, nat>,
}

/// A state is sound when every live address lies below the allocation counter
/// and no two live variables share an address.
pub open spec fn view_wf(v: StView) -> bool {
    &&& forall|n: Seq<char>| #[trigger] v.vars.contains_key(n) ==> v.vars[n] < v.alloc
    &&& forall|n1: Seq<char>, n2: Seq<char>|
        v.vars.contains_key(n1) && v.vars.contains_key(n2) && n1 != n2 ==> #[trigger] v.vars[n1]
            != #[trigger] v.vars[n2]
}

/// The variable table as a map from name to address.
spec fn vars_map(entries: Seq<(String, MemCell)>) -> Map<Seq<char>, nat>
    decreases entries.len(),
{
    if entries.len() == 0 {
        Map::empty()
    } else {
        vars_map(entries.drop_last()).insert(
            entries.last().0@,
            entries.last().1.address as nat,
        )
    }
}

/// A name is in the table's map exactly when some entry carries it.
proof fn lemma_vars_map_key(entries: Seq<(String, MemCell)>, k: Seq<char>)
    ensures
        vars_map(entries).contains_key(k) <==> (exists|i: int|
            0 <= i < entries.len() && (#[trigger] entries[i]).0@ == k),
    decreases entries.len(),
{
    if entries.len() > 0 {
        lemma_vars_map_key(entries.drop_last(), k);
        if entries.last().0@ != k && vars_map(entries).contains_key(k) {
            let i = choose|i: int|
                0 <= i < entries.drop_last().len() && (#[trigger] entries.drop_last()[i]).0@ == k;
            assert(entries[i].0@ == k);
        }
        if exists|i: int| 0 <= i < entries.len() && (#[trigger] entries[i]).0@ == k {
            let i = choose|i: int| 0 <= i < entries.len() && (#[trigger] entries[i]).0@ == k;
            if i < entries.len() - 1 {
                assert(entries.drop_last()[i].0@ == k);
            }
        }
    }
}

/// In a table with pairwise distinct names, each entry's name maps to that
/// entry's address.
proof fn lemma_vars_map_value(entries: Seq<(String, MemCell)>, i: int)
    requires
        0 <= i < entries.len(),
        forall|x: int, y: int|
            0 <= x < y < entries.len() ==> (#[trigger] entries[x]).0@ != (
            #[trigger] entries[y]).0@,
    ensures
        vars_map(entries).contains_key(entries[i].0@),
        vars_map(entries)[entries[i].0@] == entries[i].1.address as nat,
    decreases entries.len(),
{
    if i == entries.len() - 1 {
    } else {
        lemma_vars_map_value(entries.drop_last(), i);
        assert(entries.drop_last()[i] == entries[i]);
        assert(entries[i].0@ != entries.last().0@);
    }
}

/// Removing an entry from a table with pairwise distinct names removes
/// exactly its name from the map.
proof fn lemma_vars_map_remove(entries: Seq<(String, MemCell)>, i: int)
    requires
        0 <= i < entries.len(),
        forall|x: int, y: int|
            0 <= x < y < entries.len() ==> (#[trigger] entries[x]).0@ != (
            #[trigger] entries[y]).0@,
    ensures
        vars_map(entries.remove(i)) == vars_map(entries).remove(entries[i].0@),
    decreases entries.len(),
{
    let k = entries[i].0@;
    if i == entries.len() - 1 {
        assert(entries.remove(i) =~= entries.drop_last());
        lemma_vars_map_key(entries.drop_last(), k);
        assert(forall|j: int|
            0 <= j < entries.drop_last().len() ==> (#[trigger] entries.drop_last()[j]).0@ == entries[j].0@
                && entries[j].0@ != k);
        assert(!vars_map(entries.drop_last()).contains_key(k));
        assert(vars_map(entries.drop_last()).insert(k, entries[i].1.address as nat).remove(k)
            =~= vars_map(entries.drop_last()));
    } else {
        lemma_vars_map_remove(entries.drop_last(), i);
        assert(entries.remove(i).drop_last() =~= entries.drop_last().remove(i));
        assert(entries.remove(i).last() == entries.last());
        let last = entries.last();
        assert(k != last.0@);
        assert(vars_map(entries.drop_last()).remove(k).insert(last.0@, last.1.address as nat)
            =~= vars_map(entries.drop_last()).insert(last.0@, last.1.address as nat).remove(k));
    }
}

/// The single mutable context threaded through a whole compilation walk: the
/// allocation counter, the tracked pointer position, and the variable table.
pub struct State {
    alloc_cnt: u32,
    mem_pointer: u32,
    variables: Vec<(String, MemCell)>,
}

impl View for State {
    type V = StView;

    closed spec fn view(&self) -> StView {
        StView {
            alloc: self.alloc_cnt as nat,
            ptr: self.mem_pointer as nat,
            vars: vars_map(self.variables@),
        }
    }
}

impl State {
    /// The table never holds a name twice, every recorded address lies below
    /// the allocation counter, and no two entries share an address.
    pub closed spec fn wf(&self) -> bool {
        &&& forall|x: int, y: int|
            0 <= x < y < self.variables@.len() ==> (#[trigger] self.variables@[x]).0@ != (
            #[trigger] self.variables@[y]).0@
        &&& forall|x: int, y: int|
            0 <= x < y < self.variables@.len() ==> (#[trigger] self.variables@[x]).1.address != (
            #[trigger] self.variables@[y]).1.address
        &&& forall|x: int|
            0 <= x < self.variables@.len() ==> (#[trigger] self.variables@[x]).1.address
                < self.alloc_cnt
    }

    pub fn new() -> (st: State)
        ensures
            st.wf(),
            st@ == (StView { alloc: 0, ptr: 0, vars: Map::<Seq<char>, nat>::empty() }),
    {
        State { alloc_cnt: 0, mem_pointer: 0, variables: Vec::new() }
    }

    pub fn pointer(&self) -> (p: u32)
        ensures
            p as nat == self@.ptr,
    {
        self.mem_pointer
    }

    pub fn alloc_counter(&self) -> (a: u32)
        ensures
            a as nat == self@.alloc,
    {
        self.alloc_cnt
    }

    pub fn set_pointer(&mut self, p: u32)
        requires
            old(self).wf(),
        ensures
            final(self).wf(),
            final(self)@ == (StView { ptr: p as nat, ..old(self)@ }),
    {
        self.mem_pointer = p;
    }

    /// The index of the entry carrying `name`, if one does.
    fn find(&self, name: &str) -> (r: Option<usize>)
        ensures
            match r {
                Some(i) => i < self.variables@.len() && self.variables@[i as int].0@ == name@,
                None => forall|i: int|
                    0 <= i < self.variables@.len() ==> (#[trigger] self.variables@[i]).0@ != name@,
            },
    {
        let key = name.to_owned();
        let mut i: usize = 0;
        while i < self.variables.len()
            invariant
                i <= self.variables@.len(),
                key@ == name@,
                forall|j: int| 0 <= j < i ==> (#[trigger] self.variables@[j]).0@ != name@,
            decreases self.variables@.len() - i,
        {
            if self.variables[i].0.eq(&key) {
                return Some(i);
            }
            i = i + 1;
        }
        None
    }

    /// Inserts a fresh cell for `name` at the next address and advances the
    /// allocation counter, or fails with `DuplicateVariable` exactly when
    /// `name` is already live.
    pub fn declare(&mut self, name: &str) -> (r: Result<(), CompileError>)
        requires
            old(self).wf(),
            old(self)@.alloc < u32::MAX,
        ensures
            final(self).wf(),
            match r {
                Ok(()) => !old(self)@.vars.contains_key(name@) && final(self)@ == (StView {
                    alloc: (old(self)@.alloc + 1) as nat,
                    ptr: old(self)@.ptr,
                    vars: old(self)@.vars.insert(name@, old(self)@.alloc),
                }),
                Err(e) => old(self)@.vars.contains_key(name@) && e@ == ErrV::DuplicateVariable(
                    name@,
                ) && *final(self) == *old(self),
            },
    {
        proof {
            lemma_vars_map_key(self.variables@, name@);
        }
        match self.find(name) {
            Some(_) => Err(CompileError::DuplicateVariable(name.to_owned())),
            None => {
                let ghost old_entries = self.variables@;
                let cell = MemCell::allocate(self.alloc_cnt);
                self.variables.push((name.to_owned(), cell));
                self.alloc_cnt = self.alloc_cnt + 1;
                proof {
                    assert(self.variables@.drop_last() =~= old_entries);
                    assert(vars_map(self.variables@) == vars_map(old_entries).insert(
                        name@,
                        cell.address as nat,
                    ));
                    assert forall|x: int, y: int|
                        0 <= x < y < self.variables@.len() implies (
                    #[trigger] self.variables@[x]).1.address != (
                    #[trigger] self.variables@[y]).1.address by {
                        if y == self.variables@.len() - 1 {
                            assert(self.variables@[x] == old_entries[x]);
                        }
                    }
                }
                Ok(())
            },
        }
    }

    /// Removes the entry for `name`, or fails with `UnknownVariable` exactly
    /// when `name` is not live. The address is not reclaimed: the allocation
    /// counter is unchanged.
    pub fn delete(&mut self, name: &str) -> (r: Result<(), CompileError>)
        requires
            old(self).wf(),
        ensures
            final(self).wf(),
            match r {
                Ok(()) => old(self)@.vars.contains_key(name@) && final(self)@ == (StView {
                    alloc: old(self)@.alloc,
                    ptr: old(self)@.ptr,
                    vars: old(self)@.vars.remove(name@),
                }),
                Err(e) => !old(self)@.vars.contains_key(name@) && e@ == ErrV::UnknownVariable(
                    name@,
                ) && *final(self) == *old(self),
            },
    {
        proof {
            lemma_vars_map_key(self.variables@, name@);
        }
        match self.find(name) {
            None => Err(CompileError::UnknownVariable(name.to_owned())),
            Some(i) => {
                let ghost old_entries = self.variables@;
                proof {
                    lemma_vars_map_remove(old_entries, i as int);
                }
                self.variables.remove(i);
                proof {
                    assert(forall|j: int|
                        0 <= j < self.variables@.len() ==> #[trigger] self.variables@[j] == (
                        if j < i { old_entries[j] } else { old_entries[j + 1] }));
                }
                Ok(())
            },
        }
    }

    /// The address recorded for `name`, or `UnknownVariable` exactly when
    /// `name` is not live.
    pub fn resolve(&self, name: &str) -> (r: Result<u32, CompileError>)
        requires
            self.wf(),
        ensures
            match r {
                Ok(a) => self@.vars.contains_key(name@) && a as nat == self@.vars[name@],
                Err(e) => !self@.vars.contains_key(name@) && e@ == ErrV::UnknownVariable(name@),
            },
    {
        proof {
            lemma_vars_map_key(self.variables@, name@);
        }
        match self.find(name) {
            None => Err(CompileError::UnknownVariable(name.to_owned())),
            Some(i) => {
                proof {
                    lemma_vars_map_value(self.variables@, i as int);
                }
                Ok(self.variables[i].1.address)
            },
        }
    }
}

/// A well-formed state's view is sound: every live address lies below the
/// allocation counter and no two live variables share an address.
pub proof fn lemma_wf_view(st: &State)
    requires
        st.wf(),
    ensures
        view_wf(st@),
{
    assert forall|n: Seq<char>| #[trigger] st@.vars.contains_key(n) implies st@.vars[n]
        < st@.alloc by {
        lemma_vars_map_key_value_witness(st, n);
    }
    assert forall|n1: Seq<char>, n2: Seq<char>|
        st@.vars.contains_key(n1) && st@.vars.contains_key(n2) && n1 != n2 implies #[trigger] st@
        .vars[n1] != #[trigger] st@.vars[n2] by {
        lemma_vars_map_key_value_witness(st, n1);
        lemma_vars_map_key_value_witness(st, n2);
        let i1 = choose|i: int|
            0 <= i < st.variables@.len() && (#[trigger] st.variables@[i]).0@ == n1
                && st.variables@[i].1.address as nat == st@.vars[n1];
        let i2 = choose|i: int|
            0 <= i < st.variables@.len() && (#[trigger] st.variables@[i]).0@ == n2
                && st.variables@[i].1.address as nat == st@.vars[n2];
        if i1 < i2 {
            assert(st.variables@[i1].1.address != st.variables@[i2].1.address);
        } else {
            assert(st.variables@[i2].1.address != st.variables@[i1].1.address);
        }
    }
}

/// A live name in a well-formed state is carried by some entry whose address
/// is the map's value for it.
proof fn lemma_vars_map_key_value_witness(st: &State, n: Seq<char>)
    requires
        st.wf(),
        st@.vars.contains_key(n),
    ensures
        exists|i: int|
            0 <= i < st.variables@.len() && (#[trigger] st.variables@[i]).0@ == n
                && st.variables@[i].1.address as nat == st@.vars[n],
{
    lemma_vars_map_key(st.variables@, n);
    let i = choose|i: int| 0 <= i < st.variables@.len() && (#[trigger] st.variables@[i]).0@ == n;
    lemma_vars_map_value(st.variables@, i);
}

} // verus!
