use vstd::prelude::*;
use crate::errors::LowerError;
use crate::strutil::str_eq;
use crate::types::RageType;

verus! {

/// One binding of the symbol table: a variable's name and declared type.
/// The storage slot is the binding's position in the table.
pub struct SymEntry {
    pub name: String,
    pub ty: RageType,
}

/// The symbol table of the single top-level scope: variable names bound,
/// in declaration order, to their storage slot (the index in the table)
/// and declared primitive type. A name can be bound at most once;
/// declaring it again is rejected, so slots are never reallocated.
pub struct SymbolTable {
    entries: Vec<SymEntry>,
}

impl View for SymbolTable {
    type V = Seq<(Seq<char>, RageType)>;

    closed spec fn view(&self) -> Seq<(Seq<char>, RageType)> {
        self.entries@.map(|i: int, e: SymEntry| (e.name@, e.ty))
    }
}

/// The first binding of `name` in `m`, with its slot index.
pub open spec fn spec_find(m: Seq<(Seq<char>, RageType)>, name: Seq<char>) -> Option<
    (int, RageType),
>
    decreases m.len(),
{
    if m.len() == 0 {
        None
    } else if m[0].0 == name {
        Some((0, m[0].1))
    } else {
        match spec_find(m.skip(1), name) {
            Some((i, t)) => Some((i + 1, t)),
            None => None,
        }
    }
}

/// Whether `name` is bound in `m`.
pub open spec fn spec_bound(m: Seq<(Seq<char>, RageType)>, name: Seq<char>) -> bool {
    spec_find(m, name) is Some
}

/// If position `i` holds the first binding of `name`, the lookup finds it
/// there.
pub proof fn lemma_spec_find_first(m: Seq<(Seq<char>, RageType)>, name: Seq<char>, i: int)
    requires
        0 <= i < m.len(),
        m[i].0 == name,
        forall|j: int| 0 <= j < i ==> m[j].0 != name,
    ensures
        spec_find(m, name) == Some((i, m[i].1)),
    decreases m.len(),
{
    if i > 0 {
        lemma_spec_find_first(m.skip(1), name, i - 1);
    }
}

/// If no position binds `name`, the lookup finds nothing.
pub proof fn lemma_spec_find_none(m: Seq<(Seq<char>, RageType)>, name: Seq<char>)
    requires
        forall|j: int| 0 <= j < m.len() ==> m[j].0 != name,
    ensures
        spec_find(m, name) is None,
    decreases m.len(),
{
    if m.len() > 0 {
        lemma_spec_find_none(m.skip(1), name);
    }
}

/// A found binding lies inside the table and holds the name it was found
/// under.
pub proof fn lemma_spec_find_in_range(m: Seq<(Seq<char>, RageType)>, name: Seq<char>)
    requires
        spec_find(m, name) is Some,
    ensures
        0 <= spec_find(m, name)->Some_0.0 < m.len(),
        m[spec_find(m, name)->Some_0.0] == (name, spec_find(m, name)->Some_0.1),
    decreases m.len(),
{
    if m.len() > 0 && m[0].0 != name {
        lemma_spec_find_in_range(m.skip(1), name);
    }
}

impl SymbolTable {
    /// No name is bound twice.
    pub open spec fn wf(&self) -> bool {
        forall|i: int, j: int|
            0 <= i < j < self@.len() ==> (#[trigger] self@[i]).0 != (#[trigger] self@[j]).0
    }

    /// An empty table.
    pub fn new() -> (r: SymbolTable)
        ensures
            r@ == Seq::<(Seq<char>, RageType)>::empty(),
            r.wf(),
    {
        SymbolTable { entries: Vec::new() }
    }

    /// How many names are bound (also the next free slot index).
    pub fn len(&self) -> (r: usize)
        ensures
            r == self@.len(),
    {
        self.entries.len()
    }

    /// Allocate the next free slot for `name` and bind it, failing with
    /// `DuplicateDeclaration`, and leaving the table unchanged, if `name`
    /// is already bound.
    pub fn declare(&mut self, name: &str, ty: RageType) -> (r: Result<u32, LowerError>)
        requires
            old(self).wf(),
            old(self)@.len() < 0xffff_ffffu32,
        ensures
            final(self).wf(),
            spec_bound(old(self)@, name@) ==> r == Err::<u32, LowerError>(
                LowerError::DuplicateDeclaration,
            ) && final(self)@ == old(self)@,
            !spec_bound(old(self)@, name@) ==> r == Ok::<u32, LowerError>(
                old(self)@.len() as u32,
            ) && final(self)@ == old(self)@.push((name@, ty)),
    {
        if self.lookup(name).is_some() {
            return Err(LowerError::DuplicateDeclaration);
        }
        let slot = self.entries.len() as u32;
        let entry = SymEntry { name: name.to_owned(), ty };
        self.entries.push(entry);
        proof {
            assert(self@ =~= old(self)@.push((name@, ty)));
            assert forall|i: int, j: int| 0 <= i < j < self@.len() implies (#[trigger] self@[i]).0
                != (#[trigger] self@[j]).0 by {
                if j < old(self)@.len() {
                } else {
                    assert(self@[j].0 == name@);
                    if old(self)@[i].0 == name@ {
                        lemma_spec_find_first_exists(old(self)@, name@, i);
                    }
                }
            }
        }
        Ok(slot)
    }

    /// Look up a name: its slot and declared type, or `None` if it was
    /// never declared.
    pub fn lookup(&self, name: &str) -> (r: Option<(u32, RageType)>)
        requires
            self@.len() < 0xffff_ffffu32,
        ensures
            r == (match spec_find(self@, name@) {
                Some((i, t)) => Some((i as u32, t)),
                None => None::<(u32, RageType)>,
            }),
    {
        let n = self.entries.len();
        let mut i: usize = 0;
        while i < n
            invariant
                n == self@.len(),
                n == self.entries@.len(),
                n < 0xffff_ffffu32,
                0 <= i <= n,
                forall|j: int| 0 <= j < self@.len() ==> (#[trigger] self@[j]) == (
                    self.entries@[j].name@,
                    self.entries@[j].ty,
                ),
                forall|j: int| 0 <= j < i ==> (#[trigger] self@[j]).0 != name@,
            decreases n - i,
        {
            let entry = &self.entries[i];
            if str_eq(entry.name.as_str(), name) {
                proof {
                    lemma_spec_find_first(self@, name@, i as int);
                }
                return Some((i as u32, entry.ty));
            }
            i = i + 1;
        }
        proof {
            lemma_spec_find_none(self@, name@);
        }
        None
    }
}

/// A binding at some position means the name is bound.
pub proof fn lemma_spec_find_first_exists(m: Seq<(Seq<char>, RageType)>, name: Seq<char>, i: int)
    requires
        0 <= i < m.len(),
        m[i].0 == name,
    ensures
        spec_bound(m, name),
    decreases m.len(),
{
    if m[0].0 != name {
        lemma_spec_find_first_exists(m.skip(1), name, i - 1);
    }
}

} // verus!
