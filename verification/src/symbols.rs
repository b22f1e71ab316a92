//! The symbol table: which word offset each label stands for.
use crate::text::same_chars;
use vstd::prelude::*;

verus! {

/// A label and the word offset it stands for.
pub struct Symbol {
    pub name: Vec<char>,
    pub offset: u16,
}

/// The labels of a program, each with the word offset it stands for.
pub struct SymbolTable {
    entries: Vec<Symbol>,
}

impl View for SymbolTable {
    type V = Map<Seq<char>, u16>;

    closed spec fn view(&self) -> Map<Seq<char>, u16> {
        Map::new(
            |name: Seq<char>| self.holds(name),
            |name: Seq<char>| self.entries@[self.place(name)].offset,
        )
    }
}

impl SymbolTable {
    /// Whether entry `i` is the first with this name.
    spec fn first_at(self, name: Seq<char>, i: int) -> bool {
        &&& 0 <= i < self.entries@.len()
        &&& self.entries@[i].name@ == name
        &&& forall|j: int| 0 <= j < i ==> #[trigger] self.entries@[j].name@ != name
    }

    spec fn holds(self, name: Seq<char>) -> bool {
        exists|i: int| self.first_at(name, i)
    }

    spec fn place(self, name: Seq<char>) -> int {
        choose|i: int| self.first_at(name, i)
    }

    /// A table without labels.
    pub fn new() -> (table: SymbolTable)
        ensures
            table@ == Map::<Seq<char>, u16>::empty(),
    {
        let table = SymbolTable { entries: Vec::new() };
        assert(table@ =~= Map::<Seq<char>, u16>::empty());
        table
    }

    /// The offset that a label stands for, if the table holds the label.
    pub fn get(&self, name: &[char]) -> (res: Option<u16>)
        ensures
            res == if self@.contains_key(name@) {
                Some(self@[name@])
            } else {
                None
            },
    {
        let mut i: usize = 0;
        while i < self.entries.len()
            invariant
                i <= self.entries@.len(),
                forall|j: int| 0 <= j < i ==> #[trigger] self.entries@[j].name@ != name@,
            decreases self.entries.len() - i,
        {
            if same_chars(self.entries[i].name.as_slice(), name) {
                assert(self.first_at(name@, i as int));
                return Some(self.entries[i].offset);
            }
            i += 1;
        }
        None
    }

    /// Whether the table holds a label.
    pub fn contains_key(&self, name: &[char]) -> (res: bool)
        ensures
            res == self@.contains_key(name@),
    {
        self.get(name).is_some()
    }

    /// Enters a label that the table does not hold yet.
    pub fn insert(&mut self, name: Vec<char>, offset: u16)
        requires
            !old(self)@.contains_key(name@),
        ensures
            final(self)@ == old(self)@.insert(name@, offset),
    {
        let ghost before = *self;
        let ghost key0 = name@;
        self.entries.push(Symbol { name, offset });
        proof {
            let n = before.entries@.len() as int;
            assert forall|key: Seq<char>, i: int| before.first_at(key, i) implies self.first_at(
                key,
                i,
            ) by {
                assert(self.entries@[i] == before.entries@[i]);
                assert forall|j: int| 0 <= j < i implies #[trigger] self.entries@[j].name@ != key by {
                    assert(self.entries@[j] == before.entries@[j]);
                }
            }
            assert forall|key: Seq<char>, i: int| self.first_at(key, i) && i < n implies before.first_at(
                key,
                i,
            ) by {
                assert(self.entries@[i] == before.entries@[i]);
                assert forall|j: int| 0 <= j < i implies #[trigger] before.entries@[j].name@ != key by {
                    assert(self.entries@[j] == before.entries@[j]);
                }
            }
            assert(self.first_at(key0, n)) by {
                assert forall|j: int| 0 <= j < n implies #[trigger] self.entries@[j].name@ != key0 by {
                    if before.entries@[j].name@ == key0 {
                        lemma_first_exists(before, key0, j);
                    }
                }
            }
            assert forall|key: Seq<char>| self@.contains_key(key) <==> before@.insert(
                key0,
                offset,
            ).contains_key(key) by {
                if self.holds(key) {
                    let i = choose|i: int| self.first_at(key, i);
                    if i < n {
                        assert(before.first_at(key, i));
                    }
                }
                if before.holds(key) {
                    let i = choose|i: int| before.first_at(key, i);
                    assert(self.first_at(key, i));
                }
            }
            assert forall|key: Seq<char>| self@.contains_key(key) implies #[trigger] self@[key]
                == before@.insert(key0, offset)[key] by {
                let i = self.place(key);
                assert(self.first_at(key, i));
                if key == key0 {
                    assert(i == n);
                } else {
                    assert(before.first_at(key, i));
                    let k = before.place(key);
                    assert(before.first_at(key, k));
                    assert(k == i);
                }
            }
            assert(self@ =~= before@.insert(key0, offset));
        }
    }
}

/// Where some entry has a name, some entry is the first with it.
proof fn lemma_first_exists(table: SymbolTable, name: Seq<char>, i: int)
    requires
        0 <= i < table.entries@.len(),
        table.entries@[i].name@ == name,
    ensures
        table.holds(name),
    decreases i,
{
    if forall|j: int| 0 <= j < i ==> #[trigger] table.entries@[j].name@ != name {
        assert(table.first_at(name, i));
    } else {
        let j = choose|j: int| 0 <= j < i && #[trigger] table.entries@[j].name@ == name;
        lemma_first_exists(table, name, j);
    }
}

} // verus!
