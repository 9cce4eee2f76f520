//! The running definition store an import resolution writes into, the tagged
//! values it holds, and the fixed scope-join rule for the qualified names it
//! is keyed by. The store belongs to the importing program's compilation and
//! is passed explicitly through the resolution call chain; the resolver is
//! its single writer.

use vstd::prelude::*;
use vstd::string::StringExecFns;
use crate::ast::Circuit;
use crate::ast::CircuitV;
use crate::ast::Function;
use crate::ast::FunctionV;

verus! {

/// A definition installed by an import: a circuit definition, or a function
/// definition. A found function is wrapped with no pre-bound call-site
/// context.
pub enum ConstrainedValue {
    CircuitDefinition(Circuit),
    FunctionDefinition(Function),
}

/// Ghost view of `ConstrainedValue`.
pub enum ConstrainedValueV {
    CircuitDefinition(CircuitV),
    FunctionDefinition(FunctionV),
}

impl View for ConstrainedValue {
    type V = ConstrainedValueV;

    open spec fn view(&self) -> ConstrainedValueV {
        match self {
            ConstrainedValue::CircuitDefinition(c) => ConstrainedValueV::CircuitDefinition(c@),
            ConstrainedValue::FunctionDefinition(f) => ConstrainedValueV::FunctionDefinition(f@),
        }
    }
}

/// The mapping a store's entries denote: later writes win.
pub open spec fn store_map(entries: Seq<(String, ConstrainedValue)>) -> Map<
    Seq<char>,
    ConstrainedValueV,
>
    decreases entries,
{
    if entries.len() == 0 {
        Map::empty()
    } else {
        store_map(entries.drop_last()).insert(entries.last().0@, entries.last().1@)
    }
}

/// The store of definitions installed so far, keyed by qualified name.
pub struct DefinitionStore {
    pub entries: Vec<(String, ConstrainedValue)>,
}

impl View for DefinitionStore {
    type V = Map<Seq<char>, ConstrainedValueV>;

    open spec fn view(&self) -> Map<Seq<char>, ConstrainedValueV> {
        store_map(self.entries@)
    }
}

/// A key is in the mapping exactly when some entry carries it.
pub proof fn lemma_store_map_dom(entries: Seq<(String, ConstrainedValue)>, key: Seq<char>)
    ensures
        store_map(entries).contains_key(key) <==> exists|i: int|
            0 <= i < entries.len() && entries[i].0@ == key,
    decreases entries,
{
    if entries.len() > 0 {
        lemma_store_map_dom(entries.drop_last(), key);
        if entries.last().0@ == key {
            assert(entries[entries.len() - 1].0@ == key);
        } else if exists|i: int| 0 <= i < entries.len() && entries[i].0@ == key {
            let i = choose|i: int| 0 <= i < entries.len() && entries[i].0@ == key;
            assert(entries.drop_last()[i].0@ == key);
        }
    }
}

/// The mapping holds the value of the last entry carrying the key.
pub proof fn lemma_store_map_at(entries: Seq<(String, ConstrainedValue)>, i: int)
    requires
        0 <= i < entries.len(),
        forall|j: int| i < j < entries.len() ==> entries[j].0@ != entries[i].0@,
    ensures
        store_map(entries).contains_key(entries[i].0@),
        store_map(entries)[entries[i].0@] == entries[i].1@,
    decreases entries,
{
    if i == entries.len() - 1 {
    } else {
        assert(entries.drop_last()[i] == entries[i]);
        lemma_store_map_at(entries.drop_last(), i);
    }
}

impl DefinitionStore {
    /// An empty store.
    pub fn new() -> (r: DefinitionStore)
        ensures
            r@ == Map::<Seq<char>, ConstrainedValueV>::empty(),
    {
        DefinitionStore { entries: Vec::new() }
    }

    /// Install a definition under a qualified name, replacing any earlier
    /// definition under the same name.
    pub fn store(&mut self, name: String, value: ConstrainedValue)
        ensures
            final(self)@ == old(self)@.insert(name@, value@),
    {
        let ghost prior = self.entries@;
        self.entries.push((name, value));
        proof {
            assert(self.entries@.drop_last() =~= prior);
        }
    }

    /// Look a qualified name up.
    pub fn get(&self, name: &String) -> (r: Option<&ConstrainedValue>)
        ensures
            match r {
                Some(v) => self@.contains_key(name@) && v@ == self@[name@],
                None => !self@.contains_key(name@),
            },
    {
        let n = self.entries.len();
        let mut i: usize = n;
        while i > 0
            invariant
                0 <= i <= n,
                n == self.entries@.len(),
                forall|j: int| i <= j < n ==> self.entries@[j].0@ != name@,
            decreases i,
        {
            i = i - 1;
            if self.entries[i].0 == *name {
                proof {
                    lemma_store_map_at(self.entries@, i as int);
                }
                return Some(&self.entries[i].1);
            }
        }
        proof {
            lemma_store_map_dom(self.entries@, name@);
        }
        None
    }
}

/// The fixed scope-join rule for qualified names: the owning program's name,
/// an underscore, the local symbol name.
pub open spec fn spec_new_scope(outer: Seq<char>, inner: Seq<char>) -> Seq<char> {
    outer + "_"@ + inner
}

/// Join an owning program's name with a local symbol name into the qualified
/// name an imported symbol is installed under.
pub fn new_scope(outer: &String, inner: &String) -> (r: String)
    ensures
        r@ == spec_new_scope(outer@, inner@),
{
    let mut r = outer.clone();
    r.append("_");
    r.append(inner.as_str());
    proof {
        assert(r@ =~= spec_new_scope(outer@, inner@));
    }
    r
}

} // verus!
