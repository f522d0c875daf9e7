use vstd::prelude::*;

verus! {

/// The map that a list of bindings stands for: each name bound to the value
/// written beside it, a later binding replacing an earlier one of the same name.
pub open spec fn bindings<W>(entries: Seq<(Seq<char>, W)>) -> Map<Seq<char>, W>
    decreases entries.len(),
{
    if entries.len() == 0 {
        Map::empty()
    } else {
        bindings(entries.drop_last()).insert(entries.last().0, entries.last().1)
    }
}

/// The last entry that holds a name decides what the name is bound to.
pub proof fn lemma_bindings_last<W>(entries: Seq<(Seq<char>, W)>, i: int)
    requires
        0 <= i < entries.len(),
        forall|j: int| i < j < entries.len() ==> entries[j].0 != entries[i].0,
    ensures
        bindings(entries).contains_key(entries[i].0),
        bindings(entries)[entries[i].0] == entries[i].1,
    decreases entries.len(),
{
    if i < entries.len() - 1 {
        lemma_bindings_last(entries.drop_last(), i);
    }
}

/// A name is bound exactly if some entry holds it.
pub proof fn lemma_bindings_dom<W>(entries: Seq<(Seq<char>, W)>, name: Seq<char>)
    ensures
        bindings(entries).contains_key(name) <==> exists|i: int|
            0 <= i < entries.len() && (#[trigger] entries[i]).0 == name,
    decreases entries.len(),
{
    if entries.len() > 0 {
        let front = entries.drop_last();
        lemma_bindings_dom(front, name);
        if bindings(entries).contains_key(name) {
            if entries.last().0 == name {
                assert(entries[entries.len() - 1].0 == name);
            } else {
                let i = choose|i: int| 0 <= i < front.len() && (#[trigger] front[i]).0 == name;
                assert(entries[i].0 == name);
            }
        }
        if exists|i: int| 0 <= i < entries.len() && (#[trigger] entries[i]).0 == name {
            let i = choose|i: int| 0 <= i < entries.len() && (#[trigger] entries[i]).0 == name;
            if i < front.len() {
                assert(front[i].0 == name);
            }
        }
    }
}

/// Replacing the value of the last entry that holds a name rebinds that name
/// and nothing else.
pub proof fn lemma_bindings_update<W>(entries: Seq<(Seq<char>, W)>, i: int, value: W)
    requires
        0 <= i < entries.len(),
        forall|j: int| i < j < entries.len() ==> entries[j].0 != entries[i].0,
    ensures
        bindings(entries.update(i, (entries[i].0, value))) == bindings(entries).insert(
            entries[i].0,
            value,
        ),
    decreases entries.len(),
{
    let changed = entries.update(i, (entries[i].0, value));
    if i < entries.len() - 1 {
        lemma_bindings_update(entries.drop_last(), i, value);
        assert(changed.drop_last() =~= entries.drop_last().update(i, (entries[i].0, value)));
        assert(bindings(changed) =~= bindings(entries).insert(entries[i].0, value));
    } else {
        assert(changed.drop_last() =~= entries.drop_last());
        assert(bindings(changed) =~= bindings(entries).insert(entries[i].0, value));
    }
}

/// One binding of a table.
struct Entry<V> {
    name: String,
    value: V,
}

/// A finite map from names to values.
///
/// Both the variable environment and the function table are such maps.
pub struct Table<V: View> {
    entries: Vec<Entry<V>>,
}

impl<V: View> Table<V> {
    /// The bindings as pairs of models, oldest name first.
    pub closed spec fn pairs(&self) -> Seq<(Seq<char>, V::V)> {
        Seq::new(self.entries@.len(), |i: int| (self.entries@[i].name@, self.entries@[i].value@))
    }

    /// An empty table.
    pub fn new() -> (r: Self)
        ensures
            r@ == Map::<Seq<char>, V::V>::empty(),
    {
        let r = Table { entries: Vec::new() };
        assert(r.pairs() =~= Seq::empty());
        r
    }

    /// The index of the last entry that holds `name`.
    fn find(&self, name: &String) -> (r: Option<usize>)
        ensures
            match r {
                Some(i) => {
                    &&& i < self.entries.len()
                    &&& self.entries[i as int].name@ == name@
                    &&& forall|j: int| i < j < self.entries.len() ==> self.entries[j].name@ != name@
                },
                None => forall|j: int| 0 <= j < self.entries.len() ==> self.entries[j].name@ != name@,
            },
    {
        let mut i: usize = self.entries.len();
        while i > 0
            invariant
                i <= self.entries.len(),
                forall|j: int| i <= j < self.entries.len() ==> self.entries[j].name@ != name@,
            decreases i,
        {
            i -= 1;
            if self.entries[i].name == *name {
                return Some(i);
            }
        }
        None
    }

    /// The value bound to `name`, if any.
    pub fn get(&self, name: &str) -> (r: Option<&V>)
        ensures
            match r {
                Some(v) => self@.contains_key(name@) && v@ == self@[name@],
                None => !self@.contains_key(name@),
            },
    {
        let key = name.to_string();
        match self.find(&key) {
            Some(i) => {
                proof {
                    lemma_bindings_last(self.pairs(), i as int);
                }
                Some(&self.entries[i].value)
            },
            None => {
                proof {
                    lemma_bindings_dom(self.pairs(), name@);
                }
                None
            },
        }
    }

    /// Whether `name` is bound.
    pub fn contains_key(&self, name: &str) -> (b: bool)
        ensures
            b == self@.contains_key(name@),
    {
        self.get(name).is_some()
    }

    /// Binds `name` to `value`, replacing what it was bound to before.
    pub fn insert(&mut self, name: String, value: V)
        ensures
            final(self)@ == old(self)@.insert(name@, value@),
    {
        let ghost before = self.pairs();
        match self.find(&name) {
            Some(i) => {
                proof {
                    lemma_bindings_update(before, i as int, value@);
                }
                self.entries.set(i, Entry { name, value });
                assert(self.pairs() =~= before.update(i as int, (name@, value@)));
            },
            None => {
                self.entries.push(Entry { name, value });
                assert(self.pairs().drop_last() =~= before);
            },
        }
    }

    /// The names that are bound, oldest first.
    pub fn names(&self) -> (r: Vec<String>)
        ensures
            forall|name: Seq<char>|
                self@.contains_key(name) <==> exists|i: int|
                    0 <= i < r.len() && (#[trigger] r[i])@ == name,
    {
        let mut r: Vec<String> = Vec::new();
        let mut i: usize = 0;
        while i < self.entries.len()
            invariant
                i <= self.entries.len(),
                r.len() == i,
                forall|j: int| 0 <= j < i ==> r[j]@ == self.entries[j].name@,
            decreases self.entries.len() - i,
        {
            r.push(self.entries[i].name.clone());
            i += 1;
        }
        proof {
            let pairs = self.pairs();
            assert forall|name: Seq<char>|
                self@.contains_key(name) <==> exists|i: int|
                    0 <= i < r.len() && (#[trigger] r[i])@ == name by {
                lemma_bindings_dom(pairs, name);
                if self@.contains_key(name) {
                    let i = choose|i: int| 0 <= i < pairs.len() && (#[trigger] pairs[i]).0 == name;
                    assert(r[i]@ == name);
                }
                if exists|i: int| 0 <= i < r.len() && (#[trigger] r[i])@ == name {
                    let i = choose|i: int| 0 <= i < r.len() && (#[trigger] r[i])@ == name;
                    assert(pairs[i].0 == name);
                }
            }
        }
        r
    }
}

impl<V: View> View for Table<V> {
    type V = Map<Seq<char>, V::V>;

    closed spec fn view(&self) -> Map<Seq<char>, V::V> {
        bindings(self.pairs())
    }
}

} // verus!
