//! Binding sets: the mapping from identifiers to matched values that a
//! successful match produces. Modelled as a mathematical `Map` from the
//! identifier's characters to the bound value's model.

use vstd::prelude::*;

use crate::value::{clone_value, field_models, lemma_field_models_index, string_eq, Value,
    ValueModel};

verus! {

/// The model of a binding set: identifier characters to value model.
pub type BindingMap = Map<Seq<char>, ValueModel>;

/// The map described by an association list, later entries overriding
/// earlier ones.
pub open spec fn map_of(s: Seq<(Seq<char>, ValueModel)>) -> BindingMap
    decreases s.len(),
{
    if s.len() == 0 {
        Map::empty()
    } else {
        map_of(s.drop_last()).insert(s.last().0, s.last().1)
    }
}

/// No key occurs twice in the association list.
pub open spec fn distinct_keys(s: Seq<(Seq<char>, ValueModel)>) -> bool {
    forall|i: int, j: int| 0 <= i < j < s.len() ==> s[i].0 != s[j].0
}

/// A key is in the map exactly when some entry carries it.
pub proof fn lemma_map_of_contains(s: Seq<(Seq<char>, ValueModel)>)
    ensures
        forall|k: Seq<char>|
            map_of(s).contains_key(k) <==> exists|i: int| 0 <= i < s.len() && s[i].0 == k,
        map_of(s).dom().finite(),
    decreases s.len(),
{
    if s.len() > 0 {
        lemma_map_of_contains(s.drop_last());
        assert forall|k: Seq<char>| map_of(s).contains_key(k) implies exists|i: int|
            0 <= i < s.len() && s[i].0 == k by {
            if k == s.last().0 {
                assert(s[s.len() - 1].0 == k);
            } else {
                let i = choose|i: int| 0 <= i < s.drop_last().len() && s.drop_last()[i].0 == k;
                assert(s[i].0 == k);
            }
        }
        assert forall|k: Seq<char>| (exists|i: int| 0 <= i < s.len() && s[i].0 == k)
            implies map_of(s).contains_key(k) by {
            let i = choose|i: int| 0 <= i < s.len() && s[i].0 == k;
            if i < s.len() - 1 {
                assert(s.drop_last()[i].0 == k);
            }
        }
    }
}

/// With distinct keys, the map holds each entry's value under its key, and
/// has exactly one element per entry.
pub proof fn lemma_map_of_distinct(s: Seq<(Seq<char>, ValueModel)>)
    requires
        distinct_keys(s),
    ensures
        map_of(s).len() == s.len(),
        forall|i: int| 0 <= i < s.len() ==> map_of(s).contains_key(s[i].0),
        forall|i: int| 0 <= i < s.len() ==> map_of(s)[s[i].0] == s[i].1,
    decreases s.len(),
{
    lemma_map_of_contains(s);
    if s.len() > 0 {
        let head = s.drop_last();
        assert(distinct_keys(head));
        lemma_map_of_distinct(head);
        lemma_map_of_contains(head);
        assert(!map_of(head).contains_key(s.last().0));
        assert(forall|i: int|
            0 <= i < head.len() ==> s[i] == head[i] && s[i].0 != s.last().0);
    }
}

/// Replacing the entry at `i` by one with the same key updates the map at
/// that key alone.
pub proof fn lemma_map_of_update(s: Seq<(Seq<char>, ValueModel)>, i: int, v: ValueModel)
    requires
        distinct_keys(s),
        0 <= i < s.len(),
    ensures
        map_of(s.update(i, (s[i].0, v))) == map_of(s).insert(s[i].0, v),
    decreases s.len(),
{
    let t = s.update(i, (s[i].0, v));
    if i == s.len() - 1 {
        assert(t.drop_last() =~= s.drop_last());
        assert(map_of(s).insert(s[i].0, v) =~= map_of(s.drop_last()).insert(s[i].0, v));
    } else {
        let head = s.drop_last();
        assert(distinct_keys(head));
        lemma_map_of_update(head, i, v);
        assert(t.drop_last() =~= head.update(i, (s[i].0, v)));
        assert(t.last() == s.last());
        assert(s[i].0 != s.last().0);
        assert(map_of(head).insert(s[i].0, v).insert(s.last().0, s.last().1)
            =~= map_of(head).insert(s.last().0, s.last().1).insert(s[i].0, v));
    }
}

/// A set of bindings produced by a match: each bound name maps to the value
/// it matched.
#[derive(Debug)]
pub struct Bindings {
    entries: Vec<(String, Value)>,
}

impl View for Bindings {
    type V = BindingMap;

    closed spec fn view(&self) -> BindingMap {
        map_of(field_models(self.entries@))
    }
}

impl Bindings {
    /// Well-formedness: no name occurs twice among the entries.
    /// Constructors establish it and every method preserves it.
    pub closed spec fn wf(self) -> bool {
        distinct_keys(field_models(self.entries@))
    }

    /// The empty binding set.
    pub fn new() -> (r: Bindings)
        ensures
            r@ == Map::<Seq<char>, ValueModel>::empty(),
            r.wf(),
    {
        Bindings { entries: Vec::new() }
    }

    /// How many names are bound.
    pub fn len(&self) -> (r: usize)
        requires
            self.wf(),
        ensures
            r == self@.len(),
    {
        proof {
            lemma_field_models_index(self.entries@);
            lemma_map_of_distinct(field_models(self.entries@));
        }
        self.entries.len()
    }

    /// Whether the binding set is empty.
    pub fn is_empty(&self) -> (r: bool)
        requires
            self.wf(),
        ensures
            r == (self@ == Map::<Seq<char>, ValueModel>::empty()),
    {
        proof {
            lemma_field_models_index(self.entries@);
            lemma_map_of_distinct(field_models(self.entries@));
            if self.entries@.len() == 0 {
                assert(self@ =~= Map::<Seq<char>, ValueModel>::empty());
            } else {
                assert(self@.contains_key(field_models(self.entries@)[0].0));
            }
        }
        self.entries.len() == 0
    }

    /// The value bound to `name`, if any.
    #[verifier::loop_isolation(false)]
    pub fn get(&self, name: &String) -> (r: Option<&Value>)
        requires
            self.wf(),
        ensures
            match r {
                Option::Some(v) => self@.contains_key(name@) && v@ == self@[name@],
                Option::None => !self@.contains_key(name@),
            },
    {
        proof {
            lemma_field_models_index(self.entries@);
            lemma_map_of_distinct(field_models(self.entries@));
            lemma_map_of_contains(field_models(self.entries@));
        }
        let ghost m = field_models(self.entries@);
        let mut i: usize = 0;
        while i < self.entries.len()
            invariant
                i <= self.entries@.len(),
                forall|j: int| 0 <= j < i ==> m[j].0 != name@,
                m == field_models(self.entries@),
                distinct_keys(m),
                m.len() == self.entries@.len(),
                forall|j: int| 0 <= j < m.len() ==> m[j] == (self.entries@[j].0@,
                    crate::value::value_model(self.entries@[j].1)),
                forall|k: Seq<char>|
                    self@.contains_key(k) <==> exists|j: int| 0 <= j < m.len() && m[j].0 == k,
                forall|j: int| 0 <= j < m.len() ==> self@.contains_key(m[j].0)
                    && self@[m[j].0] == m[j].1,
            decreases self.entries@.len() - i,
        {
            if string_eq(&self.entries[i].0, name) {
                proof {
                    assert(m[i as int].0 == name@);
                    assert(self@.contains_key(name@));
                    assert(self@[name@] == m[i as int].1);
                }
                return Option::Some(&self.entries[i].1);
            }
            i += 1;
        }
        Option::None
    }

    /// Whether `name` is bound.
    pub fn contains(&self, name: &String) -> (r: bool)
        requires
            self.wf(),
        ensures
            r == self@.contains_key(name@),
    {
        match self.get(name) {
            Option::Some(_) => true,
            Option::None => false,
        }
    }

    /// Bind `name` to `value`, replacing any earlier binding of the name.
    #[verifier::loop_isolation(false)]
    pub fn insert(&mut self, name: String, value: Value)
        requires
            old(self).wf(),
        ensures
            final(self).wf(),
            final(self)@ == old(self)@.insert(name@, value@),
    {
        proof {
            lemma_field_models_index(self.entries@);
            lemma_map_of_contains(field_models(self.entries@));
        }
        let ghost m = field_models(self.entries@);
        let mut i: usize = 0;
        while i < self.entries.len()
            invariant
                i <= self.entries@.len(),
                forall|j: int| 0 <= j < i ==> m[j].0 != name@,
                m == field_models(self.entries@),
                distinct_keys(m),
                forall|j: int| 0 <= j < m.len() ==> m[j] == (self.entries@[j].0@,
                    crate::value::value_model(self.entries@[j].1)),
                m.len() == self.entries@.len(),
            decreases self.entries@.len() - i,
        {
            if string_eq(&self.entries[i].0, &name) {
                let ghost vm = crate::value::value_model(value);
                let ghost j = i as int;
                self.entries[i] = (name, value);
                proof {
                    lemma_field_models_index(self.entries@);
                    assert(field_models(self.entries@) =~= m.update(j, (m[j].0, vm)));
                    lemma_map_of_update(m, j, vm);
                    assert(forall|k: int|
                        0 <= k < m.len() ==> field_models(self.entries@)[k].0 == m[k].0);
                    assert(distinct_keys(field_models(self.entries@)));
                }
                return ;
            }
            i += 1;
        }
        let ghost old_entries = self.entries@;
        self.entries.push((name, value));
        proof {
            assert(self.entries@.drop_last() =~= old_entries);
            assert(field_models(self.entries@).drop_last() =~= m) by {
                lemma_field_models_index(self.entries@);
                lemma_field_models_index(old_entries);
            }
            lemma_field_models_index(self.entries@);
            assert(distinct_keys(field_models(self.entries@)));
        }
    }

    /// Add every binding of `other`, bindings of `other` overriding same-name
    /// bindings already present.
    #[verifier::loop_isolation(false)]
    pub fn extend(&mut self, other: &Bindings)
        requires
            old(self).wf(),
            other.wf(),
        ensures
            final(self).wf(),
            final(self)@ == old(self)@.union_prefer_right(other@),
    {
        proof {
            lemma_field_models_index(other.entries@);
        }
        let ghost mo = field_models(other.entries@);
        let mut i: usize = 0;
        proof {
            assert(map_of(mo.subrange(0, 0)) =~= Map::<Seq<char>, ValueModel>::empty());
            assert(self@ =~= old(self)@.union_prefer_right(map_of(mo.subrange(0, 0))));
        }
        while i < other.entries.len()
            invariant
                i <= other.entries@.len(),
                mo == field_models(other.entries@),
                mo.len() == other.entries@.len(),
                forall|j: int| 0 <= j < mo.len() ==> mo[j] == (other.entries@[j].0@,
                    crate::value::value_model(other.entries@[j].1)),
                self.wf(),
                self@ == old(self)@.union_prefer_right(map_of(mo.subrange(0, i as int))),
            decreases other.entries@.len() - i,
        {
            let name = other.entries[i].0.clone();
            let value = clone_value(&other.entries[i].1);
            let ghost before = self@;
            self.insert(name, value);
            proof {
                let j = i as int;
                assert(mo.subrange(0, j + 1).drop_last() =~= mo.subrange(0, j));
                assert(mo.subrange(0, j + 1).last() == mo[j]);
                assert(map_of(mo.subrange(0, j + 1)) == map_of(mo.subrange(0, j)).insert(
                    mo[j].0,
                    mo[j].1,
                ));
                assert(old(self)@.union_prefer_right(map_of(mo.subrange(0, j)).insert(
                    mo[j].0,
                    mo[j].1,
                )) =~= before.insert(mo[j].0, mo[j].1));
            }
            i += 1;
        }
        proof {
            assert(mo.subrange(0, mo.len() as int) =~= mo);
        }
    }
}

} // verus!
