//! A registry of named resources (shader modules, render pipelines), each
//! name registered at most once.
use vstd::prelude::*;

use crate::text::{assoc, find_last, lemma_assoc_hit, lemma_assoc_miss, lemma_assoc_values, views};

verus! {

/// Resources of type `V` registered under names.
pub struct Registry<V> {
    names: Vec<String>,
    values: Vec<V>,
}

/// The names of a registry are pairwise distinct.
pub open spec fn distinct_names(names: Seq<Seq<char>>) -> bool {
    forall|i: int, j: int| 0 <= i < j < names.len() ==> names[i] != names[j]
}

impl<R> View for Registry<R> {
    type V = Map<Seq<char>, R>;

    /// The registered resources by name.
    closed spec fn view(&self) -> Map<Seq<char>, R> {
        assoc(views(self.names@), self.values@)
    }
}

/// What registering under `name` only where nothing is registered does to a
/// registry going from `before` to `after`: when the name is taken, `make`
/// comes back uncalled and the registry stays as it was; otherwise `make` runs
/// once and its resource is registered under `name`.
pub open spec fn registered_if_absent<V, F: FnOnce() -> V>(
    before: Map<Seq<char>, V>,
    after: Map<Seq<char>, V>,
    name: Seq<char>,
    make: F,
    unused: Option<F>,
) -> bool {
    &&& (unused is Some <==> before.contains_key(name))
    &&& unused is Some ==> unused == Some(make) && after == before
    &&& unused is None ==> exists|v: V| make.ensures((), v) && after == before.insert(name, v)
}

impl<V> Registry<V> {
    #[verifier::type_invariant]
    spec fn well_formed(self) -> bool {
        &&& self.names@.len() == self.values@.len()
        &&& distinct_names(views(self.names@))
    }

    /// An empty registry.
    pub fn new() -> (r: Self)
        ensures
            r@ == Map::<Seq<char>, V>::empty(),
    {
        Registry { names: Vec::new(), values: Vec::new() }
    }

    /// The position of `name` among the registered names.
    fn position(&self, name: &str) -> (r: Option<usize>)
        ensures
            r is Some <==> self@.contains_key(name@),
            r matches Some(k) ==> k < self.values@.len() && self@[name@] == self.values@[k as int]
                && self.names@[k as int]@ == name@,
    {
        proof {
            use_type_invariant(self);
        }
        match find_last(&self.names, name) {
            Some(k) => {
                proof {
                    assert(views(self.names@)[k as int] == name@);
                    lemma_assoc_hit(views(self.names@), self.values@, k as int);
                }
                Some(k)
            },
            None => {
                proof {
                    lemma_assoc_miss(views(self.names@), self.values@, name@);
                }
                None
            },
        }
    }

    /// Whether a resource is registered under `name`.
    pub fn contains_key(&self, name: &str) -> (r: bool)
        ensures
            r == self@.contains_key(name@),
    {
        self.position(name).is_some()
    }

    /// The resource registered under `name`, if any.
    pub fn get(&self, name: &str) -> (r: Option<&V>)
        ensures
            r is Some <==> self@.contains_key(name@),
            r matches Some(v) ==> *v == self@[name@],
    {
        match self.position(name) {
            Some(k) => Some(&self.values[k]),
            None => None,
        }
    }

    /// Makes sure a resource is registered under `name`: when none is, the
    /// one that `make` gives is registered and `None` returned; when one is,
    /// nothing changes and `make` is handed back uncalled.
    pub fn insert_if_absent_with<F: FnOnce() -> V>(&mut self, name: &str, make: F) -> (unused:
        Option<F>)
        requires
            make.requires(()),
        ensures
            registered_if_absent(old(self)@, final(self)@, name@, make, unused),
            final(self)@.contains_key(name@),
    {
        if self.contains_key(name) {
            Some(make)
        } else {
            let value = make();
            self.insert(name, value);
            None
        }
    }

    /// Registers `value` under `name`, replacing what was registered under it.
    pub fn insert(&mut self, name: &str, value: V)
        ensures
            final(self)@ == old(self)@.insert(name@, value),
    {
        proof {
            use_type_invariant(&*self);
        }
        let ghost old_view = self@;
        let ghost old_names = views(self.names@);
        let ghost old_values = self.values@;
        let found = self.position(name);
        let mut taken = Registry::new();
        std::mem::swap(self, &mut taken);
        proof {
            use_type_invariant(&taken);
        }
        let Registry { mut names, mut values } = taken;
        match found {
            Some(k) => {
                values.set(k, value);
                proof {
                    lemma_update_distinct(old_names, old_values, k as int, value);
                }
            },
            None => {
                names.push(String::from_str(name));
                values.push(value);
                proof {
                    assert(views(names@).drop_last() =~= old_names);
                    lemma_assoc_values(old_names, old_values, values@);
                    assert forall|i: int, j: int|
                        0 <= i < j < views(names@).len() implies views(names@)[i] != views(
                            names@,
                        )[j] by {
                        assert(views(names@)[i] == old_names[i]);
                        if j == old_names.len() {
                            lemma_assoc_contains(old_names, old_values, i);
                        } else {
                            assert(views(names@)[j] == old_names[j]);
                        }
                    }
                }
            },
        }
        *self = Registry { names, values };
    }
}

/// Registering only where absent makes each name's resource once: of two
/// successive registrations under one name, the second hands its factory back
/// uncalled and leaves the registry as the first left it, holding what a
/// factory made.
pub proof fn law_one_resource_per_name<V, F: FnOnce() -> V>(
    r0: Registry<V>,
    r1: Registry<V>,
    r2: Registry<V>,
    name: Seq<char>,
    make1: F,
    unused1: Option<F>,
    make2: F,
    unused2: Option<F>,
)
    requires
        registered_if_absent(r0@, r1@, name, make1, unused1),
        registered_if_absent(r1@, r2@, name, make2, unused2),
    ensures
        unused2 == Some(make2),
        r2@ == r1@,
        r2@.contains_key(name),
        !r0@.contains_key(name) ==> make1.ensures((), r2@[name]),
        r0@.contains_key(name) ==> r2@ == r0@,
{
    if !r0@.contains_key(name) {
        let v = choose|v: V| make1.ensures((), v) && r1@ == r0@.insert(name, v);
        assert(r2@[name] == v);
    }
}

/// What `get` finds after `insert`: the inserted resource under its name, and
/// under every other name what it found before.
pub proof fn law_lookup_after_insert<V>(
    before: Registry<V>,
    after: Registry<V>,
    name: Seq<char>,
    value: V,
    other: Seq<char>,
    found: Option<V>,
    found_other_before: Option<V>,
    found_other_after: Option<V>,
)
    requires
        after@ == before@.insert(name, value),
        found is Some <==> after@.contains_key(name),
        found matches Some(v) ==> v == after@[name],
        other != name,
        found_other_before is Some <==> before@.contains_key(other),
        found_other_before matches Some(v) ==> v == before@[other],
        found_other_after is Some <==> after@.contains_key(other),
        found_other_after matches Some(v) ==> v == after@[other],
    ensures
        found == Some(value),
        found_other_after == found_other_before,
{
}

/// Every key of the list is in `assoc`.
proof fn lemma_assoc_contains<V>(names: Seq<Seq<char>>, values: Seq<V>, i: int)
    requires
        0 <= i < names.len(),
    ensures
        assoc(names, values).contains_key(names[i]),
    decreases names.len(),
{
    if i < names.len() - 1 {
        lemma_assoc_contains(names.drop_last(), values, i);
    }
}

/// With distinct names, changing the value at one index changes `assoc` at
/// that index's name only.
proof fn lemma_update_distinct<V>(names: Seq<Seq<char>>, values: Seq<V>, k: int, v: V)
    requires
        0 <= k < names.len(),
        names.len() == values.len(),
        distinct_names(names),
    ensures
        assoc(names, values.update(k, v)) == assoc(names, values).insert(names[k], v),
    decreases names.len(),
{
    let n = names.len();
    if k == n - 1 {
        lemma_assoc_values(names.drop_last(), values, values.update(k, v));
        assert(assoc(names.drop_last(), values).insert(names[k], v).insert(names[k], v) =~= assoc(
            names.drop_last(),
            values,
        ).insert(names[k], v));
        assert(assoc(names, values).insert(names[k], v) =~= assoc(names.drop_last(), values).insert(
            names[k],
            v,
        ));
    } else {
        let shorter = names.drop_last();
        assert forall|i: int, j: int| 0 <= i < j < shorter.len() implies shorter[i] != shorter[j] by {
            assert(shorter[i] == names[i] && shorter[j] == names[j]);
        }
        lemma_update_distinct(shorter, values.drop_last(), k, v);
        lemma_assoc_values(shorter, values.drop_last().update(k, v), values.update(k, v));
        lemma_assoc_values(shorter, values.drop_last(), values);
        assert(names[k] != names[n - 1]);
        assert(assoc(names, values.update(k, v)) =~= assoc(names, values).insert(names[k], v));
    }
}

} // verus!
