//! The environment: a mutable mapping from variable name to runtime value.
//!
//! The abstraction is the map [`Bindings`]; the representation is a list of
//! entries in which a later entry for a name shadows every earlier one, so
//! insertion is a push and lookup scans from the newest entry backwards.

use vstd::prelude::*;

use crate::object::Object;
use crate::semantics::Bindings;
use crate::semantics::Value;

verus! {

/// A mapping from variable name to [`Object`], created empty by the host,
/// read by identifier lookup and written only by `Define`.
#[derive(Debug)]
pub struct Environment {
    entries: Vec<(String, Object)>,
}

/// The map an entry list stands for: entries applied oldest first, so the
/// newest entry for a name wins.
pub open spec fn map_of(s: Seq<(String, Object)>) -> Bindings
    decreases s.len(),
{
    if s.len() == 0 {
        Map::empty()
    } else {
        map_of(s.drop_last()).insert(s.last().0@, s.last().1@)
    }
}

/// If position `i` holds the newest entry for its name, the map takes that
/// name to that entry's value.
proof fn lemma_map_of_newest(s: Seq<(String, Object)>, i: int)
    requires
        0 <= i < s.len(),
        forall|j: int| i < j < s.len() ==> #[trigger] s[j].0@ != s[i].0@,
    ensures
        map_of(s).contains_key(s[i].0@),
        map_of(s)[s[i].0@] == s[i].1@,
    decreases s.len(),
{
    if i < s.len() - 1 {
        assert(s.drop_last()[i] == s[i]);
        assert(forall|j: int|
            i < j < s.drop_last().len() ==> #[trigger] s.drop_last()[j].0@ != s.drop_last()[i].0@);
        lemma_map_of_newest(s.drop_last(), i);
    }
}

/// A name no entry carries is not in the map.
proof fn lemma_map_of_absent(s: Seq<(String, Object)>, k: Seq<char>)
    requires
        forall|j: int| 0 <= j < s.len() ==> #[trigger] s[j].0@ != k,
    ensures
        !map_of(s).contains_key(k),
    decreases s.len(),
{
    if s.len() > 0 {
        lemma_map_of_absent(s.drop_last(), k);
    }
}

/// Entry lists equal under the view are taken to the same map.
proof fn lemma_map_of_congruence(s1: Seq<(String, Object)>, s2: Seq<(String, Object)>)
    requires
        s1.len() == s2.len(),
        forall|j: int|
            0 <= j < s1.len() ==> #[trigger] s1[j].0@ == s2[j].0@ && s1[j].1@ == s2[j].1@,
    ensures
        map_of(s1) == map_of(s2),
    decreases s1.len(),
{
    if s1.len() > 0 {
        assert(forall|j: int|
            0 <= j < s1.drop_last().len()
                ==> #[trigger] s1.drop_last()[j].0@ == s2.drop_last()[j].0@
                && s1.drop_last()[j].1@ == s2.drop_last()[j].1@);
        lemma_map_of_congruence(s1.drop_last(), s2.drop_last());
        assert(s1[s1.len() - 1].0@ == s2[s2.len() - 1].0@);
        assert(s1[s1.len() - 1].1@ == s2[s2.len() - 1].1@);
    }
}

impl View for Environment {
    type V = Bindings;

    closed spec fn view(&self) -> Bindings {
        map_of(self.entries@)
    }
}

impl Environment {
    /// The empty environment, from which every evaluation session starts.
    pub fn new() -> (r: Environment)
        ensures
            r@ == Map::<Seq<char>, Value>::empty(),
    {
        Environment { entries: Vec::new() }
    }

    /// Looks `name` up; yields a copy of the bound value, or nothing when
    /// the name is unbound.
    pub fn get(&self, name: &String) -> (r: Option<Object>)
        ensures
            match r {
                Option::Some(o) => self@.contains_key(name@) && o@ == self@[name@],
                Option::None => !self@.contains_key(name@),
            },
    {
        let mut i: usize = self.entries.len();
        while i > 0
            invariant
                i <= self.entries@.len(),
                forall|j: int| i <= j < self.entries@.len() ==> #[trigger] self.entries@[j].0@ != name@,
            decreases i,
        {
            i = i - 1;
            let (k, v) = &self.entries[i];
            if *k == *name {
                proof {
                    lemma_map_of_newest(self.entries@, i as int);
                }
                return Option::Some(v.clone());
            }
        }
        proof {
            lemma_map_of_absent(self.entries@, name@);
        }
        Option::None
    }

    /// Binds `name` to `value`, overwriting any existing binding.
    pub fn insert(&mut self, name: String, value: Object)
        ensures
            final(self)@ == old(self)@.insert(name@, value@),
    {
        let ghost s = self.entries@;
        self.entries.push((name, value));
        proof {
            assert(self.entries@.drop_last() =~= s);
        }
    }

    /// An independent copy: later changes to either environment are
    /// invisible to the other.
    pub fn duplicate(&self) -> (r: Environment)
        ensures
            r@ == self@,
    {
        let mut out: Vec<(String, Object)> = Vec::new();
        let mut i: usize = 0;
        while i < self.entries.len()
            invariant
                i <= self.entries@.len(),
                out@.len() == i,
                forall|j: int|
                    0 <= j < i ==> #[trigger] out@[j].0@ == self.entries@[j].0@
                        && out@[j].1@ == self.entries@[j].1@,
            decreases self.entries@.len() - i,
        {
            let (k, v) = &self.entries[i];
            out.push((k.clone(), v.clone()));
            i = i + 1;
        }
        proof {
            lemma_map_of_congruence(out@, self.entries@);
        }
        Environment { entries: out }
    }
}

} // verus!
