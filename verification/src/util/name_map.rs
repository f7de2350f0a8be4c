//! A map from names to values that walks its names in order.

use crate::order::lemma_text_rank;
use crate::order::lemma_text_rank_transitive;
use crate::order::rank_texts;
use crate::order::text_rank;
use crate::order::Rank;
use crate::text::contains;
use crate::text::owned;
use vstd::prelude::*;

verus! {

/// Whether names stand in strictly rising order.
pub open spec fn rising(names: Seq<Seq<char>>) -> bool {
    forall|i: int, j: int|
        0 <= i < j < names.len() ==> text_rank(#[trigger] names[i], #[trigger] names[j]) is Before
}

/// Whether the name at `i` comes before the next.
pub open spec fn steps_up(names: Seq<Seq<char>>, i: int) -> bool {
    text_rank(names[i], names[i + 1]) is Before
}

/// Names of which each comes before the next stand in rising order.
pub proof fn lemma_rising_steps(names: Seq<Seq<char>>)
    requires
        forall|i: int| 0 <= i < names.len() - 1 ==> #[trigger] steps_up(names, i),
    ensures
        rising(names),
    decreases names.len(),
{
    if names.len() > 1 {
        let front = names.drop_last();
        let n = names.len() - 1;
        assert forall|i: int| 0 <= i < front.len() - 1 implies #[trigger] steps_up(front, i) by {
            assert(steps_up(names, i));
        }
        lemma_rising_steps(front);
        assert(steps_up(names, n - 1));
        assert forall|i: int, j: int| 0 <= i < j < names.len() implies text_rank(
            #[trigger] names[i],
            #[trigger] names[j],
        ) is Before by {
            if j < n {
                assert(front[i] == names[i] && front[j] == names[j]);
            } else if i < n - 1 {
                assert(front[i] == names[i] && front[n - 1] == names[n - 1]);
                lemma_text_rank_transitive(names[i], names[n - 1], names[n]);
            }
        }
    }
}

/// Values by name, kept in the order of the names.
#[derive(Debug)]
pub struct NameMap<T> {
    entries: Vec<(String, T)>,
}

impl<T> View for NameMap<T> {
    type V = Map<Seq<char>, T>;

    closed spec fn view(&self) -> Map<Seq<char>, T> {
        Map::new(
            |k: Seq<char>| self.names().contains(k),
            |k: Seq<char>| self.entries@[self.names().index_of(k)].1,
        )
    }
}

impl<T> NameMap<T> {
    /// The names, in order.
    pub closed spec fn names(&self) -> Seq<Seq<char>> {
        Seq::new(self.entries@.len(), |i: int| self.entries@[i].0@)
    }

    /// No name occurs twice, and the names stand in order.
    pub closed spec fn wf(&self) -> bool {
        rising(self.names())
    }

    /// What well-formedness says of the names and the map.
    pub proof fn lemma_names(&self)
        requires
            self.wf(),
        ensures
            rising(self.names()),
            self.names().no_duplicates(),
            forall|k: Seq<char>| #[trigger] self@.dom().contains(k) <==> self.names().contains(k),
            forall|i: int|
                0 <= i < self.names().len() ==> self@.dom().contains(#[trigger] self.names()[i]),
    {
        let ns = self.names();
        assert forall|i: int, j: int| 0 <= i < ns.len() && 0 <= j < ns.len() && i != j implies ns[i]
            != ns[j] by {
            lemma_text_rank(ns[i], ns[j]);
            lemma_text_rank(ns[j], ns[i]);
        }
        assert forall|i: int| 0 <= i < ns.len() implies self@.dom().contains(#[trigger] ns[i]) by {
            assert(ns.contains(ns[i]));
        }
    }

    /// The value of the entry at an index.
    proof fn lemma_entry(&self, i: int)
        requires
            self.wf(),
            0 <= i < self.entries@.len(),
        ensures
            self@.dom().contains(self.entries@[i].0@),
            self@[self.entries@[i].0@] == self.entries@[i].1,
    {
        self.lemma_names();
        let ns = self.names();
        assert(ns[i] == self.entries@[i].0@);
        assert(ns.contains(ns[i]));
        let j = ns.index_of(ns[i]);
        assert(ns[j] == ns[i]);
    }

    /// A map without entries.
    pub fn new() -> (r: NameMap<T>)
        ensures
            r.wf(),
            r@ == Map::<Seq<char>, T>::empty(),
            r.names() == Seq::<Seq<char>>::empty(),
    {
        let r = NameMap { entries: Vec::new() };
        assert(r.names() =~= Seq::<Seq<char>>::empty());
        assert(r@ =~= Map::<Seq<char>, T>::empty());
        r
    }

    /// How many names there are.
    pub fn len(&self) -> (r: usize)
        ensures
            r == self.names().len(),
    {
        self.entries.len()
    }

    /// The name at an index, in order.
    pub fn name(&self, i: usize) -> (r: &str)
        requires
            i < self.names().len(),
        ensures
            r@ == self.names()[i as int],
    {
        self.entries[i].0.as_str()
    }

    /// The value at an index, in the order of the names.
    pub fn value(&self, i: usize) -> (r: &T)
        requires
            self.wf(),
            i < self.names().len(),
        ensures
            *r == self@[self.names()[i as int]],
    {
        proof {
            self.lemma_entry(i as int);
        }
        &self.entries[i].1
    }

    /// How many names come before `name`.
    fn slot(&self, name: &str) -> (r: usize)
        requires
            self.wf(),
        ensures
            r <= self.names().len(),
            forall|k: int| 0 <= k < r ==> text_rank(#[trigger] self.names()[k], name@) is Before,
            forall|k: int|
                r <= k < self.names().len() ==> !(text_rank(#[trigger] self.names()[k], name@) is Before),
    {
        let ghost ns = self.names();
        let mut lo: usize = 0;
        let mut hi: usize = self.entries.len();
        while lo < hi
            invariant
                self.wf(),
                ns == self.names(),
                lo <= hi <= ns.len(),
                ns.len() == self.entries.len(),
                forall|k: int| 0 <= k < lo ==> text_rank(#[trigger] ns[k], name@) is Before,
                forall|k: int|
                    hi <= k < ns.len() ==> !(text_rank(#[trigger] ns[k], name@) is Before),
            decreases hi - lo,
        {
            let mid: usize = lo + (hi - lo) / 2;
            assert(ns[mid as int] == self.entries@[mid as int].0@);
            if rank_texts(self.entries[mid].0.as_str(), name) == Rank::Before {
                assert forall|k: int| 0 <= k < mid + 1 implies text_rank(#[trigger] ns[k], name@) is Before by {
                    if k < mid {
                        lemma_text_rank_transitive(ns[k], ns[mid as int], name@);
                    }
                }
                lo = mid + 1;
            } else {
                assert forall|k: int| mid <= k < ns.len() implies !(text_rank(
                    #[trigger] ns[k],
                    name@,
                ) is Before) by {
                    if k > mid && text_rank(ns[k], name@) is Before {
                        lemma_text_rank_transitive(ns[mid as int], ns[k], name@);
                    }
                }
                hi = mid;
            }
        }
        lo
    }

    /// Whether the entry at a slot has the name that the slot was found for.
    fn hit(&self, slot: usize, name: &str) -> (r: bool)
        requires
            self.wf(),
            slot <= self.names().len(),
            forall|k: int| 0 <= k < slot ==> text_rank(#[trigger] self.names()[k], name@) is Before,
            forall|k: int|
                slot <= k < self.names().len() ==> !(text_rank(#[trigger] self.names()[k], name@) is Before),
        ensures
            r == self@.dom().contains(name@),
            r ==> slot < self.names().len() && self.names()[slot as int] == name@,
    {
        let ghost ns = self.names();
        proof {
            self.lemma_names();
        }
        if slot < self.entries.len() && rank_texts(self.entries[slot].0.as_str(), name)
            == Rank::Same {
            proof {
                assert(ns[slot as int] == self.entries@[slot as int].0@);
                lemma_text_rank(ns[slot as int], name@);
            }
            return true;
        }
        proof {
            if ns.contains(name@) {
                let k = ns.index_of(name@);
                lemma_text_rank(ns[k], name@);
                assert(k >= slot);
                assert(ns[slot as int] == self.entries@[slot as int].0@);
                if k > slot {
                    lemma_text_rank(ns[slot as int], name@);
                    assert(text_rank(ns[slot as int], ns[k]) is Before);
                }
            }
        }
        false
    }

    /// The value of a name.
    pub fn get(&self, name: &str) -> (r: Option<&T>)
        requires
            self.wf(),
        ensures
            match r {
                Some(v) => self@.dom().contains(name@) && *v == self@[name@],
                None => !self@.dom().contains(name@),
            },
    {
        let i = self.slot(name);
        if self.hit(i, name) {
            proof {
                self.lemma_entry(i as int);
            }
            Some(&self.entries[i].1)
        } else {
            None
        }
    }

    /// Whether there is a value for a name.
    pub fn contains(&self, name: &str) -> (r: bool)
        requires
            self.wf(),
        ensures
            r == self@.dom().contains(name@),
    {
        let i = self.slot(name);
        self.hit(i, name)
    }

    /// Give a name a value, in place of the one that it had.
    pub fn insert(&mut self, name: &str, value: T)
        requires
            old(self).wf(),
        ensures
            final(self).wf(),
            final(self)@ == old(self)@.insert(name@, value),
    {
        let i = self.slot(name);
        let ghost before = *self;
        let ghost ns = self.names();
        if self.hit(i, name) {
            self.entries.remove(i);
            self.entries.insert(i, (owned(name), value));
            proof {
                assert(self.names() =~= ns);
                before.lemma_names();
                assert forall|k: Seq<char>| #[trigger] self@.dom().contains(k) implies self@[k]
                    == before@.insert(name@, value)[k] by {
                    let j = ns.index_of(k);
                    self.lemma_entry(j);
                    before.lemma_entry(j);
                    if j != i {
                        assert(ns[j] != ns[i as int]);
                    }
                }
                assert(self@.dom() =~= before@.dom().insert(name@));
                assert(self@ =~= before@.insert(name@, value));
            }
        } else {
            self.entries.insert(i, (owned(name), value));
            proof {
                let now = self.names();
                assert(now =~= ns.insert(i as int, name@));
                before.lemma_names();
                lemma_insert_rising(ns, i as int, name@);
                assert forall|k: Seq<char>| #[trigger] now.contains(k) <==> ns.contains(k) || k
                    == name@ by {
                    if ns.contains(k) {
                        let j = ns.index_of(k);
                        assert(now[if j < i {
                            j
                        } else {
                            j + 1
                        }] == k);
                    }
                    assert(now[i as int] == name@);
                    if now.contains(k) {
                        let j = now.index_of(k);
                        if j < i {
                            assert(ns[j] == k);
                        } else if j > i {
                            assert(ns[j - 1] == k);
                        }
                    }
                }
                assert forall|k: Seq<char>| #[trigger] self@.dom().contains(k) implies self@[k]
                    == before@.insert(name@, value)[k] by {
                    let j = now.index_of(k);
                    self.lemma_entry(j);
                    if j < i {
                        before.lemma_entry(j);
                        assert(before.entries@[j].0@ == ns[j]);
                    } else if j > i {
                        before.lemma_entry(j - 1);
                        assert(before.entries@[j - 1].0@ == ns[j - 1]);
                    }
                }
                assert(self@.dom() =~= before@.dom().insert(name@));
                assert(self@ =~= before@.insert(name@, value));
            }
        }
    }
}

/// A name put in at its place keeps the order.
proof fn lemma_insert_rising(ns: Seq<Seq<char>>, i: int, x: Seq<char>)
    requires
        rising(ns),
        0 <= i <= ns.len(),
        forall|k: int| 0 <= k < i ==> text_rank(#[trigger] ns[k], x) is Before,
        forall|k: int| i <= k < ns.len() ==> !(text_rank(#[trigger] ns[k], x) is Before),
        !ns.contains(x),
    ensures
        rising(ns.insert(i, x)),
{
    let t = ns.insert(i, x);
    assert forall|a: int, b: int| 0 <= a < b < t.len() implies text_rank(
        #[trigger] t[a],
        #[trigger] t[b],
    ) is Before by {
        if b < i {
            assert(t[a] == ns[a] && t[b] == ns[b]);
        } else if b == i {
            assert(t[a] == ns[a]);
        } else if a < i {
            assert(t[a] == ns[a] && t[b] == ns[b - 1]);
        } else if a == i {
            assert(t[b] == ns[b - 1]);
            lemma_text_rank(ns[b - 1], x);
            assert(ns.contains(ns[b - 1]));
        } else {
            assert(t[a] == ns[a - 1] && t[b] == ns[b - 1]);
        }
    }
}

} // verus!
