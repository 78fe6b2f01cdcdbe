//! Sets of logical keys.

use crate::reaction::InputKey;
use vstd::prelude::*;

verus! {

/// A set of logical keys.
#[derive(Clone, Debug)]
pub struct KeySet {
    keys: Vec<InputKey>,
}

impl View for KeySet {
    type V = Set<InputKey>;

    closed spec fn view(&self) -> Set<InputKey> {
        self.keys@.to_set()
    }
}

impl KeySet {
    /// No key is held twice.
    pub closed spec fn wf(&self) -> bool {
        self.keys@.no_duplicates()
    }

    /// The keys in the order in which `to_vec` hands them out.
    pub closed spec fn order(&self) -> Seq<InputKey> {
        self.keys@
    }

    /// The order holds every key of the set once.
    pub proof fn lemma_order(&self)
        requires
            self.wf(),
        ensures
            self.order().no_duplicates(),
            self.order().to_set() == self@,
            self.order().len() == self@.len(),
            self@.finite(),
    {
        self.keys@.unique_seq_to_set();
        vstd::seq_lib::seq_to_set_is_finite(self.keys@);
    }

    pub fn new() -> (s: Self)
        ensures
            s.wf(),
            s@ == Set::<InputKey>::empty(),
            s.order() == Seq::<InputKey>::empty(),
    {
        let s = KeySet { keys: Vec::new() };
        assert(s.keys@.to_set() =~= Set::<InputKey>::empty());
        s
    }

    pub fn len(&self) -> (n: usize)
        requires
            self.wf(),
        ensures
            n == self@.len(),
            n == self.order().len(),
    {
        proof {
            self.keys@.unique_seq_to_set();
        }
        self.keys.len()
    }

    pub fn is_empty(&self) -> (b: bool)
        requires
            self.wf(),
        ensures
            b == (self@.len() == 0),
    {
        proof {
            self.keys@.unique_seq_to_set();
        }
        self.keys.len() == 0
    }

    pub fn contains(&self, key: InputKey) -> (b: bool)
        ensures
            b == self@.contains(key),
    {
        let mut i: usize = 0;
        while i < self.keys.len()
            invariant
                i <= self.keys.len(),
                forall|j: int| 0 <= j < i ==> self.keys@[j] != key,
            decreases self.keys.len() - i,
        {
            if self.keys[i] == key {
                return true;
            }
            i += 1;
        }
        false
    }

    /// Adds a key; a key that is already held is not added again.
    pub fn insert(&mut self, key: InputKey)
        requires
            old(self).wf(),
        ensures
            final(self).wf(),
            final(self)@ == old(self)@.insert(key),
            final(self).order() == (if old(self)@.contains(key) {
                old(self).order()
            } else {
                old(self).order().push(key)
            }),
    {
        if !self.contains(key) {
            proof {
                old(self).keys@.lemma_push_to_set_commute(key);
            }
            self.keys.push(key);
        } else {
            assert(old(self)@.insert(key) =~= old(self)@);
        }
    }

    /// The keys of the set, each once.
    pub fn to_vec(&self) -> (v: Vec<InputKey>)
        requires
            self.wf(),
        ensures
            v@ == self.order(),
    {
        let mut v: Vec<InputKey> = Vec::new();
        let mut i: usize = 0;
        while i < self.keys.len()
            invariant
                i <= self.keys.len(),
                v@ == self.keys@.subrange(0, i as int),
            decreases self.keys.len() - i,
        {
            v.push(self.keys[i]);
            i += 1;
            assert(v@ =~= self.keys@.subrange(0, i as int));
        }
        assert(self.keys@.subrange(0, i as int) =~= self.keys@);
        v
    }

    /// The keys of this set that `other` does not hold, in this set's order.
    pub fn difference(&self, other: &KeySet) -> (d: KeySet)
        requires
            self.wf(),
        ensures
            d.wf(),
            d@ == self@.difference(other@),
            d.order() == self.order().filter(|k: InputKey| !other@.contains(k)),
    {
        let ghost keep = |k: InputKey| !other@.contains(k);
        let mut d = KeySet { keys: Vec::new() };
        let mut i: usize = 0;
        proof {
            assert(self.keys@.subrange(0, 0) =~= Seq::<InputKey>::empty());
            assert(Seq::<InputKey>::empty().filter(keep) =~= Seq::<InputKey>::empty());
        }
        while i < self.keys.len()
            invariant
                i <= self.keys.len(),
                keep == |k: InputKey| !other@.contains(k),
                d.keys@ == self.keys@.subrange(0, i as int).filter(keep),
            decreases self.keys.len() - i,
        {
            let key = self.keys[i];
            proof {
                let before = self.keys@.subrange(0, i as int);
                assert(self.keys@.subrange(0, i + 1) =~= before.push(key));
                before.lemma_filter_push(key, keep);
            }
            if !other.contains(key) {
                d.keys.push(key);
            }
            i += 1;
        }
        proof {
            assert(self.keys@.subrange(0, i as int) =~= self.keys@);
            lemma_filter_keeps_order(self.keys@, keep);
            assert(d.keys@.to_set() =~= self.keys@.to_set().difference(other@));
        }
        d
    }
}

/// Filtering a sequence that holds nothing twice gives one that holds
/// nothing twice, and it holds what passed the test.
proof fn lemma_filter_keeps_order(s: Seq<InputKey>, keep: spec_fn(InputKey) -> bool)
    requires
        s.no_duplicates(),
    ensures
        s.filter(keep).no_duplicates(),
        forall|k: InputKey| s.filter(keep).contains(k) <==> s.contains(k) && keep(k),
    decreases s.len(),
{
    reveal(Seq::filter);
    if s.len() > 0 {
        let front = s.drop_last();
        lemma_filter_keeps_order(front, keep);
        front.lemma_filter_push(s.last(), keep);
        assert(front.push(s.last()) =~= s);
        assert forall|k: InputKey| s.filter(keep).contains(k) <==> s.contains(k) && keep(k) by {
            if s.contains(k) && k != s.last() {
                let j = choose|j: int| 0 <= j < s.len() && s[j] == k;
                assert(front[j] == k);
            }
            if front.contains(k) {
                let j = choose|j: int| 0 <= j < front.len() && front[j] == k;
                assert(s[j] == k);
            }
            if keep(s.last()) {
                let f = front.filter(keep);
                assert(f.push(s.last())[f.len() as int] == s.last());
                if f.push(s.last()).contains(k) {
                    let j = choose|j: int| 0 <= j < f.len() + 1 && f.push(s.last())[j] == k;
                    if j < f.len() {
                        assert(f[j] == k);
                    }
                }
                if f.contains(k) {
                    let j = choose|j: int| 0 <= j < f.len() && f[j] == k;
                    assert(f.push(s.last())[j] == k);
                }
            }
        }
        if keep(s.last()) {
            let f = front.filter(keep);
            if f.contains(s.last()) {
                assert(front.contains(s.last()));
                let j = choose|j: int| 0 <= j < front.len() && front[j] == s.last();
                assert(s[j] == s[s.len() - 1]);
            }
            assert forall|i: int, j: int|
                0 <= i < f.len() + 1 && 0 <= j < f.len() + 1 && i != j implies f.push(s.last())[i]
                != f.push(s.last())[j] by {
                if i < f.len() {
                    assert(f.contains(f[i]));
                }
                if j < f.len() {
                    assert(f.contains(f[j]));
                }
            }
        }
    }
}

impl KeySet {
    /// Adds `key` if `on` holds.
    pub fn insert_if(&mut self, on: bool, key: InputKey)
        requires
            old(self).wf(),
        ensures
            final(self).wf(),
            final(self)@ == (if on {
                old(self)@.insert(key)
            } else {
                old(self)@
            }),
    {
        if on {
            self.insert(key);
        }
    }
}

} // verus!
