//! A finite set of strings, kept as a vector without repeated entries.
use vstd::prelude::*;

verus! {

broadcast use {Seq::lemma_push_map_commute, Seq::lemma_push_to_set_commute};

/// A set of strings. Its view is the set of the strings' character sequences; the vector that
/// holds them never holds the same text twice.
pub struct TextSet {
    items: Vec<String>,
}

pub open spec fn texts_of(v: Seq<String>) -> Seq<Seq<char>> {
    v.map_values(|s: String| s@)
}

impl TextSet {
    /// The stored texts, in insertion order.
    pub closed spec fn texts(self) -> Seq<Seq<char>> {
        texts_of(self.items@)
    }

    #[verifier::type_invariant]
    closed spec fn inv(self) -> bool {
        self.texts().no_duplicates()
    }

    pub closed spec fn view(self) -> Set<Seq<char>> {
        self.texts().to_set()
    }

    proof fn lemma_view(self)
        requires
            self.inv(),
        ensures
            self.view().finite(),
            self.view().len() == self.texts().len(),
            forall|t: Seq<char>| self.view().contains(t) <==> self.texts().contains(t),
            self.texts().no_duplicates(),
    {
        self.texts().unique_seq_to_set();
        vstd::seq_lib::seq_to_set_is_finite(self.texts());
    }

    /// The set is the set of its stored texts.
    pub proof fn lemma_texts_view(self)
        ensures
            self.view() == self.texts().to_set(),
    {
    }

    /// The empty set.
    pub fn new() -> (r: TextSet)
        ensures
            r.view() == Set::<Seq<char>>::empty(),
    {
        let r = TextSet { items: Vec::new() };
        assert(r.texts() =~= Seq::<Seq<char>>::empty());
        assert(r.view() =~= Set::<Seq<char>>::empty());
        r
    }

    /// The number of texts in the set.
    pub fn len(&self) -> (n: usize)
        ensures
            n == self.view().len(),
            self.view().finite(),
    {
        proof {
            use_type_invariant(&*self);
            self.lemma_view();
        }
        self.items.len()
    }

    /// Whether `t` is in the set.
    pub fn contains(&self, t: &String) -> (b: bool)
        ensures
            b == self.view().contains(t@),
    {
        proof {
            use_type_invariant(&*self);
            self.lemma_view();
        }
        let mut i: usize = 0;
        while i < self.items.len()
            invariant
                i <= self.items.len(),
                forall|k: int| 0 <= k < i ==> self.texts()[k] != t@,
            decreases self.items.len() - i,
        {
            if self.items[i] == *t {
                assert(self.texts()[i as int] == t@);
                return true;
            }
            i = i + 1;
        }
        assert(!self.texts().contains(t@));
        false
    }

    /// Adds `t`; returns whether it was absent before.
    pub fn insert(&mut self, t: String) -> (added: bool)
        ensures
            final(self).view() == old(self).view().insert(t@),
            added == !old(self).view().contains(t@),
    {
        proof {
            use_type_invariant(&*self);
            self.lemma_view();
        }
        if self.contains(&t) {
            assert(self.view().insert(t@) =~= self.view());
            return false;
        }
        let ghost old_texts = self.texts();
        let mut items: Vec<String> = Vec::new();
        std::mem::swap(&mut items, &mut self.items);
        assert(texts_of(items@) == old_texts);
        items.push(t);
        proof {
            assert(texts_of(items@) =~= old_texts.push(t@));
            assert(!old_texts.contains(t@));
            let nt = texts_of(items@);
            assert forall|i: int, j: int|
                0 <= i < nt.len() && 0 <= j < nt.len() && i != j implies nt[i] != nt[j] by {
                if i < old_texts.len() && j < old_texts.len() {
                } else if i == old_texts.len() {
                    assert(old_texts.contains(old_texts[j]));
                } else {
                    assert(old_texts.contains(old_texts[i]));
                }
            }
        }
        self.items = items;
        assert(self.texts().to_set() =~= old_texts.to_set().insert(t@));
        true
    }

    /// The set of the given strings (later repeats are dropped).
    pub fn from_vec(v: Vec<String>) -> (r: TextSet)
        ensures
            r.view() == texts_of(v@).to_set(),
    {
        let mut r = TextSet::new();
        let mut i: usize = 0;
        while i < v.len()
            invariant
                i <= v.len(),
                r.view() == texts_of(v@.subrange(0, i as int)).to_set(),
            decreases v.len() - i,
        {
            let s = v[i].clone();
            r.insert(s);
            i = i + 1;
            assert(texts_of(v@.subrange(0, i as int)) =~= texts_of(v@.subrange(0, i - 1)).push(
                v@[i - 1]@,
            ));
            assert(r.view() =~= texts_of(v@.subrange(0, i as int)).to_set());
        }
        assert(v@.subrange(0, v.len() as int) =~= v@);
        r
    }

    /// The texts of the set, in the order in which they were added.
    pub fn to_vec(&self) -> (v: Vec<String>)
        ensures
            texts_of(v@) == self.texts(),
            texts_of(v@).no_duplicates(),
            texts_of(v@).to_set() == self.view(),
    {
        proof {
            use_type_invariant(&*self);
        }
        let mut v: Vec<String> = Vec::new();
        let mut i: usize = 0;
        while i < self.items.len()
            invariant
                i <= self.items.len(),
                texts_of(v@) == texts_of(self.items@.subrange(0, i as int)),
            decreases self.items.len() - i,
        {
            v.push(self.items[i].clone());
            i = i + 1;
            assert(texts_of(v@) =~= texts_of(self.items@.subrange(0, i as int)));
        }
        assert(self.items@.subrange(0, self.items.len() as int) =~= self.items@);
        v
    }
}

} // verus!
