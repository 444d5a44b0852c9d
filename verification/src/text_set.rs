//! Sets of strings.
use vstd::prelude::*;

use crate::text::texts;

verus! {

/// A set of strings that remembers in which order they came.
#[derive(Debug, PartialEq)]
pub struct TextSet {
    items: Vec<String>,
}

impl View for TextSet {
    type V = Set<Seq<char>>;

    closed spec fn view(&self) -> Set<Seq<char>> {
        texts(self.items@).to_set()
    }
}

impl TextSet {
    /// Nothing occurs twice.
    #[verifier::type_invariant]
    spec fn well_formed(self) -> bool {
        texts(self.items@).no_duplicates()
    }

    /// A set without members.
    pub fn new() -> (r: TextSet)
        ensures
            r@ == Set::<Seq<char>>::empty(),
    {
        let r = TextSet { items: Vec::new() };
        assert(r@ =~= Set::<Seq<char>>::empty());
        r
    }

    /// Tells how many members the set has.
    pub fn len(&self) -> (r: usize)
        ensures
            r == self@.len(),
            self@.finite(),
    {
        proof {
            use_type_invariant(self);
            texts(self.items@).unique_seq_to_set();
            vstd::seq_lib::seq_to_set_is_finite(texts(self.items@));
        }
        self.items.len()
    }

    /// Tells whether a string is a member.
    pub fn contains(&self, text: &String) -> (r: bool)
        ensures
            r == self@.contains(text@),
    {
        let mut i: usize = 0;
        while i < self.items.len()
            invariant
                i <= self.items.len(),
                forall|k: int| 0 <= k < i ==> (#[trigger] self.items[k])@ != text@,
            decreases self.items.len() - i,
        {
            if self.items[i] == *text {
                assert(texts(self.items@)[i as int] == text@);
                return true;
            }
            i += 1;
        }
        assert forall|k: int| 0 <= k < texts(self.items@).len() implies texts(self.items@)[k]
            != text@ by {
            assert(self.items[k]@ != text@);
        }
        false
    }

    /// Adds a member.
    pub fn insert(&mut self, text: String)
        ensures
            final(self)@ == old(self)@.insert(text@),
    {
        if !self.contains(&text) {
            proof {
                use_type_invariant(&*self);
            }
            let ghost before = texts(self.items@);
            let ghost added = text@;
            let mut items: Vec<String> = Vec::new();
            std::mem::swap(&mut items, &mut self.items);
            items.push(text);
            assert(texts(items@) =~= before.push(added));
            assert forall|k: int| 0 <= k < before.len() implies before[k] != added by {
                assert(before.to_set().contains(before[k]));
            }
            self.items = items;
            assert(before.push(added).to_set() =~= before.to_set().insert(added)) by {
                assert(before.push(added)[before.len() as int] == added);
                assert forall|x: Seq<char>| before.to_set().contains(x) implies before.push(
                    added,
                ).to_set().contains(x) by {
                    let k = choose|k: int| 0 <= k < before.len() && before[k] == x;
                    assert(before.push(added)[k] == x);
                }
            }
        } else {
            assert(self@.insert(text@) =~= self@);
        }
    }

    /// Adds the members of another set.
    pub fn extend(&mut self, other: &TextSet)
        ensures
            final(self)@ == old(self)@.union(other@),
    {
        let mut i: usize = 0;
        let ghost before = self@;
        assert(texts(other.items@).take(0).to_set() =~= Set::<Seq<char>>::empty());
        assert(before.union(Set::<Seq<char>>::empty()) =~= before);
        while i < other.items.len()
            invariant
                i <= other.items.len(),
                self@ == before.union(texts(other.items@).take(i as int).to_set()),
            decreases other.items.len() - i,
        {
            self.insert(other.items[i].clone());
            proof {
                let all = texts(other.items@);
                let head = all.take(i as int);
                assert(all.take(i + 1) =~= head.push(all[i as int]));
                assert(head.push(all[i as int]).to_set() =~= head.to_set().insert(
                    all[i as int],
                )) by {
                    assert(head.push(all[i as int])[head.len() as int] == all[i as int]);
                    assert forall|x: Seq<char>| head.to_set().contains(x) implies head.push(
                        all[i as int],
                    ).to_set().contains(x) by {
                        let k = choose|k: int| 0 <= k < head.len() && head[k] == x;
                        assert(head.push(all[i as int])[k] == x);
                    }
                }
                assert(before.union(head.to_set()).insert(all[i as int]) =~= before.union(
                    all.take(i + 1).to_set(),
                ));
            }
            i += 1;
        }
        assert(texts(other.items@).take(other.items@.len() as int) =~= texts(other.items@));
    }

    /// Removes all members.
    pub fn clear(&mut self)
        ensures
            final(self)@ == Set::<Seq<char>>::empty(),
    {
        self.items = Vec::new();
        assert(self@ =~= Set::<Seq<char>>::empty());
    }

    /// Makes a copy of the set.
    pub fn duplicate(&self) -> (r: TextSet)
        ensures
            r@ == self@,
    {
        let mut r = TextSet::new();
        r.extend(self);
        assert(Set::<Seq<char>>::empty().union(self@) =~= self@);
        r
    }

    /// Lists the members, each once.
    pub fn to_vec(&self) -> (r: Vec<String>)
        ensures
            texts(r@).to_set() == self@,
            texts(r@).no_duplicates(),
    {
        proof {
            use_type_invariant(self);
        }
        let mut r: Vec<String> = Vec::new();
        let mut i: usize = 0;
        while i < self.items.len()
            invariant
                i <= self.items.len(),
                r.len() == i,
                forall|k: int| 0 <= k < i ==> (#[trigger] r[k])@ == self.items[k]@,
            decreases self.items.len() - i,
        {
            r.push(self.items[i].clone());
            i += 1;
        }
        assert(texts(r@) =~= texts(self.items@));
        r
    }
}

impl Default for TextSet {
    fn default() -> (r: TextSet)
        ensures
            r@ == Set::<Seq<char>>::empty(),
    {
        TextSet::new()
    }
}

} // verus!
