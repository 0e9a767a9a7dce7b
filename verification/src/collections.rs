//! Verified set and map containers keyed by strings, backed by vectors
//! with a no-duplicate invariant. They model the hub's shared registries.

use vstd::prelude::*;

use crate::strutil::str_eq;

verus! {

/// The set of views of a sequence of strings.
pub open spec fn set_of_strings(s: Seq<String>) -> Set<Seq<char>>
    decreases s.len(),
{
    if s.len() == 0 {
        Set::empty()
    } else {
        set_of_strings(s.drop_last()).insert(s.last()@)
    }
}

pub proof fn lemma_set_of_strings_membership(s: Seq<String>, k: Seq<char>)
    ensures
        set_of_strings(s).contains(k) <==> exists|i: int| 0 <= i < s.len() && s[i]@ == k,
    decreases s.len(),
{
    if s.len() > 0 {
        lemma_set_of_strings_membership(s.drop_last(), k);
        if s.last()@ != k {
            if set_of_strings(s).contains(k) {
                let i = choose|i: int| 0 <= i < s.drop_last().len() && s.drop_last()[i]@ == k;
                assert(s[i]@ == k);
            }
            if exists|i: int| 0 <= i < s.len() && s[i]@ == k {
                let i = choose|i: int| 0 <= i < s.len() && s[i]@ == k;
                assert(s.drop_last()[i]@ == k);
            }
        }
    }
}

/// A set of strings, stored without duplicates.
pub struct StrSet {
    elems: Vec<String>,
}

impl StrSet {
    /// The abstract set of members.
    pub closed spec fn view(&self) -> Set<Seq<char>> {
        set_of_strings(self.elems@)
    }

    /// The members in insertion order.
    pub closed spec fn seq(&self) -> Seq<Seq<char>> {
        self.elems@.map_values(|e: String| e@)
    }

    /// No member occurs twice.
    pub closed spec fn wf(&self) -> bool {
        forall|i: int, j: int|
            0 <= i < j < self.elems@.len() ==> self.elems@[i]@ != self.elems@[j]@
    }

    pub fn new() -> (r: StrSet)
        ensures
            r@ == Set::<Seq<char>>::empty(),
            r.seq() == Seq::<Seq<char>>::empty(),
            r.wf(),
    {
        let r = StrSet { elems: Vec::new() };
        proof {
            assert(r.seq() =~= Seq::<Seq<char>>::empty());
        }
        r
    }

    pub fn contains(&self, k: &str) -> (r: bool)
        ensures
            r == self@.contains(k@),
    {
        let n = self.elems.len();
        for i in 0..n
            invariant
                n == self.elems@.len(),
                forall|j: int| 0 <= j < i ==> self.elems@[j]@ != k@,
        {
            if str_eq(self.elems[i].as_str(), k) {
                proof {
                    lemma_set_of_strings_membership(self.elems@, k@);
                    assert(self.elems@[i as int]@ == k@);
                }
                return true;
            }
        }
        proof {
            lemma_set_of_strings_membership(self.elems@, k@);
        }
        false
    }

    /// Insert a member; a present member is kept once.
    pub fn insert(&mut self, k: &str)
        requires
            old(self).wf(),
        ensures
            final(self)@ == old(self)@.insert(k@),
            final(self).wf(),
            old(self)@.contains(k@) ==> final(self).seq() == old(self).seq(),
            !old(self)@.contains(k@) ==> final(self).seq() == old(self).seq().push(k@),
    {
        if !self.contains(k) {
            let ghost pre = self.elems@;
            self.elems.push(k.to_owned());
            proof {
                assert(self.elems@.drop_last() =~= pre);
                assert(self.seq() =~= old(self).seq().push(k@));
                lemma_set_of_strings_membership(pre, k@);
                assert forall|i: int, j: int|
                    0 <= i < j < self.elems@.len() implies self.elems@[i]@ != self.elems@[j]@ by {
                    if j == self.elems@.len() - 1 {
                        assert(self.elems@[i]@ == pre[i]@);
                    }
                }
            }
        } else {
            proof {
                lemma_insert_present(self.elems@, k@);
            }
        }
    }

    /// Remove a member if present.
    pub fn remove(&mut self, k: &str)
        requires
            old(self).wf(),
        ensures
            final(self)@ == old(self)@.remove(k@),
            final(self).wf(),
    {
        let n = self.elems.len();
        for i in 0..n
            invariant
                n == self.elems@.len(),
                self.elems@ == old(self).elems@,
                self.wf(),
                forall|j: int| 0 <= j < i ==> self.elems@[j]@ != k@,
        {
            if str_eq(self.elems[i].as_str(), k) {
                let ghost pre = self.elems@;
                self.elems.remove(i);
                proof {
                    lemma_remove_at(pre, i as int, k@);
                }
                return ;
            }
        }
        proof {
            lemma_set_of_strings_membership(self.elems@, k@);
            assert(self@ =~= old(self)@.remove(k@));
        }
    }

    /// The number of members.
    pub fn len(&self) -> (r: usize)
        requires
            self.wf(),
        ensures
            r == self.seq().len(),
    {
        self.elems.len()
    }

    /// A copy of the members, in insertion order.
    pub fn to_vec(&self) -> (r: Vec<String>)
        ensures
            r@.map_values(|e: String| e@) == self.seq(),
            set_of_strings(r@) == self@,
            self.wf() ==> forall|p: int, q: int| 0 <= p < q < r@.len() ==> r@[p]@ != r@[q]@,
    {
        let mut out: Vec<String> = Vec::new();
        let n = self.elems.len();
        for i in 0..n
            invariant
                n == self.elems@.len(),
                out@.len() == i,
                forall|j: int| 0 <= j < i ==> out@[j]@ == self.elems@[j]@,
        {
            out.push(self.elems[i].clone());
        }
        proof {
            assert(out@.map_values(|e: String| e@) =~= self.seq());
            assert forall|x: Seq<char>|
                set_of_strings(out@).contains(x) == set_of_strings(self.elems@).contains(x) by {
                lemma_set_of_strings_membership(out@, x);
                lemma_set_of_strings_membership(self.elems@, x);
                if exists|i: int| 0 <= i < out@.len() && out@[i]@ == x {
                    let i = choose|i: int| 0 <= i < out@.len() && out@[i]@ == x;
                    assert(self.elems@[i]@ == x);
                }
                if exists|i: int| 0 <= i < self.elems@.len() && self.elems@[i]@ == x {
                    let i = choose|i: int| 0 <= i < self.elems@.len() && self.elems@[i]@ == x;
                    assert(out@[i]@ == x);
                }
            }
            assert(set_of_strings(out@) =~= set_of_strings(self.elems@));
        }
        out
    }
}

/// The abstract map described by an association list, later entries winning.
pub open spec fn map_of_pairs<V>(s: Seq<(String, V)>) -> Map<Seq<char>, V>
    decreases s.len(),
{
    if s.len() == 0 {
        Map::empty()
    } else {
        map_of_pairs(s.drop_last()).insert(s.last().0@, s.last().1)
    }
}

pub proof fn lemma_map_of_pairs_membership<V>(s: Seq<(String, V)>, k: Seq<char>)
    ensures
        map_of_pairs(s).contains_key(k) <==> exists|i: int| 0 <= i < s.len() && s[i].0@ == k,
    decreases s.len(),
{
    if s.len() > 0 {
        lemma_map_of_pairs_membership(s.drop_last(), k);
        if s.last().0@ != k {
            if map_of_pairs(s).contains_key(k) {
                let i = choose|i: int| 0 <= i < s.drop_last().len() && s.drop_last()[i].0@ == k;
                assert(s[i].0@ == k);
            }
            if exists|i: int| 0 <= i < s.len() && s[i].0@ == k {
                let i = choose|i: int| 0 <= i < s.len() && s[i].0@ == k;
                assert(s.drop_last()[i].0@ == k);
            }
        }
    }
}

/// In a duplicate-free association list the map agrees with every entry.
pub proof fn lemma_map_of_pairs_at<V>(s: Seq<(String, V)>, i: int)
    requires
        0 <= i < s.len(),
        forall|p: int, q: int| 0 <= p < q < s.len() ==> s[p].0@ != s[q].0@,
    ensures
        map_of_pairs(s).contains_key(s[i].0@),
        map_of_pairs(s)[s[i].0@] == s[i].1,
    decreases s.len(),
{
    if i == s.len() - 1 {
        lemma_map_of_pairs_membership(s, s[i].0@);
    } else {
        lemma_map_of_pairs_at(s.drop_last(), i);
        assert(s.drop_last()[i] == s[i]);
        assert(s.last().0@ != s[i].0@);
    }
}

/// A map from strings to values, stored as a duplicate-free association list.
pub struct StrMap<V> {
    pairs: Vec<(String, V)>,
}

impl<V> StrMap<V> {
    /// The abstract map.
    pub closed spec fn view(&self) -> Map<Seq<char>, V> {
        map_of_pairs(self.pairs@)
    }

    /// The entries in insertion order.
    pub closed spec fn seq(&self) -> Seq<(Seq<char>, V)> {
        self.pairs@.map_values(|p: (String, V)| (p.0@, p.1))
    }

    /// No key occurs twice.
    pub closed spec fn wf(&self) -> bool {
        forall|i: int, j: int|
            0 <= i < j < self.pairs@.len() ==> self.pairs@[i].0@ != self.pairs@[j].0@
    }

    /// Every stored entry agrees with the abstract map.
    pub proof fn lemma_entries(&self)
        requires
            self.wf(),
        ensures
            forall|i: int|
                0 <= i < self.seq().len() ==> #[trigger] self@.contains_key(self.seq()[i].0)
                    && self@[self.seq()[i].0] == self.seq()[i].1,
            forall|k: Seq<char>|
                #[trigger] self@.contains_key(k) ==> exists|i: int|
                    0 <= i < self.seq().len() && self.seq()[i].0 == k,
    {
        assert forall|i: int| 0 <= i < self.seq().len() implies #[trigger] self@.contains_key(
            self.seq()[i].0,
        ) && self@[self.seq()[i].0] == self.seq()[i].1 by {
            lemma_map_of_pairs_at(self.pairs@, i);
        }
        assert forall|k: Seq<char>| #[trigger] self@.contains_key(k) implies exists|i: int|
            0 <= i < self.seq().len() && self.seq()[i].0 == k by {
            lemma_map_of_pairs_membership(self.pairs@, k);
            let i = choose|i: int| 0 <= i < self.pairs@.len() && self.pairs@[i].0@ == k;
            assert(self.seq()[i].0 == k);
        }
    }

    pub fn new() -> (r: StrMap<V>)
        ensures
            r@ == Map::<Seq<char>, V>::empty(),
            r.seq() == Seq::<(Seq<char>, V)>::empty(),
            r.wf(),
    {
        let r = StrMap { pairs: Vec::new() };
        proof {
            assert(r.seq() =~= Seq::<(Seq<char>, V)>::empty());
        }
        r
    }

    pub fn contains_key(&self, k: &str) -> (r: bool)
        ensures
            r == self@.contains_key(k@),
    {
        let n = self.pairs.len();
        for i in 0..n
            invariant
                n == self.pairs@.len(),
                forall|j: int| 0 <= j < i ==> self.pairs@[j].0@ != k@,
        {
            if str_eq(self.pairs[i].0.as_str(), k) {
                proof {
                    lemma_map_of_pairs_membership(self.pairs@, k@);
                    assert(self.pairs@[i as int].0@ == k@);
                }
                return true;
            }
        }
        proof {
            lemma_map_of_pairs_membership(self.pairs@, k@);
        }
        false
    }

    pub fn get(&self, k: &str) -> (r: Option<&V>)
        requires
            self.wf(),
        ensures
            match r {
                Some(v) => self@.contains_key(k@) && self@[k@] == *v,
                None => !self@.contains_key(k@),
            },
    {
        let n = self.pairs.len();
        for i in 0..n
            invariant
                n == self.pairs@.len(),
                self.wf(),
                forall|j: int| 0 <= j < i ==> self.pairs@[j].0@ != k@,
        {
            if str_eq(self.pairs[i].0.as_str(), k) {
                proof {
                    lemma_map_of_pairs_at(self.pairs@, i as int);
                }
                return Some(&self.pairs[i].1);
            }
        }
        proof {
            lemma_map_of_pairs_membership(self.pairs@, k@);
        }
        None
    }

    /// Insert or replace the value under a key.
    pub fn insert(&mut self, k: &str, v: V)
        requires
            old(self).wf(),
        ensures
            final(self)@ == old(self)@.insert(k@, v),
            final(self).wf(),
    {
        let n = self.pairs.len();
        for i in 0..n
            invariant
                n == self.pairs@.len(),
                self.pairs@ == old(self).pairs@,
                self.wf(),
                forall|j: int| 0 <= j < i ==> self.pairs@[j].0@ != k@,
        {
            if str_eq(self.pairs[i].0.as_str(), k) {
                let ghost pre = self.pairs@;
                let old_pair = self.pairs.remove(i);
                self.pairs.insert(i, (old_pair.0, v));
                proof {
                    lemma_pair_update(pre, i as int, k@, v, self.pairs@);
                }
                return ;
            }
        }
        let ghost pre = self.pairs@;
        self.pairs.push((k.to_owned(), v));
        proof {
            assert(self.pairs@.drop_last() =~= pre);
            assert forall|p: int, q: int|
                0 <= p < q < self.pairs@.len() implies self.pairs@[p].0@ != self.pairs@[q].0@ by {
                if q == self.pairs@.len() - 1 {
                    assert(self.pairs@[p].0@ == pre[p].0@);
                }
            }
        }
    }

    /// Remove the entry under a key, if present.
    pub fn remove(&mut self, k: &str)
        requires
            old(self).wf(),
        ensures
            final(self)@ == old(self)@.remove(k@),
            final(self).wf(),
    {
        let n = self.pairs.len();
        for i in 0..n
            invariant
                n == self.pairs@.len(),
                self.pairs@ == old(self).pairs@,
                self.wf(),
                forall|j: int| 0 <= j < i ==> self.pairs@[j].0@ != k@,
        {
            if str_eq(self.pairs[i].0.as_str(), k) {
                let ghost pre = self.pairs@;
                self.pairs.remove(i);
                proof {
                    lemma_remove_pair_at(pre, i as int, k@);
                }
                return ;
            }
        }
        proof {
            lemma_map_of_pairs_membership(self.pairs@, k@);
            assert(self@ =~= old(self)@.remove(k@));
        }
    }

    /// The number of entries.
    pub fn len(&self) -> (r: usize)
        ensures
            r == self.seq().len(),
    {
        self.pairs.len()
    }

    /// The key of the entry at a position.
    pub fn key_at(&self, i: usize) -> (r: &String)
        requires
            i < self.seq().len(),
        ensures
            r@ == self.seq()[i as int].0,
    {
        &self.pairs[i].0
    }

    /// The value of the entry at a position.
    pub fn value_at(&self, i: usize) -> (r: &V)
        requires
            i < self.seq().len(),
        ensures
            *r == self.seq()[i as int].1,
    {
        &self.pairs[i].1
    }
}

/// Replacing the value at the unique position of a key updates the map.
pub proof fn lemma_pair_update<V>(
    pre: Seq<(String, V)>,
    i: int,
    k: Seq<char>,
    v: V,
    post: Seq<(String, V)>,
)
    requires
        0 <= i < pre.len(),
        pre[i].0@ == k,
        forall|p: int, q: int| 0 <= p < q < pre.len() ==> pre[p].0@ != pre[q].0@,
        post.len() == pre.len(),
        post[i].0@ == k,
        post[i].1 == v,
        forall|j: int| 0 <= j < pre.len() && j != i ==> post[j] == pre[j],
    ensures
        map_of_pairs(post) == map_of_pairs(pre).insert(k, v),
        forall|p: int, q: int| 0 <= p < q < post.len() ==> post[p].0@ != post[q].0@,
    decreases pre.len(),
{
    assert forall|p: int, q: int| 0 <= p < q < post.len() implies post[p].0@ != post[q].0@ by {
        assert(post[p].0@ == pre[p].0@);
        assert(post[q].0@ == pre[q].0@);
    }
    assert forall|x: Seq<char>|
        map_of_pairs(post).contains_key(x) == map_of_pairs(pre).insert(k, v).contains_key(x) by {
        lemma_map_of_pairs_membership(post, x);
        lemma_map_of_pairs_membership(pre, x);
        assert forall|j: int| 0 <= j < pre.len() implies post[j].0@ == pre[j].0@ by {}
    }
    assert forall|x: Seq<char>| map_of_pairs(post).contains_key(x) implies map_of_pairs(post)[x]
        == map_of_pairs(pre).insert(k, v)[x] by {
        lemma_map_of_pairs_membership(post, x);
        let j = choose|j: int| 0 <= j < post.len() && post[j].0@ == x;
        lemma_map_of_pairs_at(post, j);
        if j == i {
            assert(map_of_pairs(post)[x] == v);
        } else {
            lemma_map_of_pairs_at(pre, j);
            assert(x != k);
        }
    }
    assert(map_of_pairs(post) =~= map_of_pairs(pre).insert(k, v));
}

/// Removing the unique occurrence of a key removes it from the map.
proof fn lemma_remove_pair_at<V>(s: Seq<(String, V)>, i: int, k: Seq<char>)
    requires
        0 <= i < s.len(),
        s[i].0@ == k,
        forall|p: int, q: int| 0 <= p < q < s.len() ==> s[p].0@ != s[q].0@,
    ensures
        map_of_pairs(s.remove(i)) == map_of_pairs(s).remove(k),
        forall|p: int, q: int|
            0 <= p < q < s.remove(i).len() ==> s.remove(i)[p].0@ != s.remove(i)[q].0@,
{
    let t = s.remove(i);
    assert forall|x: Seq<char>|
        map_of_pairs(t).contains_key(x) == map_of_pairs(s).remove(k).contains_key(x) by {
        lemma_map_of_pairs_membership(t, x);
        lemma_map_of_pairs_membership(s, x);
        if map_of_pairs(t).contains_key(x) {
            let p = choose|p: int| 0 <= p < t.len() && t[p].0@ == x;
            if p < i {
                assert(s[p].0@ == x);
            } else {
                assert(s[p + 1].0@ == x);
            }
        }
        if map_of_pairs(s).remove(k).contains_key(x) {
            let p = choose|p: int| 0 <= p < s.len() && s[p].0@ == x;
            assert(x != k);
            if p < i {
                assert(t[p].0@ == x);
            } else {
                assert(p != i);
                assert(t[p - 1].0@ == x);
            }
        }
    }
    assert forall|x: Seq<char>| map_of_pairs(t).contains_key(x) implies map_of_pairs(t)[x]
        == map_of_pairs(s).remove(k)[x] by {
        lemma_map_of_pairs_membership(t, x);
        let p = choose|p: int| 0 <= p < t.len() && t[p].0@ == x;
        lemma_map_of_pairs_at(t, p);
        if p < i {
            lemma_map_of_pairs_at(s, p);
        } else {
            lemma_map_of_pairs_at(s, p + 1);
        }
        assert(x != k);
    }
    assert(map_of_pairs(t) =~= map_of_pairs(s).remove(k));
}

/// Inserting a key already in the set leaves the set unchanged.
proof fn lemma_insert_present(s: Seq<String>, k: Seq<char>)
    requires
        set_of_strings(s).contains(k),
    ensures
        set_of_strings(s).insert(k) == set_of_strings(s),
{
    assert(set_of_strings(s).insert(k) =~= set_of_strings(s));
}

/// Removing the single occurrence of a key from a duplicate-free sequence
/// removes exactly that key from the abstract set.
proof fn lemma_remove_at(s: Seq<String>, i: int, k: Seq<char>)
    requires
        0 <= i < s.len(),
        s[i]@ == k,
        forall|p: int, q: int| 0 <= p < q < s.len() ==> s[p]@ != s[q]@,
    ensures
        set_of_strings(s.remove(i)) == set_of_strings(s).remove(k),
        forall|p: int, q: int|
            0 <= p < q < s.remove(i).len() ==> s.remove(i)[p]@ != s.remove(i)[q]@,
{
    let t = s.remove(i);
    assert forall|x: Seq<char>| set_of_strings(t).contains(x) == set_of_strings(s).remove(
        k,
    ).contains(x) by {
        lemma_set_of_strings_membership(t, x);
        lemma_set_of_strings_membership(s, x);
        if set_of_strings(t).contains(x) {
            let p = choose|p: int| 0 <= p < t.len() && t[p]@ == x;
            if p < i {
                assert(s[p]@ == x);
            } else {
                assert(s[p + 1]@ == x);
            }
        }
        if set_of_strings(s).remove(k).contains(x) {
            let p = choose|p: int| 0 <= p < s.len() && s[p]@ == x;
            assert(x != k);
            if p < i {
                assert(t[p]@ == x);
            } else {
                assert(p != i);
                assert(t[p - 1]@ == x);
            }
        }
    }
    assert(set_of_strings(t) =~= set_of_strings(s).remove(k));
}

} // verus!
