//! The contract of the message store: ids assigned strictly increasing and
//! never reused, and history pages of the largest ids below a cursor,
//! returned in chronological order.

use vstd::prelude::*;

verus! {

/// Query parameters of a history request.
pub struct HistoryParams {
    pub channel: String,
    pub before: Option<i64>,
}

/// The reference model of the message store for one channel: rows in
/// insertion order with strictly increasing positive ids.
pub struct MessageLog {
    rows: Vec<(i64, String)>,
    next_id: i64,
}

impl MessageLog {
    /// The stored rows, oldest first.
    pub closed spec fn rows_seq(&self) -> Seq<(i64, String)> {
        self.rows@
    }

    /// The next id to assign.
    pub closed spec fn spec_next_id(&self) -> i64 {
        self.next_id
    }

    /// Ids are positive, strictly increasing, and below `next_id`.
    pub open spec fn wf(&self) -> bool {
        &&& self.spec_next_id() >= 1
        &&& forall|i: int| 0 <= i < self.rows_seq().len() ==> (#[trigger] self.rows_seq()[i].0) >= 1
        &&& forall|i: int|
            0 <= i < self.rows_seq().len() ==> (#[trigger] self.rows_seq()[i].0)
                < self.spec_next_id()
        &&& forall|i: int, j: int|
            0 <= i < j < self.rows_seq().len() ==> self.rows_seq()[i].0 < self.rows_seq()[j].0
    }

    /// Whether some row has this id.
    pub open spec fn has_id(&self, id: i64) -> bool {
        exists|i: int| 0 <= i < self.rows_seq().len() && self.rows_seq()[i].0 == id
    }

    pub fn new() -> (r: MessageLog)
        ensures
            r.wf(),
            r.rows_seq().len() == 0,
            r.spec_next_id() == 1,
    {
        MessageLog { rows: Vec::new(), next_id: 1 }
    }

    /// The number of stored rows.
    pub fn len(&self) -> (r: usize)
        ensures
            r == self.rows_seq().len(),
    {
        self.rows.len()
    }

    /// Store a message and return its assigned id.
    ///
    /// The id is strictly positive and matches exactly one stored row.
    pub fn insert(&mut self, content: String) -> (id: i64)
        requires
            old(self).wf(),
            old(self).spec_next_id() < i64::MAX,
        ensures
            final(self).wf(),
            id >= 1,
            id == old(self).spec_next_id(),
            final(self).rows_seq() == old(self).rows_seq().push((id, content)),
            final(self).has_id(id),
            !old(self).has_id(id),
            final(self).spec_next_id() == id + 1,
    {
        let id = self.next_id;
        self.rows.push((id, content));
        self.next_id = self.next_id + 1;
        proof {
            assert(self.rows_seq()[self.rows_seq().len() - 1].0 == id);
            assert forall|a: int|
                0 <= a < self.rows_seq().len() implies (#[trigger] self.rows_seq()[a].0) >= 1
                    && self.rows_seq()[a].0 < self.spec_next_id() by {
                if a < self.rows_seq().len() - 1 {
                    assert(self.rows_seq()[a] == old(self).rows_seq()[a]);
                }
            }
            assert forall|a: int, b: int|
                0 <= a < b < self.rows_seq().len() implies self.rows_seq()[a].0
                    < self.rows_seq()[b].0 by {
                assert(self.rows_seq()[a] == old(self).rows_seq()[a]);
                if b < self.rows_seq().len() - 1 {
                    assert(self.rows_seq()[b] == old(self).rows_seq()[b]);
                }
            }
            if old(self).has_id(id) {
                let w = choose|w: int|
                    0 <= w < old(self).rows_seq().len() && old(self).rows_seq()[w].0 == id;
                assert(false);
            }
        }
        id
    }

    /// Two rows with the same id are the same row.
    pub proof fn lemma_id_unique(&self, i: int, j: int)
        requires
            self.wf(),
            0 <= i < self.rows_seq().len(),
            0 <= j < self.rows_seq().len(),
            self.rows_seq()[i].0 == self.rows_seq()[j].0,
        ensures
            i == j,
    {
    }

    /// Delete the row with this id, if present; reports whether one existed.
    pub fn delete(&mut self, id: i64) -> (existed: bool)
        requires
            old(self).wf(),
        ensures
            final(self).wf(),
            existed == old(self).has_id(id),
            !final(self).has_id(id),
            final(self).spec_next_id() == old(self).spec_next_id(),
            existed ==> final(self).rows_seq() == old(self).rows_seq().remove(
                old(self).id_index(id),
            ),
            !existed ==> final(self).rows_seq() == old(self).rows_seq(),
    {
        let n = self.rows.len();
        for i in 0..n
            invariant
                self.rows@ == old(self).rows@,
                self.next_id == old(self).next_id,
                old(self).wf(),
                n == self.rows@.len(),
                forall|j: int| 0 <= j < i ==> self.rows@[j].0 != id,
        {
            if self.rows[i].0 == id {
                let ghost pre = self.rows@;
                self.rows.remove(i);
                proof {
                    assert(old(self).rows_seq()[i as int].0 == id);
                    assert(old(self).has_id(id));
                    old(self).lemma_id_unique(old(self).id_index(id), i as int);
                    assert forall|a: int, b: int|
                        0 <= a < b < self.rows@.len() implies self.rows@[a].0 < self.rows@[b].0 by {
                        let a0: int = if a < i {
                            a
                        } else {
                            a + 1
                        };
                        let b0: int = if b < i {
                            b
                        } else {
                            b + 1
                        };
                        assert(self.rows@[a] == pre[a0] && self.rows@[b] == pre[b0]);
                    }
                    assert forall|a: int|
                        0 <= a < self.rows@.len() implies (#[trigger] self.rows@[a].0) >= 1
                            && self.rows@[a].0 < self.next_id by {
                        let a0: int = if a < i {
                            a
                        } else {
                            a + 1
                        };
                        assert(self.rows@[a] == pre[a0]);
                    }
                    if self.has_id(id) {
                        let j = choose|j: int|
                            0 <= j < self.rows@.len() && self.rows@[j].0 == id;
                        let j0: int = if j < i {
                            j
                        } else {
                            j + 1
                        };
                        assert(pre[j0].0 == id);
                        old(self).lemma_id_unique(j0, i as int);
                        assert(false);
                    }
                }
                return true;
            }
        }
        proof {
            if old(self).has_id(id) {
                let j = choose|j: int|
                    0 <= j < old(self).rows_seq().len() && old(self).rows_seq()[j].0 == id;
                assert(self.rows@[j].0 == id);
                assert(false);
            }
        }
        false
    }

    /// The index of the row with this id; meaningful when it exists.
    pub open spec fn id_index(&self, id: i64) -> int {
        choose|i: int| 0 <= i < self.rows_seq().len() && self.rows_seq()[i].0 == id
    }

    /// The content of the row with this id, if present.
    pub fn get(&self, id: i64) -> (r: Option<&String>)
        requires
            self.wf(),
        ensures
            match r {
                Some(c) => self.has_id(id) && *c == self.rows_seq()[self.id_index(id)].1,
                None => !self.has_id(id),
            },
    {
        let n = self.rows.len();
        for i in 0..n
            invariant
                self.wf(),
                n == self.rows@.len(),
                forall|j: int| 0 <= j < i ==> self.rows@[j].0 != id,
        {
            if self.rows[i].0 == id {
                proof {
                    assert(self.rows_seq()[i as int].0 == id);
                    assert(self.has_id(id));
                    self.lemma_id_unique(self.id_index(id), i as int);
                }
                return Some(&self.rows[i].1);
            }
        }
        None
    }

    /// The page of the at most `limit` stored messages with the largest ids
    /// below the cursor, in chronological (ascending id) order.
    ///
    /// With no cursor the newest messages overall are returned. Every
    /// returned row is stored; a stored row below the cursor that is missing
    /// from the page only loses to `limit` rows with larger ids.
    pub fn page_chronological(&self, before: Option<i64>, limit: usize) -> (r: Vec<(i64, String)>)
        requires
            self.wf(),
        ensures
            r@.len() <= limit,
            forall|p: int, q: int| 0 <= p < q < r@.len() ==> r@[p].0 < r@[q].0,
            forall|p: int|
                #![trigger r@[p]]
                0 <= p < r@.len() ==> (exists|i: int|
                    0 <= i < self.rows_seq().len() && self.rows_seq()[i] == r@[p]) && (match before {
                    Some(b) => r@[p].0 < b,
                    None => true,
                }),
            forall|i: int|
                #![trigger self.rows_seq()[i]]
                0 <= i < self.rows_seq().len() && (match before {
                    Some(b) => self.rows_seq()[i].0 < b,
                    None => true,
                }) && !(exists|p: int| 0 <= p < r@.len() && r@[p] == self.rows_seq()[i]) ==> r@.len()
                    == limit && (r@.len() > 0 ==> self.rows_seq()[i].0 < r@[0].0),
    {
        let n = self.rows.len();
        // Rows below the cursor form a prefix, since ids ascend.
        let k: usize = match before {
            Some(b) => {
                let mut k: usize = 0;
                while k < n && self.rows[k].0 < b
                    invariant
                        self.wf(),
                        n == self.rows_seq().len(),
                        0 <= k <= n,
                        forall|j: int| 0 <= j < k ==> (#[trigger] self.rows_seq()[j].0) < b,
                    decreases n - k,
                {
                    k = k + 1;
                }
                proof {
                    assert forall|j: int|
                        k <= j < n implies (#[trigger] self.rows_seq()[j].0) >= b by {
                        if j > k as int {
                            assert(self.rows_seq()[k as int].0 < self.rows_seq()[j].0);
                        }
                    }
                }
                k
            },
            None => n,
        };
        let start: usize = if k > limit {
            k - limit
        } else {
            0
        };
        let mut out: Vec<(i64, String)> = Vec::new();
        let mut q: usize = start;
        while q < k
            invariant
                self.wf(),
                n == self.rows_seq().len(),
                0 <= start <= q <= k <= n,
                out@.len() == q - start,
                forall|p: int|
                    0 <= p < out@.len() ==> out@[p] == self.rows_seq()[start + p],
            decreases k - q,
        {
            out.push((self.rows[q].0, self.rows[q].1.clone()));
            q = q + 1;
        }
        proof {
            assert forall|p: int, q2: int| 0 <= p < q2 < out@.len() implies out@[p].0
                < out@[q2].0 by {
                assert(self.rows_seq()[start + p].0 < self.rows_seq()[start + q2].0);
            }
            assert forall|p: int|
                #![trigger out@[p]]
                0 <= p < out@.len() implies (exists|i: int|
                0 <= i < self.rows_seq().len() && self.rows_seq()[i] == out@[p]) && (match before {
                Some(b) => out@[p].0 < b,
                None => true,
            }) by {
                assert(self.rows_seq()[start + p] == out@[p]);
            }
            assert forall|i: int|
                #![trigger self.rows_seq()[i]]
                0 <= i < self.rows_seq().len() && (match before {
                    Some(b) => self.rows_seq()[i].0 < b,
                    None => true,
                }) && !(exists|p: int| 0 <= p < out@.len() && out@[p] == self.rows_seq()[i])
                implies out@.len() == limit && (out@.len() > 0 ==> self.rows_seq()[i].0
                < out@[0].0) by {
                // A wanted row lies below k; one at or past `start` is in the
                // page, so a missing one lies below `start`.
                assert(i < k as int);
                if i >= start as int {
                    assert(out@[i - start] == self.rows_seq()[i]);
                    assert(false);
                }
                assert(start > 0);
                assert(out@.len() == limit);
                if out@.len() > 0 {
                    assert(out@[0] == self.rows_seq()[start as int]);
                    assert(self.rows_seq()[i].0 < self.rows_seq()[start as int].0);
                }
            }
        }
        out
    }
}


/// Reverse a newest-first page into chronological order.
pub fn chronological_rows(rows: Vec<(i64, String)>) -> (r: Vec<(i64, String)>)
    ensures
        r@.len() == rows@.len(),
        forall|i: int| 0 <= i < r@.len() ==> r@[i] == rows@[rows@.len() - 1 - i],
{
    let n = rows.len();
    let mut out: Vec<(i64, String)> = Vec::new();
    let mut p = n;
    while p > 0
        invariant
            n == rows@.len(),
            0 <= p <= n,
            out@.len() == n - p,
            forall|i: int| 0 <= i < out@.len() ==> out@[i] == rows@[n - 1 - i],
        decreases p,
    {
        p = p - 1;
        out.push((rows[p].0, rows[p].1.clone()));
    }
    out
}

} // verus!
