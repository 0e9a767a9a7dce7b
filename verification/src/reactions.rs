//! Grouping of reaction rows into the summaries broadcast to clients:
//! for each emoji, the sorted, duplicate-free list of reacting users.

use vstd::prelude::*;

use crate::collections::{lemma_set_of_strings_membership, set_of_strings};
use crate::strutil::{lemma_seq_lt_total, lemma_seq_lt_trans, seq_lt, str_eq, str_lt};

verus! {

/// Strictly ascending in lexicographic order; in particular duplicate-free.
pub open spec fn strictly_sorted(s: Seq<String>) -> bool {
    forall|i: int, j: int| 0 <= i < j < s.len() ==> seq_lt(s[i]@, s[j]@)
}

/// The users that reacted with an emoji, per the given table rows.
pub open spec fn users_of(rows: Seq<(String, String)>, e: Seq<char>) -> Set<Seq<char>> {
    Set::new(|u: Seq<char>| exists|j: int| 0 <= j < rows.len() && rows[j].0@ == e && rows[j].1@ == u)
}

/// The emojis present in the given table rows.
pub open spec fn emojis_of(rows: Seq<(String, String)>) -> Set<Seq<char>> {
    Set::new(|e: Seq<char>| exists|j: int| 0 <= j < rows.len() && rows[j].0@ == e)
}

/// Insert a user into a sorted duplicate-free list, keeping it so.
fn insert_sorted_unique(v: &mut Vec<String>, user: &str)
    requires
        strictly_sorted(old(v)@),
    ensures
        strictly_sorted(final(v)@),
        set_of_strings(final(v)@) == set_of_strings(old(v)@).insert(user@),
{
    let n = v.len();
    let mut pos: usize = 0;
    while pos < n && str_lt(v[pos].as_str(), user)
        invariant
            v@ == old(v)@,
            n == v@.len(),
            0 <= pos <= n,
            forall|j: int| 0 <= j < pos ==> seq_lt(v@[j]@, user@),
        decreases n - pos,
    {
        pos = pos + 1;
    }
    if pos < n && str_eq(v[pos].as_str(), user) {
        proof {
            lemma_set_of_strings_membership(v@, user@);
            assert(v@[pos as int]@ == user@);
            assert(set_of_strings(v@).insert(user@) =~= set_of_strings(v@));
        }
        return ;
    }
    let ghost pre = v@;
    v.insert(pos, user.to_owned());
    proof {
        if pos < pre.len() {
            lemma_seq_lt_total(user@, pre[pos as int]@);
        }
        assert forall|i: int, j: int| 0 <= i < j < v@.len() implies seq_lt(v@[i]@, v@[j]@) by {
            let p = pos as int;
            if j < p {
                assert(v@[i]@ == pre[i]@ && v@[j]@ == pre[j]@);
            } else if j == p {
                assert(v@[i]@ == pre[i]@);
            } else if i < p {
                assert(v@[i]@ == pre[i]@ && v@[j]@ == pre[j - 1]@);
            } else if i == p {
                // user < pre[pos] <= pre[j-1]
                assert(v@[j]@ == pre[j - 1]@);
                if j - 1 > p {
                    lemma_seq_lt_trans(user@, pre[p]@, pre[j - 1]@);
                }
            } else {
                assert(v@[i]@ == pre[i - 1]@ && v@[j]@ == pre[j - 1]@);
            }
        }
        assert forall|x: Seq<char>|
            set_of_strings(v@).contains(x) == set_of_strings(pre).insert(user@).contains(x) by {
            lemma_set_of_strings_membership(v@, x);
            lemma_set_of_strings_membership(pre, x);
            if set_of_strings(v@).contains(x) {
                let i = choose|i: int| 0 <= i < v@.len() && v@[i]@ == x;
                if i < pos as int {
                    assert(pre[i]@ == x);
                } else if i > pos as int {
                    assert(pre[i - 1]@ == x);
                }
            }
            if x != user@ && set_of_strings(pre).contains(x) {
                let i = choose|i: int| 0 <= i < pre.len() && pre[i]@ == x;
                if i < pos as int {
                    assert(v@[i]@ == x);
                } else {
                    assert(v@[i + 1]@ == x);
                }
            }
            if x == user@ {
                assert(v@[pos as int]@ == x);
            }
        }
        assert(set_of_strings(v@) =~= set_of_strings(pre).insert(user@));
    }
}

/// One step of scanning the rows for an emoji's users.
proof fn lemma_users_step(rows: Seq<(String, String)>, j: int, e: Seq<char>)
    requires
        0 <= j < rows.len(),
    ensures
        rows[j].0@ == e ==> users_of(rows.subrange(0, j + 1), e) == users_of(
            rows.subrange(0, j),
            e,
        ).insert(rows[j].1@),
        rows[j].0@ != e ==> users_of(rows.subrange(0, j + 1), e) == users_of(
            rows.subrange(0, j),
            e,
        ),
{
    let a = rows.subrange(0, j);
    let b = rows.subrange(0, j + 1);
    if rows[j].0@ == e {
        assert forall|u: Seq<char>|
            users_of(b, e).contains(u) == users_of(a, e).insert(rows[j].1@).contains(u) by {
            if users_of(b, e).contains(u) {
                let p = choose|p: int| 0 <= p < b.len() && b[p].0@ == e && b[p].1@ == u;
                if p < j {
                    assert(a[p].0@ == e && a[p].1@ == u);
                }
            }
            if u != rows[j].1@ && users_of(a, e).contains(u) {
                let p = choose|p: int| 0 <= p < a.len() && a[p].0@ == e && a[p].1@ == u;
                assert(b[p].0@ == e && b[p].1@ == u);
            }
            if u == rows[j].1@ {
                assert(b[j].0@ == e && b[j].1@ == u);
            }
        }
        assert(users_of(b, e) =~= users_of(a, e).insert(rows[j].1@));
    } else {
        assert forall|u: Seq<char>| users_of(b, e).contains(u) == users_of(a, e).contains(u) by {
            if users_of(b, e).contains(u) {
                let p = choose|p: int| 0 <= p < b.len() && b[p].0@ == e && b[p].1@ == u;
                assert(p != j);
                assert(a[p].0@ == e && a[p].1@ == u);
            }
            if users_of(a, e).contains(u) {
                let p = choose|p: int| 0 <= p < a.len() && a[p].0@ == e && a[p].1@ == u;
                assert(b[p].0@ == e && b[p].1@ == u);
            }
        }
        assert(users_of(b, e) =~= users_of(a, e));
    }
}

/// The sorted, duplicate-free list of users that reacted with an emoji.
fn users_for(rows: &Vec<(String, String)>, e: &str) -> (r: Vec<String>)
    ensures
        strictly_sorted(r@),
        set_of_strings(r@) == users_of(rows@, e@),
{
    let mut out: Vec<String> = Vec::new();
    let n = rows.len();
    proof {
        assert(users_of(rows@.subrange(0, 0), e@) =~= Set::<Seq<char>>::empty());
    }
    for j in 0..n
        invariant
            n == rows@.len(),
            strictly_sorted(out@),
            set_of_strings(out@) == users_of(rows@.subrange(0, j as int), e@),
    {
        proof {
            lemma_users_step(rows@, j as int, e@);
        }
        if str_eq(rows[j].0.as_str(), e) {
            insert_sorted_unique(&mut out, rows[j].1.as_str());
        }
    }
    proof {
        assert(rows@.subrange(0, n as int) =~= rows@);
    }
    out
}

/// The emojis of the rows, first occurrence first, without duplicates.
fn emoji_list(rows: &Vec<(String, String)>) -> (r: Vec<String>)
    ensures
        forall|p: int, q: int| 0 <= p < q < r@.len() ==> r@[p]@ != r@[q]@,
        set_of_strings(r@) == emojis_of(rows@),
{
    let mut out: crate::collections::StrSet = crate::collections::StrSet::new();
    let n = rows.len();
    proof {
        assert(emojis_of(rows@.subrange(0, 0)) =~= Set::<Seq<char>>::empty());
    }
    for j in 0..n
        invariant
            n == rows@.len(),
            out.wf(),
            out@ == emojis_of(rows@.subrange(0, j as int)),
    {
        proof {
            let a = rows@.subrange(0, j as int);
            let b = rows@.subrange(0, j + 1);
            assert forall|x: Seq<char>|
                emojis_of(b).contains(x) == emojis_of(a).insert(rows@[j as int].0@).contains(
                    x,
                ) by {
                if emojis_of(b).contains(x) {
                    let p = choose|p: int| 0 <= p < b.len() && b[p].0@ == x;
                    if p < j as int {
                        assert(a[p].0@ == x);
                    }
                }
                if x != rows@[j as int].0@ && emojis_of(a).contains(x) {
                    let p = choose|p: int| 0 <= p < a.len() && a[p].0@ == x;
                    assert(b[p].0@ == x);
                }
                if x == rows@[j as int].0@ {
                    assert(b[j as int].0@ == x);
                }
            }
            assert(emojis_of(b) =~= emojis_of(a).insert(rows@[j as int].0@));
        }
        out.insert(rows[j].0.as_str());
    }
    proof {
        assert(rows@.subrange(0, n as int) =~= rows@);
    }
    let r = out.to_vec();
    proof {
        crate::collections::lemma_set_of_strings_membership(r@, Seq::<char>::empty());
    }
    let ghost rseq = r@;
    proof {
        assert forall|p: int, q: int| 0 <= p < q < rseq.len() implies rseq[p]@ != rseq[q]@ by {
            assert(rseq.map_values(|x: String| x@) =~= out.seq());
        }
    }
    r
}

/// The reaction summary of one message: for each emoji present in the rows,
/// the sorted duplicate-free list of users that reacted with it.
///
/// The `reaction-update` payload for a message equals this projection of
/// the reactions table.
pub fn get_reaction_summary(rows: &Vec<(String, String)>) -> (r: Vec<(String, Vec<String>)>)
    ensures
        forall|p: int, q: int| 0 <= p < q < r@.len() ==> r@[p].0@ != r@[q].0@,
        set_of_strings(r@.map_values(|x: (String, Vec<String>)| x.0)) == emojis_of(rows@),
        forall|p: int|
            0 <= p < r@.len() ==> strictly_sorted(r@[p].1@) && set_of_strings(r@[p].1@) == users_of(
                rows@,
                r@[p].0@,
            ),
{
    let emojis = emoji_list(rows);
    let mut out: Vec<(String, Vec<String>)> = Vec::new();
    let m = emojis.len();
    for p in 0..m
        invariant
            m == emojis@.len(),
            rows@ == rows@,
            forall|a: int, b: int| 0 <= a < b < emojis@.len() ==> emojis@[a]@ != emojis@[b]@,
            set_of_strings(emojis@) == emojis_of(rows@),
            out@.len() == p,
            forall|a: int| 0 <= a < p ==> out@[a].0@ == emojis@[a]@,
            forall|a: int|
                0 <= a < p ==> strictly_sorted(out@[a].1@) && set_of_strings(out@[a].1@)
                    == users_of(rows@, out@[a].0@),
    {
        let users = users_for(rows, emojis[p].as_str());
        out.push((emojis[p].clone(), users));
    }
    proof {
        assert forall|p: int, q: int| 0 <= p < q < out@.len() implies out@[p].0@ != out@[q].0@ by {
            assert(out@[p].0@ == emojis@[p]@ && out@[q].0@ == emojis@[q]@);
        }
        assert forall|x: Seq<char>|
            set_of_strings(out@.map_values(|y: (String, Vec<String>)| y.0)).contains(x)
                == set_of_strings(emojis@).contains(x) by {
            let mapped = out@.map_values(|y: (String, Vec<String>)| y.0);
            lemma_set_of_strings_membership(mapped, x);
            lemma_set_of_strings_membership(emojis@, x);
            if exists|i: int| 0 <= i < mapped.len() && mapped[i]@ == x {
                let i = choose|i: int| 0 <= i < mapped.len() && mapped[i]@ == x;
                assert(emojis@[i]@ == x);
            }
            if exists|i: int| 0 <= i < emojis@.len() && emojis@[i]@ == x {
                let i = choose|i: int| 0 <= i < emojis@.len() && emojis@[i]@ == x;
                assert(mapped[i]@ == x);
            }
        }
        assert(set_of_strings(out@.map_values(|y: (String, Vec<String>)| y.0)) =~= set_of_strings(
            emojis@,
        ));
    }
    out
}


/// The reaction pairs of one message among rows keyed by message id,
/// in stored order.
pub open spec fn pairs_for_id(rows: Seq<(i32, String, String)>, id: i32) -> Seq<(String, String)>
    decreases rows.len(),
{
    if rows.len() == 0 {
        Seq::empty()
    } else if rows.last().0 == id {
        pairs_for_id(rows.drop_last(), id).push((rows.last().1, rows.last().2))
    } else {
        pairs_for_id(rows.drop_last(), id)
    }
}

/// Select the (emoji, user) pairs of one message from rows fetched for
/// several messages.
pub fn rows_for_id(rows: &Vec<(i32, String, String)>, id: i32) -> (r: Vec<(String, String)>)
    ensures
        r@ == pairs_for_id(rows@, id),
{
    let mut out: Vec<(String, String)> = Vec::new();
    let n = rows.len();
    proof {
        assert(rows@.subrange(0, 0) =~= Seq::<(i32, String, String)>::empty());
    }
    for j in 0..n
        invariant
            n == rows@.len(),
            out@ == pairs_for_id(rows@.subrange(0, j as int), id),
    {
        proof {
            assert(rows@.subrange(0, j + 1).drop_last() =~= rows@.subrange(0, j as int));
        }
        if rows[j].0 == id {
            out.push((rows[j].1.clone(), rows[j].2.clone()));
            proof {
                assert(out@.last() == (rows@[j as int].1, rows@[j as int].2));
                assert(out@ =~= pairs_for_id(rows@.subrange(0, j + 1), id));
            }
        }
    }
    proof {
        assert(rows@.subrange(0, n as int) =~= rows@);
    }
    out
}

} // verus!
