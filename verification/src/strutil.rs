//! Small verified helpers on strings: equality, ASCII case folding and
//! whitespace trimming, shared by the validators and the dispatch logic.

use vstd::prelude::*;
use vstd::string::StrSliceExecFns;

verus! {

/// Fold an ASCII upper-case letter to lower case; other characters are kept.
/// The result is the character's code point.
pub open spec fn fold_char(c: char) -> u32 {
    if 65 <= c as u32 <= 90 {
        (c as u32 + 32) as u32
    } else {
        c as u32
    }
}

/// Two character sequences are equal up to ASCII case.
pub open spec fn eq_ignore_ascii_case(a: Seq<char>, b: Seq<char>) -> bool {
    a.len() == b.len() && forall|i: int| 0 <= i < a.len() ==> fold_char(a[i]) == fold_char(b[i])
}

/// Unicode white space, the set `str::trim` removes.
pub open spec fn is_space(c: char) -> bool {
    ('\u{9}' <= c && c <= '\u{D}') || c == ' ' || c == '\u{85}' || c == '\u{A0}' || c
        == '\u{1680}' || ('\u{2000}' <= c && c <= '\u{200A}') || c == '\u{2028}' || c
        == '\u{2029}' || c == '\u{202F}' || c == '\u{205F}' || c == '\u{3000}'
}

/// String equality on `&str`.
pub fn str_eq(a: &str, b: &str) -> (r: bool)
    ensures
        r == (a@ == b@),
{
    let sa = a.to_owned();
    let sb = b.to_owned();
    sa == sb
}

/// Case-insensitive ASCII comparison of two strings.
pub fn str_eq_ignore_ascii_case(a: &str, b: &str) -> (r: bool)
    ensures
        r == eq_ignore_ascii_case(a@, b@),
{
    let alen = a.unicode_len();
    let blen = b.unicode_len();
    if alen != blen {
        return false;
    }
    for i in 0..alen
        invariant
            alen == a@.len(),
            alen == b@.len(),
            forall|j: int| 0 <= j < i ==> fold_char(a@[j]) == fold_char(b@[j]),
    {
        let ca = a.get_char(i);
        let cb = b.get_char(i);
        let fa: u32 = if 65 <= ca as u32 && ca as u32 <= 90 {
            ca as u32 + 32
        } else {
            ca as u32
        };
        let fb: u32 = if 65 <= cb as u32 && cb as u32 <= 90 {
            cb as u32 + 32
        } else {
            cb as u32
        };
        if fa != fb {
            return false;
        }
    }
    true
}

/// The subrange of `s` left after dropping leading and trailing whitespace.
pub open spec fn trimmed(s: Seq<char>) -> Seq<char>
    decreases s.len(),
{
    if s.len() == 0 {
        s
    } else if is_space(s[0]) {
        trimmed(s.subrange(1, s.len() as int))
    } else if is_space(s[s.len() - 1]) {
        trimmed(s.subrange(0, s.len() - 1))
    } else {
        s
    }
}

/// A sequence is trim-stable when it is empty or starts and ends with
/// non-whitespace.
pub open spec fn trim_stable(s: Seq<char>) -> bool {
    s.len() == 0 || (!is_space(s[0]) && !is_space(s[s.len() - 1]))
}

pub proof fn lemma_trim_stable(s: Seq<char>)
    requires
        trim_stable(s),
    ensures
        trimmed(s) == s,
{
}

/// Whether the character at index `i` is whitespace.
fn space_at(s: &str, i: usize) -> (r: bool)
    requires
        i < s@.len(),
    ensures
        r == is_space(s@[i as int]),
{
    let c = s.get_char(i);
    ('\u{9}' <= c && c <= '\u{D}') || c == ' ' || c == '\u{85}' || c == '\u{A0}' || c
        == '\u{1680}' || ('\u{2000}' <= c && c <= '\u{200A}') || c == '\u{2028}' || c
        == '\u{2029}' || c == '\u{202F}' || c == '\u{205F}' || c == '\u{3000}'
}

/// Drop leading and trailing whitespace from a string.
pub fn trim_spaces(s: &str) -> (r: String)
    ensures
        r@ == trimmed(s@),
        trim_stable(r@),
{
    let len = s.unicode_len();
    let mut start: usize = 0;
    while start < len && space_at(s, start)
        invariant
            len == s@.len(),
            0 <= start <= len,
            forall|j: int| 0 <= j < start ==> is_space(s@[j]),
        decreases len - start,
    {
        start = start + 1;
    }
    let mut end: usize = len;
    while end > start && space_at(s, end - 1)
        invariant
            len == s@.len(),
            0 <= start <= end <= len,
            forall|j: int| end <= j < len ==> is_space(s@[j]),
        decreases end,
    {
        end = end - 1;
    }
    let out = s.substring_char(start, end);
    proof {
        lemma_trimmed_core(s@, start as int, end as int);
    }
    out.to_owned()
}

/// Dropping a whitespace prefix and suffix that surround a trim-stable core
/// yields exactly what `trimmed` computes.
proof fn lemma_trimmed_core(s: Seq<char>, start: int, end: int)
    requires
        0 <= start <= end <= s.len(),
        forall|j: int| 0 <= j < start ==> is_space(s[j]),
        forall|j: int| end <= j < s.len() ==> is_space(s[j]),
        start < end ==> !is_space(s[start]),
        start < end ==> !is_space(s[end - 1]),
        start == end ==> end == s.len(),
    ensures
        trimmed(s) == s.subrange(start, end),
        trim_stable(s.subrange(start, end)),
    decreases s.len(),
{
    if s.len() == 0 {
        assert(s.subrange(start, end) =~= s);
    } else if is_space(s[0]) {
        let t = s.subrange(1, s.len() as int);
        // s[0] is whitespace, so the core cannot begin at 0.
        assert(start >= 1);
        lemma_trimmed_core(t, start - 1, end - 1);
        assert(s.subrange(start, end) =~= t.subrange(start - 1, end - 1));
    } else if is_space(s[s.len() - 1]) {
        // s[0] is not whitespace, so start == 0 and start < end.
        assert(start == 0 && start < end);
        // s[end - 1] is not whitespace, so the core ends before the last char.
        assert(end < s.len());
        let t = s.subrange(0, s.len() - 1);
        lemma_trimmed_core(t, start, end);
        assert(s.subrange(start, end) =~= t.subrange(start, end));
    } else {
        assert(start == 0 && start < end);
        assert(end == s.len());
        assert(s.subrange(start, end) =~= s);
    }
}


/// Lexicographic order on character sequences by code point; this is the
/// order `str` comparison uses, since UTF-8 preserves code-point order.
pub open spec fn seq_lt(a: Seq<char>, b: Seq<char>) -> bool
    decreases a.len(),
{
    if b.len() == 0 {
        false
    } else if a.len() == 0 {
        true
    } else if a[0] != b[0] {
        a[0] < b[0]
    } else {
        seq_lt(a.subrange(1, a.len() as int), b.subrange(1, b.len() as int))
    }
}

/// Exactly one of `a < b`, `a == b`, `b < a` holds.
pub proof fn lemma_seq_lt_total(a: Seq<char>, b: Seq<char>)
    ensures
        a != b ==> (seq_lt(a, b) || seq_lt(b, a)),
        seq_lt(a, b) ==> !seq_lt(b, a) && a != b,
    decreases a.len() + b.len(),
{
    if a.len() == 0 && b.len() == 0 {
        assert(a =~= b);
    } else if a.len() == 0 || b.len() == 0 {
    } else if a[0] != b[0] {
    } else {
        let a1 = a.subrange(1, a.len() as int);
        let b1 = b.subrange(1, b.len() as int);
        lemma_seq_lt_total(a1, b1);
        if a1 == b1 {
            assert forall|i: int| 0 <= i < a.len() implies a[i] == b[i] by {
                if i >= 1 {
                    assert(a[i] == a1[i - 1]);
                    assert(b[i] == b1[i - 1]);
                }
            }
            assert(a =~= b);
        }
        if a == b {
            assert forall|i: int| 0 <= i < a1.len() implies a1[i] == b1[i] by {
                assert(a1[i] == a[i + 1]);
                assert(b1[i] == b[i + 1]);
            }
            assert(a1 =~= b1);
        }
    }
}

/// Lexicographic order is transitive.
pub proof fn lemma_seq_lt_trans(a: Seq<char>, b: Seq<char>, c: Seq<char>)
    requires
        seq_lt(a, b),
        seq_lt(b, c),
    ensures
        seq_lt(a, c),
    decreases a.len() + b.len() + c.len(),
{
    if c.len() == 0 {
    } else if a.len() == 0 {
    } else {
        // b is non-empty since seq_lt(a, b) holds with a non-empty... b could
        // be empty only if seq_lt(a, b) were false.
        if a[0] != c[0] {
            if a[0] == b[0] {
                assert(b[0] < c[0] || b[0] == c[0]);
            } else if b[0] == c[0] {
                assert(a[0] < b[0]);
            } else {
                assert(a[0] < b[0] && b[0] < c[0]);
            }
        } else {
            if a[0] == b[0] && b[0] == c[0] {
                lemma_seq_lt_trans(
                    a.subrange(1, a.len() as int),
                    b.subrange(1, b.len() as int),
                    c.subrange(1, c.len() as int),
                );
            } else {
                // a[0] == c[0] but differs from b[0]: then a[0] < b[0] and
                // b[0] < c[0] == a[0], a contradiction.
                assert(a[0] < b[0] && b[0] < a[0]);
            }
        }
    }
}

/// Compare two strings in lexicographic code-point order.
pub fn str_lt(a: &str, b: &str) -> (r: bool)
    ensures
        r == seq_lt(a@, b@),
{
    let alen = a.unicode_len();
    let blen = b.unicode_len();
    proof {
        assert(a@.subrange(0, alen as int) =~= a@);
        assert(b@.subrange(0, blen as int) =~= b@);
    }
    let mut i: usize = 0;
    loop
        invariant
            alen == a@.len(),
            blen == b@.len(),
            0 <= i <= alen,
            0 <= i <= blen,
            forall|j: int| 0 <= j < i ==> a@[j] == b@[j],
            seq_lt(a@, b@) == seq_lt(
                a@.subrange(i as int, alen as int),
                b@.subrange(i as int, blen as int),
            ),
        decreases alen - i,
    {
        if i >= blen {
            proof {
                assert(b@.subrange(i as int, blen as int).len() == 0);
            }
            return false;
        }
        if i >= alen {
            proof {
                assert(a@.subrange(i as int, alen as int).len() == 0);
                assert(b@.subrange(i as int, blen as int).len() > 0);
            }
            return true;
        }
        let ca = a.get_char(i);
        let cb = b.get_char(i);
        if ca != cb {
            proof {
                assert(a@.subrange(i as int, alen as int)[0] == a@[i as int]);
                assert(b@.subrange(i as int, blen as int)[0] == b@[i as int]);
            }
            return ca < cb;
        }
        proof {
            let sa = a@.subrange(i as int, alen as int);
            let sb = b@.subrange(i as int, blen as int);
            assert(sa[0] == a@[i as int] && sb[0] == b@[i as int]);
            assert(sa.subrange(1, sa.len() as int) =~= a@.subrange(i + 1, alen as int));
            assert(sb.subrange(1, sb.len() as int) =~= b@.subrange(i + 1, blen as int));
        }
        i = i + 1;
    }
}

} // verus!
