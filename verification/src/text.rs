//! Strings as sequences of characters: prefixes, the lexicographic order and
//! lengths in bytes.

use vstd::prelude::*;
use vstd::utf8::encode_utf8;

verus! {

/// The number of bytes that `s` takes in UTF-8.
pub open spec fn byte_len(s: Seq<char>) -> nat {
    encode_utf8(s).len()
}

/// `a` is a beginning of `b`, possibly all of it.
pub open spec fn is_prefix(a: Seq<char>, b: Seq<char>) -> bool {
    &&& a.len() <= b.len()
    &&& forall|i: int| 0 <= i < a.len() ==> a[i] == b[i]
}

/// `a` is a beginning of `b` and shorter than it.
pub open spec fn is_proper_prefix(a: Seq<char>, b: Seq<char>) -> bool {
    a.len() < b.len() && is_prefix(a, b)
}

/// `a` is an end of `b`, possibly all of it.
pub open spec fn is_suffix(a: Seq<char>, b: Seq<char>) -> bool {
    &&& a.len() <= b.len()
    &&& forall|i: int| 0 <= i < a.len() ==> a[i] == b[b.len() - a.len() + i]
}

/// `a` and `b` hold the same characters before position `k`, and there `a`
/// has ended or holds the smaller character.
pub open spec fn first_differ_at(a: Seq<char>, b: Seq<char>, k: int) -> bool {
    &&& 0 <= k <= a.len()
    &&& k < b.len()
    &&& forall|i: int| 0 <= i < k ==> a[i] == b[i]
    &&& k < a.len() ==> (a[k] as int) < (b[k] as int)
}

/// `a` comes before `b` in the lexicographic order by code point.
#[verifier::opaque]
pub open spec fn lex_lt(a: Seq<char>, b: Seq<char>) -> bool {
    exists|k: int| first_differ_at(a, b, k)
}

/// Every item of `s` comes before the items after it.
pub open spec fn strictly_sorted(s: Seq<Seq<char>>) -> bool {
    forall|i: int, j: int| 0 <= i < j < s.len() ==> lex_lt(s[i], s[j])
}

/// The character sequences of a list of strings.
pub open spec fn views(strings: Seq<String>) -> Seq<Seq<char>> {
    Seq::new(strings.len(), |i: int| strings[i]@)
}

/// No sequence comes before itself.
pub proof fn lemma_lex_irreflexive(a: Seq<char>)
    ensures
        !lex_lt(a, a),
{
    reveal(lex_lt);
}

/// Of two sequences at most one comes before the other.
pub proof fn lemma_lex_asymmetric(a: Seq<char>, b: Seq<char>)
    requires
        lex_lt(a, b),
    ensures
        !lex_lt(b, a),
{
    reveal(lex_lt);
    let k = choose|k: int| first_differ_at(a, b, k);
    if lex_lt(b, a) {
        let m = choose|m: int| first_differ_at(b, a, m);
        if m < k {
            assert(a[m] == b[m]);
        } else if k < m {
            assert(b[k] == a[k]);
        }
    }
}

/// Two sequences that agree before position `k` are the same or ordered one
/// way or the other.
proof fn lemma_lex_total_from(a: Seq<char>, b: Seq<char>, k: int)
    requires
        0 <= k <= a.len(),
        k <= b.len(),
        forall|i: int| 0 <= i < k ==> a[i] == b[i],
    ensures
        lex_lt(a, b) || a == b || lex_lt(b, a),
    decreases a.len() - k,
{
    reveal(lex_lt);
    if k == a.len() {
        if k == b.len() {
            assert(a =~= b);
        } else {
            assert(first_differ_at(a, b, k));
        }
    } else if k == b.len() {
        assert(first_differ_at(b, a, k));
    } else if a[k] == b[k] {
        lemma_lex_total_from(a, b, k + 1);
    } else if (a[k] as int) < (b[k] as int) {
        assert(first_differ_at(a, b, k));
    } else {
        assert(first_differ_at(b, a, k));
    }
}

/// Two different sequences are ordered one way or the other.
pub proof fn lemma_lex_total(a: Seq<char>, b: Seq<char>)
    ensures
        lex_lt(a, b) || a == b || lex_lt(b, a),
{
    lemma_lex_total_from(a, b, 0);
}

/// The order is transitive.
pub proof fn lemma_lex_transitive(a: Seq<char>, b: Seq<char>, c: Seq<char>)
    requires
        lex_lt(a, b),
        lex_lt(b, c),
    ensures
        lex_lt(a, c),
{
    reveal(lex_lt);
    let k = choose|k: int| first_differ_at(a, b, k);
    let m = choose|m: int| first_differ_at(b, c, m);
    if k <= m {
        assert(first_differ_at(a, c, k));
    } else {
        assert(first_differ_at(a, c, m));
    }
}

/// A strictly sorted sequence holds no item twice.
pub proof fn lemma_sorted_distinct(s: Seq<Seq<char>>, i: int, j: int)
    requires
        strictly_sorted(s),
        0 <= i < s.len(),
        0 <= j < s.len(),
        s[i] == s[j],
    ensures
        i == j,
{
    if i < j {
        lemma_lex_irreflexive(s[i]);
    } else if j < i {
        lemma_lex_irreflexive(s[j]);
    }
}

/// Two strictly sorted sequences that hold the same items are the same
/// sequence.
pub proof fn lemma_sorted_unique(a: Seq<Seq<char>>, b: Seq<Seq<char>>)
    requires
        strictly_sorted(a),
        strictly_sorted(b),
        forall|x: Seq<char>| a.contains(x) <==> b.contains(x),
    ensures
        a == b,
    decreases a.len(),
{
    if a.len() == 0 {
        if b.len() > 0 {
            assert(b.contains(b[0]));
        }
        assert(a =~= b);
    } else {
        assert(a.contains(a[0]));
        let j = choose|j: int| 0 <= j < b.len() && b[j] == a[0];
        assert(b.contains(b[0]));
        let i = choose|i: int| 0 <= i < a.len() && a[i] == b[0];
        if j > 0 {
            assert(lex_lt(b[0], b[j]));
            if i > 0 {
                assert(lex_lt(a[0], a[i]));
                lemma_lex_asymmetric(a[0], a[i]);
            } else {
                lemma_lex_irreflexive(a[0]);
            }
        }
        let rest_a = a.drop_first();
        let rest_b = b.drop_first();
        assert forall|x: Seq<char>| rest_a.contains(x) <==> rest_b.contains(x) by {
            if rest_a.contains(x) {
                let k = choose|k: int| 0 <= k < rest_a.len() && rest_a[k] == x;
                assert(a[k + 1] == x);
                assert(a.contains(x));
                let m = choose|m: int| 0 <= m < b.len() && b[m] == x;
                lemma_sorted_distinct(a, 0, if m == 0 {
                    k + 1
                } else {
                    0
                });
                assert(rest_b[m - 1] == x);
            }
            if rest_b.contains(x) {
                let k = choose|k: int| 0 <= k < rest_b.len() && rest_b[k] == x;
                assert(b[k + 1] == x);
                assert(b.contains(x));
                let m = choose|m: int| 0 <= m < a.len() && a[m] == x;
                lemma_sorted_distinct(b, 0, if m == 0 {
                    k + 1
                } else {
                    0
                });
                assert(rest_a[m - 1] == x);
            }
        }
        assert(strictly_sorted(rest_a)) by {
            assert forall|c: int, d: int| 0 <= c < d < rest_a.len() implies lex_lt(
                rest_a[c],
                rest_a[d],
            ) by {
                assert(lex_lt(a[c + 1], a[d + 1]));
            }
        }
        assert(strictly_sorted(rest_b)) by {
            assert forall|c: int, d: int| 0 <= c < d < rest_b.len() implies lex_lt(
                rest_b[c],
                rest_b[d],
            ) by {
                assert(lex_lt(b[c + 1], b[d + 1]));
            }
        }
        lemma_sorted_unique(rest_a, rest_b);
        assert(a =~= seq![a[0]] + rest_a);
        assert(b =~= seq![b[0]] + rest_b);
    }
}

/// The number of bytes that `s` takes.
pub fn utf8_len(s: &str) -> (n: usize)
    ensures
        n == byte_len(s@),
{
    s.as_bytes().len()
}

/// The characters of `s`, in order.
pub fn chars_of(s: &str) -> (v: Vec<char>)
    ensures
        v@ == s@,
{
    let mut v: Vec<char> = Vec::new();
    for c in it: s.chars()
        invariant
            v@ == it.seq().take(it.index()),
            it.seq() == s@,
    {
        v.push(c);
    }
    v
}

/// Whether `b` begins with `a`.
pub fn starts_with(b: &Vec<char>, a: &Vec<char>) -> (r: bool)
    ensures
        r == is_prefix(a@, b@),
{
    if a.len() > b.len() {
        return false;
    }
    let mut i: usize = 0;
    while i < a.len()
        invariant
            i <= a.len() <= b.len(),
            forall|j: int| 0 <= j < i ==> a@[j] == b@[j],
        decreases a.len() - i,
    {
        if a[i] != b[i] {
            return false;
        }
        i += 1;
    }
    true
}

/// Whether `b` ends with `a`.
pub fn ends_with(b: &Vec<char>, a: &Vec<char>) -> (r: bool)
    ensures
        r == is_suffix(a@, b@),
{
    if a.len() > b.len() {
        return false;
    }
    let shift: usize = b.len() - a.len();
    let mut i: usize = 0;
    while i < a.len()
        invariant
            i <= a.len() <= b.len(),
            shift == b.len() - a.len(),
            forall|j: int| 0 <= j < i ==> a@[j] == b@[shift + j],
        decreases a.len() - i,
    {
        if a[i] != b[shift + i] {
            return false;
        }
        i += 1;
    }
    true
}

/// Whether `a` and `b` hold the same characters.
pub fn same_chars(a: &Vec<char>, b: &Vec<char>) -> (r: bool)
    ensures
        r == (a@ == b@),
{
    if a.len() != b.len() {
        return false;
    }
    let r = starts_with(b, a);
    proof {
        if r {
            assert(a@ =~= b@);
        }
    }
    r
}

/// Whether `s` is the text `literal`.
pub fn is_text(s: &str, literal: &str) -> (r: bool)
    ensures
        r == (s@ == literal@),
{
    let a = chars_of(s);
    let b = chars_of(literal);
    same_chars(&a, &b)
}

/// Whether `a` comes before `b` in the lexicographic order.
pub fn comes_before(a: &Vec<char>, b: &Vec<char>) -> (r: bool)
    ensures
        r == lex_lt(a@, b@),
{
    let mut i: usize = 0;
    while i < a.len() && i < b.len()
        invariant
            i <= a.len(),
            i <= b.len(),
            forall|j: int| 0 <= j < i ==> a@[j] == b@[j],
        decreases a.len() - i,
    {
        if a[i] != b[i] {
            let r = a[i] < b[i];
            proof {
                reveal(lex_lt);
                if r {
                    assert(first_differ_at(a@, b@, i as int));
                } else {
                    assert(first_differ_at(b@, a@, i as int));
                    lemma_lex_asymmetric(b@, a@);
                }
            }
            return r;
        }
        i += 1;
    }
    let r = i < b.len();
    proof {
        reveal(lex_lt);
        if r {
            assert(first_differ_at(a@, b@, i as int));
        } else {
            lemma_lex_total(a@, b@);
            if a@ != b@ {
                assert(first_differ_at(b@, a@, i as int) || a@ =~= b@);
                lemma_lex_asymmetric(b@, a@);
            } else {
                lemma_lex_irreflexive(a@);
            }
        }
    }
    r
}

} // verus!
