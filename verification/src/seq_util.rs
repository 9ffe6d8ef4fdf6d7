//! Small executable helpers over vectors of account ids.
use vstd::prelude::*;

verus! {

/// `s` with every occurrence of `x` removed, order kept.
pub open spec fn without(s: Seq<u64>, x: u64) -> Seq<u64> {
    s.filter(differs_from(x))
}

/// The predicate "is not `x`".
pub open spec fn differs_from(x: u64) -> spec_fn(u64) -> bool {
    |y: u64| y != x
}

/// `s` with `x` appended unless it is already there.
pub open spec fn with_member(s: Seq<u64>, x: u64) -> Seq<u64> {
    if s.contains(x) { s } else { s.push(x) }
}

pub fn vec_contains(v: &Vec<u64>, x: u64) -> (r: bool)
    ensures
        r == v@.contains(x),
{
    let mut i: usize = 0;
    while i < v.len()
        invariant
            i <= v.len(),
            forall|j: int| 0 <= j < i ==> v@[j] != x,
        decreases v.len() - i,
    {
        if v[i] == x {
            return true;
        }
        i = i + 1;
    }
    false
}

pub fn copy_vec(v: &Vec<u64>) -> (r: Vec<u64>)
    ensures
        r@ == v@,
{
    let mut r: Vec<u64> = Vec::new();
    let mut i: usize = 0;
    while i < v.len()
        invariant
            i <= v.len(),
            r@ == v@.take(i as int),
        decreases v.len() - i,
    {
        r.push(v[i]);
        i = i + 1;
        assert(r@ =~= v@.take(i as int));
    }
    assert(v@.take(v@.len() as int) =~= v@);
    r
}

pub fn vec_without(v: &Vec<u64>, x: u64) -> (r: Vec<u64>)
    ensures
        r@ == without(v@, x),
{
    let mut r: Vec<u64> = Vec::new();
    let mut i: usize = 0;
    while i < v.len()
        invariant
            i <= v.len(),
            r@ == without(v@.take(i as int), x),
        decreases v.len() - i,
    {
        proof {
            assert(v@.take(i + 1) =~= v@.take(i as int).push(v@[i as int]));
            v@.take(i as int).lemma_filter_push(v@[i as int], differs_from(x));
        }
        if v[i] != x {
            r.push(v[i]);
        }
        i = i + 1;
    }
    assert(v@.take(v@.len() as int) =~= v@);
    r
}

/// Every element of `without(s, x)` is an element of `s` other than `x`.
pub proof fn lemma_without_contains(s: Seq<u64>, x: u64, y: u64)
    ensures
        without(s, x).contains(y) <==> (s.contains(y) && y != x),
    decreases s.len(),
{
    reveal(Seq::filter);
    if s.len() > 0 {
        lemma_without_contains(s.drop_last(), x, y);
        if s.drop_last().contains(y) {
            let j = choose|j: int| 0 <= j < s.drop_last().len() && s.drop_last()[j] == y;
            assert(s[j] == y);
        }
        if s.contains(y) && !s.drop_last().contains(y) {
            let j = choose|j: int| 0 <= j < s.len() && s[j] == y;
            if j < s.len() - 1 {
                assert(s.drop_last()[j] == y);
            }
        }
        let sub = without(s.drop_last(), x);
        if s.last() != x {
            assert(without(s, x) == sub.push(s.last()));
            if sub.contains(y) {
                let j = choose|j: int| 0 <= j < sub.len() && sub[j] == y;
                assert(sub.push(s.last())[j] == y);
            }
            if sub.push(s.last()).contains(y) && y != s.last() {
                let j = choose|j: int| 0 <= j < sub.len() + 1 && sub.push(s.last())[j] == y;
                assert(sub[j] == y);
            }
            assert(sub.push(s.last())[sub.len() as int] == s.last());
        } else {
            assert(without(s, x) == sub);
        }
    }
}

/// Removing an element keeps a sequence free of duplicates and no longer.
pub proof fn lemma_without_no_duplicates(s: Seq<u64>, x: u64)
    requires
        s.no_duplicates(),
    ensures
        without(s, x).no_duplicates(),
        without(s, x).len() <= s.len(),
    decreases s.len(),
{
    reveal(Seq::filter);
    if s.len() > 0 {
        let d = s.drop_last();
        assert(d.no_duplicates()) by {
            assert forall|i: int, j: int| 0 <= i < d.len() && 0 <= j < d.len() && i != j implies d[i] != d[j] by {
                assert(d[i] == s[i] && d[j] == s[j]);
            }
        }
        lemma_without_no_duplicates(d, x);
        let sub = without(d, x);
        if s.last() != x {
            lemma_without_contains(d, x, s.last());
            assert(!d.contains(s.last())) by {
                if d.contains(s.last()) {
                    let j = choose|j: int| 0 <= j < d.len() && d[j] == s.last();
                    assert(s[j] == s[s.len() - 1]);
                }
            }
            let r = sub.push(s.last());
            assert(without(s, x) == r);
            assert forall|i: int, j: int| 0 <= i < r.len() && 0 <= j < r.len() && i != j implies r[i] != r[j] by {
                if i < sub.len() && j < sub.len() {
                    assert(sub[i] == r[i] && sub[j] == r[j]);
                } else {
                    let k = if i < sub.len() { i } else { j };
                    assert(k < sub.len());
                    assert(sub[k] == r[k]);
                    assert(sub.contains(r[k]));
                    lemma_without_contains(d, x, r[k]);
                }
            }
        }
    }
}

pub proof fn lemma_with_member_contains(s: Seq<u64>, x: u64, y: u64)
    ensures
        with_member(s, x).contains(y) <==> (s.contains(y) || y == x),
{
    if !s.contains(x) {
        let r = s.push(x);
        assert(r[s.len() as int] == x);
        if s.contains(y) {
            let j = choose|j: int| 0 <= j < s.len() && s[j] == y;
            assert(r[j] == y);
        }
        if r.contains(y) && y != x {
            let j = choose|j: int| 0 <= j < r.len() && r[j] == y;
            assert(s[j] == y);
        }
    }
}

/// Removing an absent element changes nothing.
pub proof fn lemma_without_absent(s: Seq<u64>, x: u64)
    requires
        !s.contains(x),
    ensures
        without(s, x) == s,
    decreases s.len(),
{
    reveal(Seq::filter);
    if s.len() > 0 {
        assert(!s.drop_last().contains(x)) by {
            if s.drop_last().contains(x) {
                let j = choose|j: int| 0 <= j < s.drop_last().len() && s.drop_last()[j] == x;
                assert(s[j] == x);
            }
        }
        lemma_without_absent(s.drop_last(), x);
        assert(s.last() != x) by {
            assert(s[s.len() - 1] == s.last());
        }
        assert(s.drop_last().push(s.last()) =~= s);
    }
}

/// Removing an element after adding it is the same as just removing it.
pub proof fn lemma_without_with_member(s: Seq<u64>, x: u64)
    ensures
        without(with_member(s, x), x) == without(s, x),
{
    if !s.contains(x) {
        s.lemma_filter_push(x, differs_from(x));
    }
}

/// Appending a new element keeps a sequence free of duplicates.
pub proof fn lemma_with_member_no_duplicates(s: Seq<u64>, x: u64)
    requires
        s.no_duplicates(),
    ensures
        with_member(s, x).no_duplicates(),
{
    if !s.contains(x) {
        let r = s.push(x);
        assert forall|i: int, j: int| 0 <= i < r.len() && 0 <= j < r.len() && i != j implies r[i] != r[j] by {
            if i == s.len() as int && j < s.len() {
                assert(s[j] == r[j]);
            } else if j == s.len() as int && i < s.len() {
                assert(s[i] == r[i]);
            }
        }
    }
}

} // verus!
