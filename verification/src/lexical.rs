use vstd::prelude::*;
use crate::text::str_chars;
use crate::effects::str_eq;
use crate::types::names_v;

verus! {

/// Lexicographic order on character sequences from position `i` on: the
/// order of `String` (byte order of UTF-8, which is code point order).
pub open spec fn lex_lt_from(a: Seq<char>, b: Seq<char>, i: nat) -> bool
    decreases a.len() - i,
{
    if i >= a.len() {
        i < b.len()
    } else if i >= b.len() {
        false
    } else if (a[i as int] as int) < (b[i as int] as int) {
        true
    } else if a[i as int] == b[i as int] {
        lex_lt_from(a, b, i + 1)
    } else {
        false
    }
}

/// `a` comes strictly before `b` in string order.
pub open spec fn lex_lt(a: Seq<char>, b: Seq<char>) -> bool {
    lex_lt_from(a, b, 0)
}

proof fn lemma_lex_from_irreflexive(a: Seq<char>, i: nat)
    ensures
        !lex_lt_from(a, a, i),
    decreases a.len() - i,
{
    if i < a.len() {
        lemma_lex_from_irreflexive(a, i + 1);
    }
}

proof fn lemma_lex_from_asymmetric(a: Seq<char>, b: Seq<char>, i: nat)
    requires
        lex_lt_from(a, b, i),
    ensures
        !lex_lt_from(b, a, i),
    decreases a.len() - i,
{
    if i < a.len() && i < b.len() && a[i as int] == b[i as int] {
        lemma_lex_from_asymmetric(a, b, i + 1);
    }
}

proof fn lemma_lex_from_transitive(a: Seq<char>, b: Seq<char>, c: Seq<char>, i: nat)
    requires
        lex_lt_from(a, b, i),
        lex_lt_from(b, c, i),
    ensures
        lex_lt_from(a, c, i),
    decreases a.len() - i,
{
    if i < a.len() && i < b.len() && i < c.len() && a[i as int] == b[i as int] && b[i as int]
        == c[i as int] {
        lemma_lex_from_transitive(a, b, c, i + 1);
    }
}

proof fn lemma_lex_from_total(a: Seq<char>, b: Seq<char>, i: nat)
    requires
        i <= a.len(),
        i <= b.len(),
        a.subrange(0, i as int) == b.subrange(0, i as int),
        a != b,
    ensures
        lex_lt_from(a, b, i) || lex_lt_from(b, a, i),
    decreases a.len() - i,
{
    if i < a.len() && i < b.len() && a[i as int] != b[i as int] {
        assert((a[i as int] as int) != (b[i as int] as int));
    }
    if i < a.len() && i < b.len() && a[i as int] == b[i as int] {
        assert(a.subrange(0, i + 1int) =~= a.subrange(0, i as int).push(a[i as int]));
        assert(b.subrange(0, i + 1int) =~= b.subrange(0, i as int).push(b[i as int]));
        lemma_lex_from_total(a, b, i + 1);
    } else if i >= a.len() && i >= b.len() {
        assert(a =~= a.subrange(0, i as int));
        assert(b =~= b.subrange(0, i as int));
    }
}

/// String order is a strict total order.
pub proof fn lemma_lex_order(a: Seq<char>, b: Seq<char>, c: Seq<char>)
    ensures
        !lex_lt(a, a),
        lex_lt(a, b) ==> !lex_lt(b, a),
        lex_lt(a, b) && lex_lt(b, c) ==> lex_lt(a, c),
        a != b ==> lex_lt(a, b) || lex_lt(b, a),
{
    lemma_lex_from_irreflexive(a, 0);
    if lex_lt(a, b) {
        lemma_lex_from_asymmetric(a, b, 0);
    }
    if lex_lt(a, b) && lex_lt(b, c) {
        lemma_lex_from_transitive(a, b, c, 0);
    }
    if a != b {
        assert(a.subrange(0, 0) =~= b.subrange(0, 0));
        lemma_lex_from_total(a, b, 0);
    }
}

/// Whether `a` comes strictly before `b` in string order.
pub fn str_lt(a: &str, b: &str) -> (r: bool)
    ensures
        r == lex_lt(a@, b@),
{
    let x = str_chars(a);
    let y = str_chars(b);
    let mut i: usize = 0;
    while i < x.len() && i < y.len() && x[i] == y[i]
        invariant
            x@ == a@,
            y@ == b@,
            i <= x@.len(),
            i <= y@.len(),
            lex_lt_from(a@, b@, 0) == lex_lt_from(a@, b@, i as nat),
        decreases x@.len() - i,
    {
        i = i + 1;
    }
    if i >= x.len() {
        i < y.len()
    } else if i >= y.len() {
        false
    } else {
        x[i] < y[i]
    }
}

/// Strictly increasing in string order.
pub open spec fn sorted_strict(v: Seq<Seq<char>>) -> bool {
    forall|i: int, j: int| 0 <= i < j < v.len() ==> lex_lt(#[trigger] v[i], #[trigger] v[j])
}

/// The elements of a finite set of names, in increasing string order.
pub open spec fn sorted_of(s: Set<Seq<char>>) -> Seq<Seq<char>> {
    choose|v: Seq<Seq<char>>| sorted_strict(v) && v.to_set() == s
}

/// Two increasing sequences with the same elements are equal.
pub proof fn lemma_sorted_unique(v: Seq<Seq<char>>, w: Seq<Seq<char>>)
    requires
        sorted_strict(v),
        sorted_strict(w),
        v.to_set() == w.to_set(),
    ensures
        v == w,
    decreases v.len(),
{
    if v.len() == 0 {
        if w.len() > 0 {
            assert(w.to_set().contains(w[0]));
        }
    } else if w.len() == 0 {
        assert(v.to_set().contains(v[0]));
    } else {
        let a = v[0];
        let b = w[0];
        assert(v.to_set().contains(a));
        assert(w.to_set().contains(b));
        let ia = choose|k: int| 0 <= k < w.len() && w[k] == a;
        let ib = choose|k: int| 0 <= k < v.len() && v[k] == b;
        if a != b {
            lemma_lex_order(a, b, a);
            assert(ia > 0);
            assert(ib > 0);
            assert(lex_lt(w[0], w[ia]));
            assert(lex_lt(v[0], v[ib]));
            assert(false);
        }
        let v1 = v.drop_first();
        let w1 = w.drop_first();
        assert forall|x: Seq<char>| v1.to_set().contains(x) implies w1.to_set().contains(x) by {
            let k = choose|k: int| 0 <= k < v1.len() && v1[k] == x;
            assert(v[k + 1] == x);
            assert(lex_lt(v[0], v[k + 1]));
            lemma_lex_order(x, x, x);
            assert(w.to_set().contains(x));
            let m = choose|m: int| 0 <= m < w.len() && w[m] == x;
            assert(m != 0);
            assert(w1[m - 1] == x);
        }
        assert forall|x: Seq<char>| w1.to_set().contains(x) implies v1.to_set().contains(x) by {
            let k = choose|k: int| 0 <= k < w1.len() && w1[k] == x;
            assert(w[k + 1] == x);
            assert(lex_lt(w[0], w[k + 1]));
            lemma_lex_order(x, x, x);
            assert(v.to_set().contains(x));
            let m = choose|m: int| 0 <= m < v.len() && v[m] == x;
            assert(m != 0);
            assert(v1[m - 1] == x);
        }
        assert(v1.to_set() =~= w1.to_set());
        lemma_sorted_unique(v1, w1);
        assert forall|k: int| 0 <= k < v.len() implies v[k] == w[k] by {
            if k > 0 {
                assert(v[k] == v1[k - 1]);
                assert(w[k] == w1[k - 1]);
            }
        }
        assert(v =~= w);
    }
}

/// An increasing sequence is the sorted form of its own elements.
pub proof fn lemma_sorted_of(v: Seq<Seq<char>>)
    requires
        sorted_strict(v),
    ensures
        sorted_of(v.to_set()) == v,
{
    let w = sorted_of(v.to_set());
    assert(sorted_strict(v) && v.to_set() == v.to_set());
    lemma_sorted_unique(v, w);
}

/// Inserts `x` into an increasing list of names, keeping it increasing.
pub fn sorted_insert(v: &mut Vec<String>, x: &str)
    requires
        sorted_strict(names_v(old(v)@)),
    ensures
        sorted_strict(names_v(final(v)@)),
        names_v(final(v)@).to_set() == names_v(old(v)@).to_set().insert(x@),
{
    let ghost old_names = names_v(v@);
    let mut i: usize = 0;
    while i < v.len() && str_lt(v[i].as_str(), x)
        invariant
            names_v(v@) == old_names,
            sorted_strict(old_names),
            i <= v@.len(),
            forall|k: int| 0 <= k < i ==> lex_lt(#[trigger] old_names[k], x@),
        decreases v@.len() - i,
    {
        i = i + 1;
    }
    if i < v.len() && str_eq(v[i].as_str(), x) {
        assert(old_names[i as int] == x@);
        assert(old_names.to_set().insert(x@) =~= old_names.to_set());
        return;
    }
    proof {
        if i < old_names.len() {
            lemma_lex_order(old_names[i as int], x@, x@);
            assert(lex_lt(x@, old_names[i as int]));
        }
    }
    v.insert(i, x.to_string());
    let ghost nn = names_v(v@);
    assert(nn =~= old_names.take(i as int).push(x@) + old_names.skip(i as int));
    assert forall|p: int, q: int| 0 <= p < q < nn.len() implies lex_lt(#[trigger] nn[p], #[trigger] nn[q]) by {
        if q < i {
        } else if q == i {
            assert(lex_lt(old_names[p], x@));
        } else if p < i {
            assert(lex_lt(old_names[p], x@));
            assert(lex_lt(x@, old_names[i as int]));
            assert(nn[q] == old_names[q - 1]);
            if q - 1 > i {
                assert(lex_lt(old_names[i as int], old_names[q - 1]));
                lemma_lex_order(x@, old_names[i as int], old_names[q - 1]);
            }
            lemma_lex_order(old_names[p], x@, old_names[q - 1]);
        } else if p == i {
            assert(nn[q] == old_names[q - 1]);
            if q - 1 > i {
                assert(lex_lt(old_names[i as int], old_names[q - 1]));
                lemma_lex_order(x@, old_names[i as int], old_names[q - 1]);
            }
        } else {
            assert(nn[p] == old_names[p - 1]);
            assert(nn[q] == old_names[q - 1]);
        }
    }
    assert forall|y: Seq<char>| nn.to_set().contains(y) <==> old_names.to_set().insert(x@).contains(y) by {
        if nn.to_set().contains(y) {
            let k = choose|k: int| 0 <= k < nn.len() && nn[k] == y;
            if k < i {
                assert(old_names[k] == y);
            } else if k > i {
                assert(old_names[k - 1] == y);
            }
        }
        if old_names.to_set().contains(y) {
            let k = choose|k: int| 0 <= k < old_names.len() && old_names[k] == y;
            if k < i {
                assert(nn[k] == y);
            } else {
                assert(nn[k + 1] == y);
            }
        }
        if y == x@ {
            assert(nn[i as int] == y);
        }
    }
    assert(nn.to_set() =~= old_names.to_set().insert(x@));
}

} // verus!
