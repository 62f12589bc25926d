//! Sorting and de-duplicating strings, as `Vec::sort` followed by
//! `Vec::dedup` does.
//!
//! Strings are ordered as `String`'s `Ord` orders them: byte-wise on their
//! UTF-8 encoding, which is the lexicographic order of their characters.

use vstd::prelude::*;
use crate::screenplay::strings_view;
use crate::text::chars_of;

verus! {

/// The lexicographic order of character sequences.
pub open spec fn lex_lt(a: Seq<char>, b: Seq<char>) -> bool
    decreases a.len(),
{
    if a.len() == 0 {
        b.len() > 0
    } else if b.len() == 0 {
        false
    } else if a[0] != b[0] {
        a[0] < b[0]
    } else {
        lex_lt(a.drop_first(), b.drop_first())
    }
}

/// The sequence is strictly increasing, so it holds no string twice.
pub open spec fn strictly_sorted(s: Seq<Seq<char>>) -> bool {
    forall|i: int, j: int| 0 <= i < j < s.len() ==> lex_lt(#[trigger] s[i], #[trigger] s[j])
}

/// The distinct strings of `items`, in increasing order.
pub open spec fn sorted_unique(items: Seq<Seq<char>>) -> Seq<Seq<char>> {
    choose|r: Seq<Seq<char>>| strictly_sorted(r) && r.to_set() == items.to_set()
}

/// The items of a sequence with one more pushed.
pub proof fn lemma_to_set_push<A>(s: Seq<A>, x: A)
    ensures
        s.push(x).to_set() == s.to_set().insert(x),
{
    let p = s.push(x);
    assert forall|y: A| p.to_set().contains(y) implies s.to_set().insert(x).contains(y) by {
        let k = choose|k: int| 0 <= k < p.len() && p[k] == y;
        if k < s.len() {
            assert(s[k] == y);
        }
    }
    assert forall|y: A| s.to_set().insert(x).contains(y) implies p.to_set().contains(y) by {
        if y == x {
            assert(p[s.len() as int] == y);
        } else {
            let k = choose|k: int| 0 <= k < s.len() && s[k] == y;
            assert(p[k] == y);
        }
    }
    assert(p.to_set() =~= s.to_set().insert(x));
}

/// The items of a sequence with one more inserted.
pub proof fn lemma_to_set_insert<A>(s: Seq<A>, i: int, x: A)
    requires
        0 <= i <= s.len(),
    ensures
        s.insert(i, x).to_set() == s.to_set().insert(x),
{
    let p = s.insert(i, x);
    assert forall|y: A| p.to_set().contains(y) implies s.to_set().insert(x).contains(y) by {
        let k = choose|k: int| 0 <= k < p.len() && p[k] == y;
        if k < i {
            assert(s[k] == y);
        } else if k > i {
            assert(s[k - 1] == y);
        }
    }
    assert forall|y: A| s.to_set().insert(x).contains(y) implies p.to_set().contains(y) by {
        if y == x {
            assert(p[i] == y);
        } else {
            let k = choose|k: int| 0 <= k < s.len() && s[k] == y;
            if k < i {
                assert(p[k] == y);
            } else {
                assert(p[k + 1] == y);
            }
        }
    }
    assert(p.to_set() =~= s.to_set().insert(x));
}

/// `lex_lt` is irreflexive.
pub proof fn lemma_lex_irreflexive(a: Seq<char>)
    ensures
        !lex_lt(a, a),
    decreases a.len(),
{
    if a.len() > 0 {
        lemma_lex_irreflexive(a.drop_first());
    }
}

/// `lex_lt` is transitive.
pub proof fn lemma_lex_transitive(a: Seq<char>, b: Seq<char>, c: Seq<char>)
    requires
        lex_lt(a, b),
        lex_lt(b, c),
    ensures
        lex_lt(a, c),
    decreases a.len(),
{
    if a.len() > 0 && b.len() > 0 && c.len() > 0 && a[0] == b[0] && b[0] == c[0] {
        lemma_lex_transitive(a.drop_first(), b.drop_first(), c.drop_first());
    }
}

/// Two distinct sequences are ordered one way or the other.
pub proof fn lemma_lex_total(a: Seq<char>, b: Seq<char>)
    requires
        a != b,
    ensures
        lex_lt(a, b) || lex_lt(b, a),
    decreases a.len(),
{
    if a.len() > 0 && b.len() > 0 && a[0] != b[0] {
    } else if a.len() > 0 && b.len() > 0 && a[0] == b[0] {
        if a.drop_first() == b.drop_first() {
            assert(a =~= seq![a[0]] + a.drop_first());
            assert(b =~= seq![b[0]] + b.drop_first());
        }
        lemma_lex_total(a.drop_first(), b.drop_first());
    } else if a.len() == 0 && b.len() == 0 {
        assert(a =~= b);
    }
}

/// `lex_lt` is asymmetric.
pub proof fn lemma_lex_asymmetric(a: Seq<char>, b: Seq<char>)
    requires
        lex_lt(a, b),
    ensures
        !lex_lt(b, a),
{
    if lex_lt(b, a) {
        lemma_lex_transitive(a, b, a);
        lemma_lex_irreflexive(a);
    }
}

/// A strictly sorted sequence is determined by the set of its items.
pub proof fn lemma_sorted_unique(a: Seq<Seq<char>>, b: Seq<Seq<char>>)
    requires
        strictly_sorted(a),
        strictly_sorted(b),
        a.to_set() == b.to_set(),
    ensures
        a == b,
    decreases a.len() + b.len(),
{
    if a.len() == 0 {
        if b.len() > 0 {
            assert(a.to_set().contains(b[0]));
        }
        assert(a =~= b);
    } else if b.len() == 0 {
        assert(b.to_set().contains(a[0]));
    } else {
        assert(b.to_set().contains(a[0]));
        assert(a.to_set().contains(b[0]));
        let j = choose|j: int| 0 <= j < b.len() && b[j] == a[0];
        let i = choose|i: int| 0 <= i < a.len() && a[i] == b[0];
        if j > 0 {
            assert(lex_lt(b[0], b[j]));
            if i > 0 {
                assert(lex_lt(a[0], a[i]));
                lemma_lex_asymmetric(b[0], a[0]);
            } else {
                lemma_lex_irreflexive(b[0]);
            }
        }
        assert(a[0] == b[0]);
        let a1 = a.drop_first();
        let b1 = b.drop_first();
        assert forall|x: Seq<char>| a1.to_set().contains(x) implies b1.to_set().contains(x) by {
            let k = choose|k: int| 0 <= k < a1.len() && a1[k] == x;
            assert(lex_lt(a[0], a[k + 1]));
            assert(b.to_set().contains(x));
            let m = choose|m: int| 0 <= m < b.len() && b[m] == x;
            if m == 0 {
                lemma_lex_irreflexive(x);
            }
            assert(b1[m - 1] == x);
        }
        assert forall|x: Seq<char>| b1.to_set().contains(x) implies a1.to_set().contains(x) by {
            let k = choose|k: int| 0 <= k < b1.len() && b1[k] == x;
            assert(lex_lt(b[0], b[k + 1]));
            assert(a.to_set().contains(x));
            let m = choose|m: int| 0 <= m < a.len() && a[m] == x;
            if m == 0 {
                lemma_lex_irreflexive(x);
            }
            assert(a1[m - 1] == x);
        }
        assert(a1.to_set() =~= b1.to_set());
        lemma_sorted_unique(a1, b1);
        assert(a =~= seq![a[0]] + a1);
        assert(b =~= seq![b[0]] + b1);
    }
}

/// `x` put into its place in a strictly sorted sequence (nothing added when
/// it is there).
pub open spec fn sorted_insert(s: Seq<Seq<char>>, x: Seq<char>) -> Seq<Seq<char>>
    decreases s.len(),
{
    if s.len() == 0 {
        seq![x]
    } else if s[0] == x {
        s
    } else if lex_lt(x, s[0]) {
        seq![x] + s
    } else {
        seq![s[0]] + sorted_insert(s.drop_first(), x)
    }
}

/// Inserting keeps a sequence strictly sorted and adds just `x` to its items.
proof fn lemma_sorted_insert(s: Seq<Seq<char>>, x: Seq<char>)
    requires
        strictly_sorted(s),
    ensures
        strictly_sorted(sorted_insert(s, x)),
        sorted_insert(s, x).to_set() == s.to_set().insert(x),
        sorted_insert(s, x).len() > 0,
        s.len() > 0 ==> sorted_insert(s, x)[0] == s[0] || sorted_insert(s, x)[0] == x,
    decreases s.len(),
{
    let r = sorted_insert(s, x);
    if s.len() == 0 {
        assert(r.to_set() =~= s.to_set().insert(x)) by {
            assert forall|y: Seq<char>| r.to_set().contains(y) implies s.to_set().insert(x).contains(y) by {
                let k = choose|k: int| 0 <= k < r.len() && r[k] == y;
            }
            assert(r[0] == x);
        }
    } else if s[0] == x {
        assert(s.to_set().contains(x));
        assert(r.to_set() =~= s.to_set().insert(x));
    } else if lex_lt(x, s[0]) {
        assert forall|i: int, j: int| 0 <= i < j < r.len() implies lex_lt(#[trigger] r[i], #[trigger] r[j]) by {
            if i == 0 {
                assert(r[j] == s[j - 1]);
                if j > 1 {
                    assert(lex_lt(s[0], s[j - 1]));
                    lemma_lex_transitive(x, s[0], s[j - 1]);
                }
            } else {
                assert(r[i] == s[i - 1] && r[j] == s[j - 1]);
            }
        }
        lemma_to_set_insert(s, 0, x);
        assert(r =~= s.insert(0, x));
    } else {
        let t = s.drop_first();
        assert(strictly_sorted(t)) by {
            assert forall|i: int, j: int| 0 <= i < j < t.len() implies lex_lt(#[trigger] t[i], #[trigger] t[j]) by {
                assert(t[i] == s[i + 1] && t[j] == s[j + 1]);
            }
        }
        lemma_sorted_insert(t, x);
        let u = sorted_insert(t, x);
        lemma_lex_total(x, s[0]);
        assert(lex_lt(s[0], x));
        assert forall|i: int, j: int| 0 <= i < j < r.len() implies lex_lt(#[trigger] r[i], #[trigger] r[j]) by {
            if i == 0 {
                assert(r[j] == u[j - 1]);
                assert(u.to_set().contains(u[j - 1]));
                assert(t.to_set().insert(x).contains(u[j - 1]));
                if u[j - 1] != x {
                    let k = choose|k: int| 0 <= k < t.len() && t[k] == u[j - 1];
                    assert(t[k] == s[k + 1]);
                }
            } else {
                assert(r[i] == u[i - 1] && r[j] == u[j - 1]);
            }
        }
        assert(r =~= seq![s[0]] + u);
        assert forall|y: Seq<char>| r.to_set().contains(y) <==> s.to_set().insert(x).contains(y) by {
            if r.to_set().contains(y) {
                let k = choose|k: int| 0 <= k < r.len() && r[k] == y;
                if k > 0 {
                    assert(u.to_set().contains(u[k - 1]));
                    if y != x {
                        let m = choose|m: int| 0 <= m < t.len() && t[m] == y;
                        assert(s[m + 1] == y);
                    }
                }
            }
            if s.to_set().insert(x).contains(y) {
                if y == s[0] {
                    assert(r[0] == y);
                } else if y == x {
                    assert(u.to_set().contains(x));
                    let k = choose|k: int| 0 <= k < u.len() && u[k] == x;
                    assert(r[k + 1] == y);
                } else {
                    let m = choose|m: int| 0 <= m < s.len() && s[m] == y;
                    assert(m > 0);
                    assert(t[m - 1] == y);
                    assert(u.to_set().contains(y));
                    let k = choose|k: int| 0 <= k < u.len() && u[k] == y;
                    assert(r[k + 1] == y);
                }
            }
        }
        assert(r.to_set() =~= s.to_set().insert(x));
    }
}

/// Some strictly sorted sequence holds exactly the items of `items`.
proof fn lemma_sorted_witness(items: Seq<Seq<char>>) -> (r: Seq<Seq<char>>)
    ensures
        strictly_sorted(r),
        r.to_set() == items.to_set(),
    decreases items.len(),
{
    if items.len() == 0 {
        let r = Seq::<Seq<char>>::empty();
        assert(r.to_set() =~= items.to_set());
        r
    } else {
        let p = items.drop_last();
        let w = lemma_sorted_witness(p);
        lemma_sorted_insert(w, items.last());
        lemma_to_set_push(p, items.last());
        assert(p.push(items.last()) =~= items);
        sorted_insert(w, items.last())
    }
}

/// `sorted_unique` is strictly increasing (so it holds no string twice)
/// and holds exactly the items given.
pub proof fn lemma_sorted_unique_spec(items: Seq<Seq<char>>)
    ensures
        strictly_sorted(sorted_unique(items)),
        sorted_unique(items).to_set() == items.to_set(),
        forall|i: int, j: int| 0 <= i < j < sorted_unique(items).len() ==> sorted_unique(items)[i] != sorted_unique(items)[j],
{
    let w = lemma_sorted_witness(items);
    assert(strictly_sorted(w) && w.to_set() == items.to_set());
    let r = sorted_unique(items);
    assert forall|i: int, j: int| 0 <= i < j < r.len() implies r[i] != r[j] by {
        assert(lex_lt(r[i], r[j]));
        if r[i] == r[j] {
            lemma_lex_irreflexive(r[i]);
        }
    }
}

/// `a < b` in the lexicographic order of characters.
pub fn lex_lt_exec(a: &[char], b: &[char]) -> (r: bool)
    ensures
        r == lex_lt(a@, b@),
{
    let mut i: usize = 0;
    while i < a.len() && i < b.len() && a[i] == b[i]
        invariant
            i <= a@.len(),
            i <= b@.len(),
            forall|k: int| 0 <= k < i ==> a@[k] == b@[k],
        decreases a@.len() - i,
    {
        i = i + 1;
    }
    proof {
        lemma_lex_skip(a@, b@, i as int);
    }
    if i == a.len() {
        i < b.len()
    } else if i == b.len() {
        false
    } else {
        a[i] < b[i]
    }
}

proof fn lemma_lex_skip(a: Seq<char>, b: Seq<char>, i: int)
    requires
        0 <= i <= a.len(),
        i <= b.len(),
        forall|k: int| 0 <= k < i ==> a[k] == b[k],
    ensures
        lex_lt(a, b) == lex_lt(a.subrange(i, a.len() as int), b.subrange(i, b.len() as int)),
    decreases i,
{
    if i > 0 {
        lemma_lex_skip(a.drop_first(), b.drop_first(), i - 1);
        assert(a.drop_first().subrange(i - 1, a.len() - 1) =~= a.subrange(i, a.len() as int));
        assert(b.drop_first().subrange(i - 1, b.len() - 1) =~= b.subrange(i, b.len() as int));
    } else {
        assert(a.subrange(0, a.len() as int) =~= a);
        assert(b.subrange(0, b.len() as int) =~= b);
    }
}

/// Inserts `s` into a strictly sorted vector unless it is already there.
fn insert_sorted(v: &mut Vec<String>, s: String)
    requires
        strictly_sorted(strings_view(old(v)@)),
    ensures
        strictly_sorted(strings_view(final(v)@)),
        strings_view(final(v)@).to_set() == strings_view(old(v)@).to_set().insert(s@),
{
    let ghost old_v = strings_view(v@);
    let sc = chars_of(s.as_str());
    let mut i: usize = 0;
    while i < v.len()
        invariant
            old_v == strings_view(v@),
            old_v == strings_view(old(v)@),
            strictly_sorted(old_v),
            sc@ == s@,
            i <= v@.len(),
            forall|k: int| 0 <= k < i ==> lex_lt(#[trigger] old_v[k], s@),
        decreases v@.len() - i,
    {
        let vc = chars_of(v[i].as_str());
        assert(old_v[i as int] == v@[i as int]@);
        if crate::text::chars_eq(vc.as_slice(), sc.as_slice()) {
            assert(old_v[i as int] == s@);
            assert(old_v.to_set().contains(s@));
            assert(old_v.to_set().insert(s@) =~= old_v.to_set());
            return;
        }
        if lex_lt_exec(sc.as_slice(), vc.as_slice()) {
            proof {
                assert forall|k: int| i <= k < old_v.len() implies lex_lt(s@, #[trigger] old_v[k]) by {
                    if k > i {
                        lemma_lex_transitive(s@, old_v[i as int], old_v[k]);
                    }
                }
            }
            v.insert(i, s);
            proof {
                let nv = strings_view(v@);
                assert(nv =~= old_v.insert(i as int, s@));
                assert forall|a: int, b: int| 0 <= a < b < nv.len() implies lex_lt(#[trigger] nv[a], #[trigger] nv[b]) by {
                    if b < i {
                    } else if a < i && b == i {
                    } else if a < i {
                        assert(nv[b] == old_v[b - 1]);
                        lemma_lex_transitive(old_v[a], s@, old_v[b - 1]);
                    } else if a == i {
                        assert(nv[b] == old_v[b - 1]);
                    } else {
                        assert(nv[a] == old_v[a - 1]);
                        assert(nv[b] == old_v[b - 1]);
                    }
                }
                lemma_to_set_insert(old_v, i as int, s@);
            }
            return;
        }
        proof {
            lemma_lex_total(s@, old_v[i as int]);
        }
        i = i + 1;
    }
    v.push(s);
    proof {
        let nv = strings_view(v@);
        assert(nv =~= old_v.push(s@));
        lemma_to_set_push(old_v, s@);
    }
}

/// `items.sort(); items.dedup();`: the distinct strings, in increasing
/// order.
pub fn sort_dedup(items: Vec<String>) -> (r: Vec<String>)
    ensures
        strings_view(r@) == sorted_unique(strings_view(items@)),
        strictly_sorted(strings_view(r@)),
        strings_view(r@).to_set() == strings_view(items@).to_set(),
{
    let ghost all = strings_view(items@);
    let mut out: Vec<String> = Vec::new();
    let mut rest = items;
    let ghost orig = rest@;
    let ghost n = orig.len();
    let total = rest.len();
    let mut i: usize = 0;
    assert(strings_view(out@).to_set() =~= all.subrange(0, 0).to_set());
    while rest.len() > 0
        invariant
            i <= n,
            n == orig.len(),
            total == n,
            all == strings_view(orig),
            rest@ == orig.subrange(i as int, n as int),
            strictly_sorted(strings_view(out@)),
            strings_view(out@).to_set() == all.subrange(0, i as int).to_set(),
        decreases rest@.len(),
    {
        let x = rest.remove(0);
        assert(x@ == all[i as int]);
        insert_sorted(&mut out, x);
        assert(all.subrange(0, i + 1) =~= all.subrange(0, i as int).push(all[i as int]));
        proof {
            lemma_to_set_push(all.subrange(0, i as int), all[i as int]);
        }
        i = i + 1;
        assert(rest@ =~= orig.subrange(i as int, n as int));
    }
    assert(all.subrange(0, n as int) =~= all);
    proof {
        let c = sorted_unique(all);
        assert(strictly_sorted(strings_view(out@)) && strings_view(out@).to_set() == all.to_set());
        lemma_sorted_unique(c, strings_view(out@));
    }
    out
}


/// The order `String`'s `Ord` gives, as a relation: `a <= b`.
pub open spec fn lex_order() -> spec_fn(Seq<char>, Seq<char>) -> bool {
    |a: Seq<char>, b: Seq<char>| !lex_lt(b, a)
}

/// `lex_order` is a total order.
pub proof fn lemma_lex_order_total()
    ensures
        vstd::relations::total_ordering(lex_order()),
{
    let r = lex_order();
    assert forall|x: Seq<char>| #[trigger] r(x, x) by {
        lemma_lex_irreflexive(x);
    }
    assert forall|x: Seq<char>, y: Seq<char>| #[trigger] r(x, y) && #[trigger] r(y, x) implies x == y by {
        if x != y {
            lemma_lex_total(x, y);
        }
    }
    assert forall|x: Seq<char>, y: Seq<char>, z: Seq<char>| #[trigger] r(x, y) && #[trigger] r(y, z) implies r(x, z) by {
        if lex_lt(z, x) {
            if x == y {
            } else {
                lemma_lex_total(x, y);
                lemma_lex_transitive(z, x, y);
            }
        }
    }
    assert forall|x: Seq<char>, y: Seq<char>| #[trigger] r(x, y) || #[trigger] r(y, x) by {
        if lex_lt(y, x) {
            lemma_lex_asymmetric(y, x);
        }
    }
}

/// `items.sort()`: the strings in increasing order, each as often as it
/// occurs.
pub fn sort_strings(items: Vec<String>) -> (r: Vec<String>)
    ensures
        strings_view(r@) == strings_view(items@).sort_by(lex_order()),
{
    let ghost all = strings_view(items@);
    let mut out: Vec<String> = Vec::new();
    let n = items.len();
    let mut i: usize = 0;
    assert(strings_view(out@) =~= all.subrange(0, 0));
    while i < n
        invariant
            n == items@.len(),
            i <= n,
            all == strings_view(items@),
            vstd::relations::sorted_by(strings_view(out@), lex_order()),
            strings_view(out@).to_multiset() == all.subrange(0, i as int).to_multiset(),
        decreases n - i,
    {
        let x = items[i].clone();
        assert(x@ == all[i as int]);
        let xc = chars_of(x.as_str());
        let ghost sv = strings_view(out@);
        let mut j: usize = 0;
        while j < out.len() && !lex_lt_exec(xc.as_slice(), chars_of(out[j].as_str()).as_slice())
            invariant
                j <= out@.len(),
                sv == strings_view(out@),
                xc@ == x@,
                forall|k: int| 0 <= k < j ==> !lex_lt(x@, #[trigger] sv[k]),
            decreases out@.len() - j,
        {
            assert(sv[j as int] == out@[j as int]@);
            j = j + 1;
        }
        proof {
            if j < out@.len() {
                assert(sv[j as int] == out@[j as int]@);
            }
        }
        let ghost xv = x@;
        out.insert(j, x);
        proof {
            let nv = strings_view(out@);
            assert(nv =~= sv.insert(j as int, xv));
            lemma_lex_order_total();
            let r = lex_order();
            assert forall|a: int, b: int| 0 <= a < b < nv.len() implies #[trigger] r(nv[a], nv[b]) by {
                if b < j {
                    assert(r(sv[a], sv[b]));
                } else if b == j {
                    assert(!lex_lt(xv, sv[a]));
                } else if a == j {
                    assert(r(sv[j as int], sv[b - 1]) || j as int == b - 1);
                    if lex_lt(sv[b - 1], xv) {
                        if j as int == b - 1 {
                            lemma_lex_asymmetric(xv, sv[j as int]);
                        } else {
                            lemma_lex_transitive(sv[b - 1], xv, sv[j as int]);
                        }
                    }
                } else if a < j {
                    assert(r(sv[a], sv[b - 1]));
                } else {
                    assert(r(sv[a - 1], sv[b - 1]));
                }
            }
            assert(all.subrange(0, i + 1) =~= all.subrange(0, i as int).push(all[i as int]));
            vstd::seq_lib::to_multiset_insert(sv, j as int, xv);
            all.subrange(0, i as int).to_multiset_ensures();
        }
        i = i + 1;
    }
    proof {
        assert(all.subrange(0, n as int) =~= all);
        lemma_lex_order_total();
        all.lemma_sort_by_ensures(lex_order());
        vstd::seq_lib::lemma_sorted_unique(strings_view(out@), all.sort_by(lex_order()), lex_order());
    }
    out
}

} // verus!
