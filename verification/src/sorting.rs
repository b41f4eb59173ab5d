//! Sorting with removal of duplicates, for the reference lists of scripts.

use vstd::prelude::*;
use vstd::string::StringSliceAdditionalSpecFns;

verus! {

/// A strict total order on values, with an executable test.
pub trait SortKey: Sized {
    spec fn key_lt(self, other: Self) -> bool;

    proof fn lemma_irreflexive(a: Self)
        ensures
            !a.key_lt(a),
    ;

    proof fn lemma_transitive(a: Self, b: Self, c: Self)
        requires
            a.key_lt(b),
            b.key_lt(c),
        ensures
            a.key_lt(c),
    ;

    proof fn lemma_asymmetric(a: Self, b: Self)
        requires
            a.key_lt(b),
        ensures
            !b.key_lt(a),
    ;

    fn less(&self, other: &Self) -> (r: bool)
        ensures
            r == self.key_lt(*other),
    ;
}

/// Neither value comes before the other.
pub open spec fn same_key<T: SortKey>(a: T, b: T) -> bool {
    !a.key_lt(b) && !b.key_lt(a)
}

/// Strictly increasing.
pub open spec fn strictly_sorted<T: SortKey>(s: Seq<T>) -> bool {
    forall|i: int, j: int| 0 <= i < j < s.len() ==> (#[trigger] s[i]).key_lt(#[trigger] s[j])
}

/// Every value of `s` is one of `t`.
pub open spec fn drawn_from<T>(s: Seq<T>, t: Seq<T>) -> bool {
    forall|i: int| 0 <= i < s.len() ==> t.contains(#[trigger] s[i])
}

/// Some value of `s` is in the same place of the order as `v`.
pub open spec fn has_same<T: SortKey>(s: Seq<T>, v: T) -> bool {
    exists|q: int| 0 <= q < s.len() && same_key(#[trigger] s[q], v)
}

/// Every value of `t` has a value of `s` in the same place of the order.
pub open spec fn covers<T: SortKey>(s: Seq<T>, t: Seq<T>) -> bool {
    forall|p: int| 0 <= p < t.len() ==> has_same(s, #[trigger] t[p])
}

proof fn lemma_covers_insert<T: SortKey>(s: Seq<T>, t: Seq<T>, x: T, i: int)
    requires
        0 <= i <= s.len(),
        covers(s, t),
    ensures
        covers(s.insert(i, x), t.push(x)),
{
    assert forall|k: int| 0 <= k < t.push(x).len() implies has_same(s.insert(i, x), #[trigger] t.push(x)[k]) by {
        if k < t.len() {
            assert(t.push(x)[k] == t[k]);
            let j0 = choose|j: int| 0 <= j < s.len() && same_key(#[trigger] s[j], t[k]);
            assert(0 <= j0 < s.len() && same_key(s[j0], t[k]));
            if j0 < i {
                assert(s.insert(i, x)[j0] == s[j0]);
                assert(same_key(s.insert(i, x)[j0], t.push(x)[k]));
            } else {
                assert(s.insert(i, x)[j0 + 1] == s[j0]);
                assert(same_key(s.insert(i, x)[j0 + 1], t.push(x)[k]));
            }
        } else {
            T::lemma_irreflexive(x);
            assert(s.insert(i, x)[i] == x);
        }
    }
}

proof fn lemma_covers_same<T: SortKey>(s: Seq<T>, t: Seq<T>, x: T, i: int)
    requires
        0 <= i < s.len(),
        covers(s, t),
        same_key(s[i], x),
    ensures
        covers(s, t.push(x)),
{
    assert forall|k: int| 0 <= k < t.push(x).len() implies has_same(s, #[trigger] t.push(x)[k]) by {
        if k < t.len() {
            assert(t.push(x)[k] == t[k]);
        } else {
            assert(same_key(s[i], x));
        }
    }
}

/// Sorts `v` and keeps one of each run of values in the same place of the order.
pub fn sort_dedup<T: SortKey>(v: Vec<T>) -> (r: Vec<T>)
    ensures
        strictly_sorted(r@),
        drawn_from(r@, v@),
        covers(r@, v@),
{
    let ghost orig = v@;
    let mut v = v;
    let mut r: Vec<T> = Vec::new();
    let ghost mut taken: int = 0;
    while v.len() > 0
        invariant
            0 <= taken <= orig.len(),
            taken + v@.len() == orig.len(),
            v@ == orig.subrange(taken, orig.len() as int),
            strictly_sorted(r@),
            drawn_from(r@, orig),
            covers(r@, orig.subrange(0, taken)),
        decreases v@.len(),
    {
        let ghost before = r@;
        let ghost next = orig.subrange(0, taken + 1);
        let x = v.remove(0);
        assert(x == orig[taken]);
        // the first place whose value is not before x
        let mut i: usize = 0;
        while i < r.len() && r[i].less(&x)
            invariant
                0 <= i <= r@.len(),
                r@ == before,
                forall|k: int| 0 <= k < i ==> (#[trigger] r@[k]).key_lt(x),
            decreases r@.len() - i,
        {
            i = i + 1;
        }
        let dup = i < r.len() && !x.less(&r[i]);
        if !dup {
            r.insert(i, x);
            proof {
                assert forall|a: int, b: int| 0 <= a < b < r@.len() implies (#[trigger] r@[a]).key_lt(
                    #[trigger] r@[b],
                ) by {
                    if b == i {
                        assert(before[a] == r@[a]);
                    } else if a == i {
                        assert(r@[b] == before[b - 1]);
                        assert(!before[i as int].key_lt(x));
                        if b - 1 > i {
                            T::lemma_transitive(x, before[i as int], before[b - 1]);
                        }
                    } else if a < i && b > i {
                        assert(r@[b] == before[b - 1]);
                    } else if a > i {
                        assert(r@[a] == before[a - 1]);
                        assert(r@[b] == before[b - 1]);
                    }
                }
                assert(next =~= orig.subrange(0, taken).push(x));
                lemma_covers_insert(before, orig.subrange(0, taken), x, i as int);
                assert forall|k: int| 0 <= k < r@.len() implies orig.contains(#[trigger] r@[k]) by {
                    if k < i {
                        assert(r@[k] == before[k]);
                    } else if k == i {
                        assert(orig[taken] == x);
                    } else {
                        assert(r@[k] == before[k - 1]);
                    }
                }
            }
        } else {
            proof {
                assert(next =~= orig.subrange(0, taken).push(x));
                lemma_covers_same(before, orig.subrange(0, taken), x, i as int);
            }
        }
        proof {
            taken = taken + 1;
        }
        assert(v@ =~= orig.subrange(taken, orig.len() as int));
        assert(orig.subrange(0, taken) =~= next);
    }
    assert(orig.subrange(0, taken) =~= orig);
    r
}

impl SortKey for u32 {
    open spec fn key_lt(self, other: Self) -> bool {
        self < other
    }

    proof fn lemma_irreflexive(a: Self) {
    }

    proof fn lemma_transitive(a: Self, b: Self, c: Self) {
    }

    proof fn lemma_asymmetric(a: Self, b: Self) {
    }

    fn less(&self, other: &Self) -> (r: bool) {
        *self < *other
    }
}


/// Byte strings in lexicographic order: the first differing byte decides, and
/// a proper prefix comes first.
pub open spec fn bytes_lt(a: Seq<u8>, b: Seq<u8>) -> bool
    decreases a.len(),
{
    if a.len() == 0 {
        b.len() > 0
    } else if b.len() == 0 {
        false
    } else if a[0] != b[0] {
        a[0] < b[0]
    } else {
        bytes_lt(a.drop_first(), b.drop_first())
    }
}

pub proof fn lemma_bytes_lt_irreflexive(a: Seq<u8>)
    ensures
        !bytes_lt(a, a),
    decreases a.len(),
{
    if a.len() > 0 {
        lemma_bytes_lt_irreflexive(a.drop_first());
    }
}

pub proof fn lemma_bytes_lt_transitive(a: Seq<u8>, b: Seq<u8>, c: Seq<u8>)
    requires
        bytes_lt(a, b),
        bytes_lt(b, c),
    ensures
        bytes_lt(a, c),
    decreases a.len(),
{
    if a.len() > 0 && b.len() > 0 && c.len() > 0 && a[0] == b[0] && b[0] == c[0] {
        lemma_bytes_lt_transitive(a.drop_first(), b.drop_first(), c.drop_first());
    }
}

pub proof fn lemma_bytes_lt_asymmetric(a: Seq<u8>, b: Seq<u8>)
    requires
        bytes_lt(a, b),
    ensures
        !bytes_lt(b, a),
    decreases a.len(),
{
    if a.len() > 0 && b.len() > 0 && a[0] == b[0] {
        lemma_bytes_lt_asymmetric(a.drop_first(), b.drop_first());
    }
}

/// Of two byte strings, neither comes first only when they are equal.
pub proof fn lemma_bytes_lt_total(a: Seq<u8>, b: Seq<u8>)
    requires
        !bytes_lt(a, b),
        !bytes_lt(b, a),
    ensures
        a == b,
    decreases a.len(),
{
    if a.len() > 0 && b.len() > 0 {
        lemma_bytes_lt_total(a.drop_first(), b.drop_first());
        assert(a =~= seq![a[0]] + a.drop_first());
        assert(b =~= seq![b[0]] + b.drop_first());
    } else {
        assert(a =~= b);
    }
}

/// Compares two byte strings in lexicographic order.
pub fn bytes_less(a: &[u8], b: &[u8]) -> (r: bool)
    ensures
        r == bytes_lt(a@, b@),
{
    let mut i: usize = 0;
    assert(a@.skip(0) =~= a@);
    assert(b@.skip(0) =~= b@);
    while i < a.len() && i < b.len() && a[i] == b[i]
        invariant
            0 <= i <= a@.len(),
            i <= b@.len(),
            bytes_lt(a@, b@) == bytes_lt(a@.skip(i as int), b@.skip(i as int)),
        decreases a@.len() - i,
    {
        assert(a@.skip(i as int).drop_first() =~= a@.skip(i + 1));
        assert(b@.skip(i as int).drop_first() =~= b@.skip(i + 1));
        i = i + 1;
    }
    if i == a.len() {
        i < b.len()
    } else if i == b.len() {
        false
    } else {
        a[i] < b[i]
    }
}

impl<'a> SortKey for &'a str {
    open spec fn key_lt(self, other: Self) -> bool {
        bytes_lt(self.spec_bytes(), other.spec_bytes())
    }

    proof fn lemma_irreflexive(a: Self) {
        lemma_bytes_lt_irreflexive(a.spec_bytes());
    }

    proof fn lemma_transitive(a: Self, b: Self, c: Self) {
        lemma_bytes_lt_transitive(a.spec_bytes(), b.spec_bytes(), c.spec_bytes());
    }

    proof fn lemma_asymmetric(a: Self, b: Self) {
        lemma_bytes_lt_asymmetric(a.spec_bytes(), b.spec_bytes());
    }

    fn less(&self, other: &Self) -> (r: bool) {
        bytes_less(self.as_bytes(), other.as_bytes())
    }
}

/// The order of integers.
pub open spec fn u32_order() -> spec_fn(u32, u32) -> bool {
    |a: u32, b: u32| a < b
}

/// The lexicographic order of byte strings.
pub open spec fn bytes_order() -> spec_fn(Seq<u8>, Seq<u8>) -> bool {
    |a: Seq<u8>, b: Seq<u8>| bytes_lt(a, b)
}

/// `r` is strictly increasing under `lt` and holds exactly the values of `v`.
pub open spec fn sorted_set<T>(r: Seq<T>, v: Seq<T>, lt: spec_fn(T, T) -> bool) -> bool {
    &&& forall|i: int, j: int| 0 <= i < j < r.len() ==> lt(#[trigger] r[i], #[trigger] r[j])
    &&& forall|x: T| r.contains(x) <==> v.contains(x)
}

/// What `sort_dedup` gives for integers, stated as a sorted set.
pub proof fn lemma_sorted_set_u32(r: Seq<u32>, v: Seq<u32>)
    requires
        strictly_sorted(r),
        drawn_from(r, v),
        covers(r, v),
    ensures
        sorted_set(r, v, u32_order()),
{
    assert forall|x: u32| r.contains(x) <==> v.contains(x) by {
        if v.contains(x) {
            let p = choose|p: int| 0 <= p < v.len() && v[p] == x;
            assert(has_same(r, v[p]));
            let q = choose|q: int| 0 <= q < r.len() && same_key(#[trigger] r[q], v[p]);
            assert(r[q] == x);
        }
    }
}

/// What `sort_dedup` gives for strings, stated over their bytes.
pub proof fn lemma_sorted_set_str(r: Seq<&str>, v: Seq<&str>)
    requires
        strictly_sorted(r),
        drawn_from(r, v),
        covers(r, v),
    ensures
        sorted_set(
            r.map_values(|s: &str| s.spec_bytes()),
            v.map_values(|s: &str| s.spec_bytes()),
            bytes_order(),
        ),
{
    let rb = r.map_values(|s: &str| s.spec_bytes());
    let vb = v.map_values(|s: &str| s.spec_bytes());
    assert forall|i: int, j: int| 0 <= i < j < rb.len() implies bytes_lt(#[trigger] rb[i], #[trigger] rb[j]) by {
        assert(r[i].key_lt(r[j]));
    }
    assert forall|x: Seq<u8>| rb.contains(x) <==> vb.contains(x) by {
        if rb.contains(x) {
            let i = choose|i: int| 0 <= i < rb.len() && rb[i] == x;
            assert(v.contains(r[i]));
            let p = choose|p: int| 0 <= p < v.len() && v[p] == r[i];
            assert(vb[p] == x);
        }
        if vb.contains(x) {
            let p = choose|p: int| 0 <= p < vb.len() && vb[p] == x;
            assert(has_same(r, v[p]));
            let q = choose|q: int| 0 <= q < r.len() && same_key(#[trigger] r[q], v[p]);
            lemma_bytes_lt_total(r[q].spec_bytes(), v[p].spec_bytes());
            assert(rb[q] == x);
        }
    }
}

/// `lt` is a strict total order.
pub open spec fn strict_total<A>(lt: spec_fn(A, A) -> bool) -> bool {
    &&& forall|x: A| !(#[trigger] lt(x, x))
    &&& forall|x: A, y: A, z: A| #[trigger] lt(x, y) && #[trigger] lt(y, z) ==> lt(x, z)
    &&& forall|x: A, y: A| x != y ==> #[trigger] lt(x, y) || lt(y, x)
}

/// Under a strict total order, a strictly increasing list is determined by
/// the values it holds.
pub proof fn lemma_sorted_set_unique<A>(a: Seq<A>, b: Seq<A>, v: Seq<A>, lt: spec_fn(A, A) -> bool)
    requires
        strict_total(lt),
        sorted_set(a, v, lt),
        sorted_set(b, v, lt),
    ensures
        a == b,
    decreases a.len(),
{
    if a.len() == 0 {
        if b.len() > 0 {
            assert(b.contains(b[0]));
        }
        assert(a =~= b);
    } else {
        assert(a.contains(a[0]));
        assert(b.len() > 0);
        assert(b.contains(b[0]));
        let i = choose|i: int| 0 <= i < b.len() && b[i] == a[0];
        let j = choose|j: int| 0 <= j < a.len() && a[j] == b[0];
        if a[0] != b[0] {
            assert(i > 0 && j > 0);
            assert(lt(b[0], b[i]));
            assert(lt(a[0], a[j]));
            assert(lt(a[0], a[0]));
        }
        let a1 = a.drop_first();
        let b1 = b.drop_first();
        let v1 = a1;
        assert forall|x: A| b1.contains(x) <==> v1.contains(x) by {
            if b1.contains(x) {
                let k = choose|k: int| 0 <= k < b1.len() && b1[k] == x;
                assert(b.contains(x) && b[k + 1] == x);
                assert(a.contains(x));
                let m = choose|m: int| 0 <= m < a.len() && a[m] == x;
                if m == 0 {
                    assert(lt(b[0], b[k + 1]));
                    assert(lt(x, x));
                }
                assert(a1[m - 1] == x);
            }
            if v1.contains(x) {
                let k = choose|k: int| 0 <= k < a1.len() && a1[k] == x;
                assert(a[k + 1] == x);
                assert(a.contains(x));
                assert(b.contains(x));
                let m = choose|m: int| 0 <= m < b.len() && b[m] == x;
                if m == 0 {
                    assert(lt(a[0], a[k + 1]));
                    assert(lt(x, x));
                }
                assert(b1[m - 1] == x);
            }
        }
        assert forall|x: A| a1.contains(x) <==> v1.contains(x) by {}
        assert forall|p: int, q: int| 0 <= p < q < a1.len() implies lt(#[trigger] a1[p], #[trigger] a1[q]) by {
            assert(a1[p] == a[p + 1] && a1[q] == a[q + 1]);
        }
        assert forall|p: int, q: int| 0 <= p < q < b1.len() implies lt(#[trigger] b1[p], #[trigger] b1[q]) by {
            assert(b1[p] == b[p + 1] && b1[q] == b[q + 1]);
        }
        lemma_sorted_set_unique(a1, b1, v1, lt);
        assert(a =~= seq![a[0]] + a1);
        assert(b =~= seq![b[0]] + b1);
    }
}

pub proof fn lemma_u32_order_total()
    ensures
        strict_total(u32_order()),
{
}

pub proof fn lemma_bytes_order_total()
    ensures
        strict_total(bytes_order()),
{
    assert forall|x: Seq<u8>| !(#[trigger] bytes_order()(x, x)) by {
        lemma_bytes_lt_irreflexive(x);
    }
    assert forall|x: Seq<u8>, y: Seq<u8>, z: Seq<u8>|
        #[trigger] bytes_order()(x, y) && #[trigger] bytes_order()(y, z) implies bytes_order()(x, z) by {
        lemma_bytes_lt_transitive(x, y, z);
    }
    assert forall|x: Seq<u8>, y: Seq<u8>| x != y implies #[trigger] bytes_order()(x, y) || bytes_order()(
        y,
        x,
    ) by {
        if !bytes_lt(x, y) && !bytes_lt(y, x) {
            lemma_bytes_lt_total(x, y);
        }
    }
}

/// The strictly increasing list of the values of `v`, under `lt`.
pub open spec fn sorted_of<A>(v: Seq<A>, lt: spec_fn(A, A) -> bool) -> Seq<A> {
    choose|s: Seq<A>| sorted_set(s, v, lt)
}

/// A strictly increasing list of the values of `v` is the one `sorted_of` names.
pub proof fn lemma_sorted_of<A>(r: Seq<A>, v: Seq<A>, lt: spec_fn(A, A) -> bool)
    requires
        strict_total(lt),
        sorted_set(r, v, lt),
    ensures
        sorted_of(v, lt) == r,
{
    let s = sorted_of(v, lt);
    assert(sorted_set(s, v, lt));
    lemma_sorted_set_unique(s, r, v, lt);
}

} // verus!
