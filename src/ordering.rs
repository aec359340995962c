//! Names: the check for blank names and the ascending, stable order by name
//! shared by profile and parameter sets.

use vstd::prelude::*;
use vstd::string::StrSliceExecFns;

verus! {

/// The characters with the Unicode `White_Space` property.
pub open spec fn is_white_space(c: char) -> bool {
    let n = c as u32;
    (0x9 <= n <= 0xd) || n == 0x20 || n == 0x85 || n == 0xa0 || n == 0x1680 || (0x2000 <= n
        <= 0x200a) || n == 0x2028 || n == 0x2029 || n == 0x202f || n == 0x205f || n == 0x3000
}

/// A text is blank when it is empty or made of white space only.
pub open spec fn is_blank(s: Seq<char>) -> bool {
    forall|i: int| 0 <= i < s.len() ==> is_white_space(#[trigger] s[i])
}

/// Lexicographic order of texts by code point, which is also the byte order
/// of their UTF-8 encodings.
pub open spec fn text_le(a: Seq<char>, b: Seq<char>) -> bool
    decreases a.len(),
{
    if a.len() == 0 {
        true
    } else if b.len() == 0 {
        false
    } else if (a[0] as u32) != (b[0] as u32) {
        (a[0] as u32) < (b[0] as u32)
    } else {
        text_le(a.drop_first(), b.drop_first())
    }
}

pub proof fn lemma_text_le_reflexive(a: Seq<char>)
    ensures
        text_le(a, a),
    decreases a.len(),
{
    if a.len() > 0 {
        lemma_text_le_reflexive(a.drop_first());
    }
}

pub proof fn lemma_text_le_total(a: Seq<char>, b: Seq<char>)
    ensures
        text_le(a, b) || text_le(b, a),
    decreases a.len(),
{
    if a.len() > 0 && b.len() > 0 && (a[0] as u32) == (b[0] as u32) {
        lemma_text_le_total(a.drop_first(), b.drop_first());
    }
}

pub proof fn lemma_text_le_antisymmetric(a: Seq<char>, b: Seq<char>)
    requires
        text_le(a, b),
        text_le(b, a),
    ensures
        a == b,
    decreases a.len(),
{
    if a.len() > 0 && b.len() > 0 {
        lemma_text_le_antisymmetric(a.drop_first(), b.drop_first());
        vstd::utf8::char_u32_cast(a[0], a[0] as u32);
        vstd::utf8::char_u32_cast(b[0], b[0] as u32);
        assert(a =~= seq![a[0]] + a.drop_first());
        assert(b =~= seq![b[0]] + b.drop_first());
    }
}

pub proof fn lemma_text_le_transitive(a: Seq<char>, b: Seq<char>, c: Seq<char>)
    requires
        text_le(a, b),
        text_le(b, c),
    ensures
        text_le(a, c),
    decreases a.len(),
{
    if a.len() > 0 && b.len() > 0 && c.len() > 0 && (a[0] as u32) == (b[0] as u32) && (b[0] as u32)
        == (c[0] as u32) {
        lemma_text_le_transitive(a.drop_first(), b.drop_first(), c.drop_first());
    }
}

/// Whether `s` is empty or all white space.
pub fn is_blank_text(s: &str) -> (r: bool)
    ensures
        r == is_blank(s@),
{
    let n = s.unicode_len();
    let mut i: usize = 0;
    while i < n
        invariant
            n == s@.len(),
            i <= n,
            forall|j: int| 0 <= j < i ==> is_white_space(#[trigger] s@[j]),
        decreases n - i,
    {
        let c = s.get_char(i);
        let v = c as u32;
        let white = (0x9 <= v && v <= 0xd) || v == 0x20 || v == 0x85 || v == 0xa0 || v == 0x1680
            || (0x2000 <= v && v <= 0x200a) || v == 0x2028 || v == 0x2029 || v == 0x202f || v
            == 0x205f || v == 0x3000;
        if !white {
            assert(!is_white_space(s@[i as int]));
            return false;
        }
        i = i + 1;
    }
    true
}

/// Whether `a` comes before `b`, or equals it, in the order of texts.
pub fn text_precedes_or_equals(a: &str, b: &str) -> (r: bool)
    ensures
        r == text_le(a@, b@),
{
    let na = a.unicode_len();
    let nb = b.unicode_len();
    let mut i: usize = 0;
    assert(a@.subrange(0, na as int) =~= a@);
    assert(b@.subrange(0, nb as int) =~= b@);
    while i < na && i < nb
        invariant
            na == a@.len(),
            nb == b@.len(),
            i <= na,
            i <= nb,
            text_le(a@, b@) == text_le(a@.subrange(i as int, na as int), b@.subrange(i as int, nb as int)),
        decreases na - i,
    {
        let ca = a.get_char(i);
        let cb = b.get_char(i);
        let ghost ra = a@.subrange(i as int, na as int);
        let ghost rb = b@.subrange(i as int, nb as int);
        assert(ra[0] == ca && rb[0] == cb);
        if ca != cb {
            return (ca as u32) < (cb as u32);
        }
        assert(ra.drop_first() =~= a@.subrange(i + 1, na as int));
        assert(rb.drop_first() =~= b@.subrange(i + 1, nb as int));
        i = i + 1;
    }
    i == na
}

/// Values ordered by a name.
pub trait Named {
    /// The name, as text.
    spec fn key(&self) -> Seq<char>;

    fn name_text(&self) -> (r: &str)
        ensures
            r@ == self.key(),
    ;
}

/// Names never decrease along `s`.
pub open spec fn sorted_by_name<T: Named>(s: Seq<T>) -> bool {
    forall|i: int, j: int| 0 <= i < j < s.len() ==> text_le(#[trigger] s[i].key(), #[trigger] s[j].key())
}

/// The values of `s` named `k`, in their order in `s`.
pub open spec fn named<T: Named>(s: Seq<T>, k: Seq<char>) -> Seq<T>
    decreases s.len(),
{
    if s.len() == 0 {
        Seq::empty()
    } else if s.last().key() == k {
        named(s.drop_last(), k).push(s.last())
    } else {
        named(s.drop_last(), k)
    }
}

/// `after` holds the values of `before` in ascending order of name, and
/// values of equal name keep their relative order.
pub open spec fn stably_sorted<T: Named>(before: Seq<T>, after: Seq<T>) -> bool {
    &&& sorted_by_name(after)
    &&& forall|k: Seq<char>| #[trigger] named(after, k) == named(before, k)
}

pub proof fn lemma_named_add<T: Named>(a: Seq<T>, b: Seq<T>, k: Seq<char>)
    ensures
        named(a + b, k) == named(a, k) + named(b, k),
    decreases b.len(),
{
    if b.len() == 0 {
        assert(a + b =~= a);
        assert(named(a, k) + named(b, k) =~= named(a, k));
    } else {
        lemma_named_add(a, b.drop_last(), k);
        assert((a + b).drop_last() =~= a + b.drop_last());
        assert((a + b).last() == b.last());
        if b.last().key() == k {
            assert(named(a, k) + named(b.drop_last(), k).push(b.last()) =~= (named(a, k) + named(
                b.drop_last(),
                k,
            )).push(b.last()));
        }
    }
}

pub proof fn lemma_named_absent<T: Named>(s: Seq<T>, k: Seq<char>)
    requires
        forall|i: int| 0 <= i < s.len() ==> (#[trigger] s[i]).key() != k,
    ensures
        named(s, k) == Seq::<T>::empty(),
    decreases s.len(),
{
    if s.len() > 0 {
        lemma_named_absent(s.drop_last(), k);
    }
}

/// A value named `k` comes out of `named(s, k)` only if `s` holds one.
pub proof fn lemma_named_nonempty<T: Named>(s: Seq<T>, k: Seq<char>)
    requires
        named(s, k).len() > 0,
    ensures
        exists|i: int| 0 <= i < s.len() && (#[trigger] s[i]).key() == k,
    decreases s.len(),
{
    if s.last().key() != k {
        lemma_named_nonempty(s.drop_last(), k);
        let i = choose|i: int| 0 <= i < s.drop_last().len() && (#[trigger] s.drop_last()[i]).key() == k;
        assert(s[i] == s.drop_last()[i]);
    } else {
        assert(s[s.len() - 1].key() == k);
    }
}

/// Two name-sorted sequences with the same values of each name, in the same
/// order, are equal.
pub proof fn lemma_stable_order_unique<T: Named>(a: Seq<T>, b: Seq<T>)
    requires
        sorted_by_name(a),
        sorted_by_name(b),
        forall|k: Seq<char>| #[trigger] named(a, k) == named(b, k),
    ensures
        a == b,
    decreases a.len() + b.len(),
{
    if a.len() == 0 && b.len() == 0 {
        assert(a =~= b);
    } else if a.len() == 0 {
        let k = b.last().key();
        assert(named(b, k).len() > 0);
        assert(named(a, k) =~= Seq::<T>::empty());
    } else if b.len() == 0 {
        let k = a.last().key();
        assert(named(a, k).len() > 0);
        assert(named(b, k) =~= Seq::<T>::empty());
    } else {
        let la = a.last();
        let lb = b.last();
        let ka = la.key();
        let kb = lb.key();
        assert(named(b, ka).len() > 0) by {
            assert(named(a, ka) == named(a.drop_last(), ka).push(la));
        }
        lemma_named_nonempty(b, ka);
        let i = choose|i: int| 0 <= i < b.len() && (#[trigger] b[i]).key() == ka;
        if i < b.len() - 1 {
            assert(text_le(b[i].key(), b[b.len() - 1].key()));
        } else {
            lemma_text_le_reflexive(ka);
        }
        assert(named(a, kb).len() > 0) by {
            assert(named(b, kb) == named(b.drop_last(), kb).push(lb));
        }
        lemma_named_nonempty(a, kb);
        let j = choose|j: int| 0 <= j < a.len() && (#[trigger] a[j]).key() == kb;
        if j < a.len() - 1 {
            assert(text_le(a[j].key(), a[a.len() - 1].key()));
        } else {
            lemma_text_le_reflexive(kb);
        }
        lemma_text_le_antisymmetric(ka, kb);
        assert(named(a, ka) == named(a.drop_last(), ka).push(la));
        assert(named(b, ka) == named(b.drop_last(), ka).push(lb));
        assert(la == named(a, ka).last());
        assert(lb == named(b, ka).last());
        assert forall|k: Seq<char>| #[trigger]
            named(a.drop_last(), k) == named(b.drop_last(), k) by {
            if k == ka {
                assert(named(a.drop_last(), k) =~= named(a, k).drop_last());
                assert(named(b.drop_last(), k) =~= named(b, k).drop_last());
            } else {
                assert(named(a, k) == named(a.drop_last(), k));
                assert(named(b, k) == named(b.drop_last(), k));
            }
        }
        lemma_stable_order_unique(a.drop_last(), b.drop_last());
        assert(a =~= a.drop_last().push(la));
        assert(b =~= b.drop_last().push(lb));
    }
}

/// Sorts `items` by ascending name; values of equal name keep their order.
pub fn stable_sort_by_name<T: Named>(items: Vec<T>) -> (r: Vec<T>)
    ensures
        stably_sorted(items@, r@),
{
    let ghost unsorted = items@;
    let mut rest = items;
    let mut out: Vec<T> = Vec::new();
    let ghost mut done: int = 0;
    while rest.len() > 0
        invariant
            0 <= done <= unsorted.len(),
            rest@ == unsorted.subrange(done, unsorted.len() as int),
            sorted_by_name(out@),
            forall|k: Seq<char>| #[trigger] named(out@, k) == named(unsorted.subrange(0, done), k),
        decreases rest.len(),
    {
        let x = rest.remove(0);
        let ghost kx = x.key();
        let mut p: usize = 0;
        while p < out.len() && text_precedes_or_equals(out[p].name_text(), x.name_text())
            invariant
                p <= out.len(),
                kx == x.key(),
                forall|j: int| 0 <= j < p ==> text_le((#[trigger] out@[j]).key(), kx),
            decreases out.len() - p,
        {
            p = p + 1;
        }
        let ghost before = out@;
        proof {
            if p < before.len() {
                assert(!text_le(before[p as int].key(), kx));
                lemma_text_le_total(before[p as int].key(), kx);
            }
            assert forall|j: int| p <= j < before.len() implies !text_le(
                (#[trigger] before[j]).key(),
                kx,
            ) && text_le(kx, before[j].key()) by {
                if j > p {
                    if text_le(before[j].key(), kx) {
                        lemma_text_le_transitive(before[p as int].key(), before[j].key(), kx);
                    }
                    lemma_text_le_transitive(kx, before[p as int].key(), before[j].key());
                }
            }
        }
        out.insert(p, x);
        proof {
            let lo = before.subrange(0, p as int);
            let hi = before.subrange(p as int, before.len() as int);
            assert(before =~= lo + hi);
            assert(out@ =~= lo + seq![x] + hi);
            assert(sorted_by_name(out@)) by {
                assert forall|i: int, j: int| 0 <= i < j < out@.len() implies text_le(
                    #[trigger] out@[i].key(),
                    #[trigger] out@[j].key(),
                ) by {
                    if j < p {
                    } else if j == p {
                    } else if i < p {
                        lemma_text_le_transitive(out@[i].key(), kx, out@[j].key());
                    } else if i == p {
                    } else {
                    }
                }
            }
            let prefix = unsorted.subrange(0, done);
            assert(unsorted.subrange(0, done + 1) =~= prefix.push(x));
            assert forall|k: Seq<char>| #[trigger]
                named(out@, k) == named(unsorted.subrange(0, done + 1), k) by {
                lemma_named_add(lo + seq![x], hi, k);
                lemma_named_add(lo, seq![x], k);
                lemma_named_add(lo, hi, k);
                assert(seq![x].drop_last() =~= Seq::<T>::empty());
                assert(seq![x].last() == x);
                assert(named(Seq::<T>::empty(), k) =~= Seq::<T>::empty());
                assert(named(prefix.push(x), k) == if kx == k {
                    named(prefix, k).push(x)
                } else {
                    named(prefix, k)
                }) by {
                    assert(prefix.push(x).drop_last() =~= prefix);
                }
                if kx == k {
                    assert(named(seq![x], k) =~= seq![x]);
                    assert forall|i: int| 0 <= i < hi.len() implies (#[trigger] hi[i]).key() != k by {
                        assert(hi[i] == before[p + i]);
                        lemma_text_le_reflexive(kx);
                    }
                    lemma_named_absent(hi, k);
                    assert(named(lo, k) + seq![x] + Seq::<T>::empty() =~= named(lo, k).push(x));
                    assert(named(lo, k) + Seq::<T>::empty() =~= named(lo, k));
                } else {
                    assert(named(seq![x], k) =~= Seq::<T>::empty());
                    assert(named(lo, k) + Seq::<T>::empty() =~= named(lo, k));
                }
            }
            done = done + 1;
        }
    }
    proof {
        assert(unsorted.subrange(0, done) =~= unsorted);
    }
    out
}

} // verus!
