//! The order in which the items of a container are listed, and a stable sort by it.
use vstd::prelude::*;
use vstd::multiset::Multiset;
use vstd::seq_lib::{to_multiset_build, to_multiset_insert};

verus! {

/// What items are ordered by: a class, a rank within it, a name, and a UUID, compared in
/// that order.
pub struct SortKey {
    pub class: u8,
    pub rank: u8,
    pub name: Vec<char>,
    pub uuid: u128,
}

/// The mathematical form of a sort key.
pub type KeyView = (u8, u8, Seq<char>, u128);

impl SortKey {
    pub open spec fn view_key(&self) -> KeyView {
        (self.class, self.rank, self.name@, self.uuid)
    }
}

/// `a` comes strictly before `b` in lexicographic order of character code points (the
/// order of `str`'s comparison, which compares the UTF-8 bytes).
pub open spec fn chars_before(a: Seq<char>, b: Seq<char>) -> bool
    decreases a.len(),
{
    if b.len() == 0 {
        false
    } else if a.len() == 0 {
        true
    } else if a[0] != b[0] {
        (a[0] as int) < (b[0] as int)
    } else {
        chars_before(a.drop_first(), b.drop_first())
    }
}

/// Key `a` comes strictly before key `b`.
pub open spec fn key_before(a: KeyView, b: KeyView) -> bool {
    ||| a.0 < b.0
    ||| a.0 == b.0 && a.1 < b.1
    ||| a.0 == b.0 && a.1 == b.1 && chars_before(a.2, b.2)
    ||| a.0 == b.0 && a.1 == b.1 && a.2 == b.2 && a.3 < b.3
}

/// No string comes before itself.
pub proof fn lemma_chars_before_irreflexive(a: Seq<char>)
    ensures
        !chars_before(a, a),
    decreases a.len(),
{
    if a.len() > 0 {
        lemma_chars_before_irreflexive(a.drop_first());
    }
}

/// The string order is transitive.
pub proof fn lemma_chars_before_transitive(a: Seq<char>, b: Seq<char>, c: Seq<char>)
    requires
        chars_before(a, b),
        chars_before(b, c),
    ensures
        chars_before(a, c),
    decreases a.len(),
{
    if a.len() > 0 && b.len() > 0 && c.len() > 0 && a[0] == b[0] && b[0] == c[0] {
        lemma_chars_before_transitive(a.drop_first(), b.drop_first(), c.drop_first());
    }
}

/// Of two different strings, one comes before the other.
pub proof fn lemma_chars_before_total(a: Seq<char>, b: Seq<char>)
    ensures
        a =~= b || chars_before(a, b) || chars_before(b, a),
    decreases a.len(),
{
    if a.len() > 0 && b.len() > 0 && a[0] == b[0] {
        lemma_chars_before_total(a.drop_first(), b.drop_first());
        if a.drop_first() =~= b.drop_first() {
            assert(a =~= seq![a[0]] + a.drop_first());
            assert(b =~= seq![b[0]] + b.drop_first());
        }
    }
    if a.len() > 0 && b.len() > 0 && a[0] != b[0] {
        assert((a[0] as int) != (b[0] as int));
    }
}

/// The key order is a strict total order.
pub proof fn lemma_key_order(a: KeyView, b: KeyView, c: KeyView)
    ensures
        !key_before(a, a),
        key_before(a, b) && key_before(b, c) ==> key_before(a, c),
        a == b || key_before(a, b) || key_before(b, a),
{
    lemma_chars_before_irreflexive(a.2);
    lemma_chars_before_total(a.2, b.2);
    if key_before(a, b) && key_before(b, c) {
        if chars_before(a.2, b.2) && chars_before(b.2, c.2) {
            lemma_chars_before_transitive(a.2, b.2, c.2);
        }
    }
}

/// Compares two character strings in lexicographic code point order.
pub fn chars_before_exec(a: &[char], b: &[char]) -> (r: bool)
    ensures
        r == chars_before(a@, b@),
{
    let mut i: usize = 0;
    assert(a@.skip(0) =~= a@);
    assert(b@.skip(0) =~= b@);
    while i < a.len() && i < b.len()
        invariant
            i <= a@.len(),
            i <= b@.len(),
            chars_before(a@, b@) == chars_before(a@.skip(i as int), b@.skip(i as int)),
        decreases a@.len() - i,
    {
        if a[i] != b[i] {
            return a[i] < b[i];
        }
        assert(a@.skip(i as int).drop_first() =~= a@.skip(i + 1));
        assert(b@.skip(i as int).drop_first() =~= b@.skip(i + 1));
        i = i + 1;
    }
    i == a.len() && i < b.len()
}

/// Compares two sort keys.
pub fn key_before_exec(a: &SortKey, b: &SortKey) -> (r: bool)
    ensures
        r == key_before(a.view_key(), b.view_key()),
{
    if a.class != b.class {
        return a.class < b.class;
    }
    if a.rank != b.rank {
        return a.rank < b.rank;
    }
    if chars_before_exec(a.name.as_slice(), b.name.as_slice()) {
        return true;
    }
    if chars_before_exec(b.name.as_slice(), a.name.as_slice()) {
        return false;
    }
    proof {
        lemma_chars_before_total(a.name@, b.name@);
    }
    a.uuid < b.uuid
}

/// No item of `s` comes after a later one.
pub open spec fn sorted_by_key<T>(s: Seq<T>, key: spec_fn(T) -> KeyView) -> bool {
    forall|i: int, j: int| 0 <= i < j < s.len() ==> !key_before(key(s[j]), key(s[i]))
}

/// The position where an item with key `x` goes into `s`: before the first item that does
/// not come before it.
pub open spec fn first_not_before<T>(s: Seq<T>, x: KeyView, key: spec_fn(T) -> KeyView) -> int
    decreases s.len(),
{
    if s.len() == 0 {
        0
    } else if key_before(key(s[0]), x) {
        1 + first_not_before(s.drop_first(), x, key)
    } else {
        0
    }
}

/// `s` sorted by key, items with equal keys keeping their order: each item is put, from the
/// last to the first, in front of the sorted items that do not come before it.
pub open spec fn sort_by_key<T>(s: Seq<T>, key: spec_fn(T) -> KeyView) -> Seq<T>
    decreases s.len(),
{
    if s.len() == 0 {
        s
    } else {
        let rest = sort_by_key(s.drop_first(), key);
        rest.insert(first_not_before(rest, key(s[0]), key), s[0])
    }
}

/// The insertion position is the first position whose item does not come before the key.
proof fn lemma_first_not_before<T>(s: Seq<T>, x: KeyView, key: spec_fn(T) -> KeyView, p: int)
    requires
        0 <= p <= s.len(),
        forall|i: int| 0 <= i < p ==> key_before(key(#[trigger] s[i]), x),
        p == s.len() || !key_before(key(s[p]), x),
    ensures
        first_not_before(s, x, key) == p,
    decreases p,
{
    if p > 0 {
        assert forall|i: int| 0 <= i < p - 1 implies key_before(key(#[trigger] s.drop_first()[i]), x) by {
            assert(s.drop_first()[i] == s[i + 1]);
        }
        if p - 1 < s.drop_first().len() {
            assert(s.drop_first()[p - 1] == s[p]);
        }
        assert(key_before(key(s[0]), x));
        lemma_first_not_before(s.drop_first(), x, key, p - 1);
    }
}

/// Sorts items by their keys, keeping items with equal keys in their order; `keys` holds the
/// key of each item.
pub fn sort_by_keys<T>(items: Vec<T>, keys: Vec<SortKey>, Ghost(key): Ghost<spec_fn(T) -> KeyView>) -> (r: Vec<T>)
    requires
        keys@.len() == items@.len(),
        forall|i: int| 0 <= i < items@.len() ==> (#[trigger] keys@[i]).view_key() == key(items@[i]),
    ensures
        r@ == sort_by_key(items@, key),
        r@.to_multiset() == items@.to_multiset(),
        sorted_by_key(r@, key),
{
    broadcast use {vstd::multiset::group_multiset_axioms, vstd::seq_lib::group_to_multiset_ensures};
    let ghost orig = items@;
    let mut items = items;
    let mut keys = keys;
    let mut res: Vec<T> = Vec::new();
    let mut res_keys: Vec<SortKey> = Vec::new();
    assert(res@.to_multiset() =~= Multiset::empty());
    assert(orig.take(orig.len() as int) =~= orig);
    assert(orig.skip(orig.len() as int) =~= Seq::<T>::empty());
    while items.len() > 0
        invariant
            keys@.len() == items@.len(),
            forall|i: int| 0 <= i < items@.len() ==> (#[trigger] keys@[i]).view_key() == key(items@[i]),
            res_keys@.len() == res@.len(),
            forall|i: int| 0 <= i < res@.len() ==> (#[trigger] res_keys@[i]).view_key() == key(res@[i]),
            sorted_by_key(res@, key),
            res@.to_multiset().add(items@.to_multiset()) == orig.to_multiset(),
            items@.len() <= orig.len(),
            items@ == orig.take(items@.len() as int),
            res@ == sort_by_key(orig.skip(items@.len() as int), key),
        decreases items@.len(),
    {
        let ghost before = items@;
        let x = items.pop().unwrap();
        let k = keys.pop().unwrap();
        proof {
            assert(before =~= items@.push(x));
            to_multiset_build(items@, x);
        }
        let mut pos: usize = 0;
        while pos < res.len() && key_before_exec(&res_keys[pos], &k)
            invariant
                pos <= res@.len(),
                res_keys@.len() == res@.len(),
                forall|i: int| 0 <= i < res@.len() ==> (#[trigger] res_keys@[i]).view_key() == key(res@[i]),
                forall|i: int| 0 <= i < pos ==> key_before(key(#[trigger] res@[i]), k.view_key()),
            decreases res@.len() - pos,
        {
            pos = pos + 1;
        }
        let ghost old_res = res@;
        let ghost old_keys = res_keys@;
        proof {
            lemma_first_not_before(old_res, k.view_key(), key, pos as int);
            let n = items@.len() as int;
            assert(orig.skip(n).drop_first() =~= orig.skip(n + 1));
            assert(orig.skip(n)[0] == x);
            assert(items@ =~= orig.take(n));
        }
        proof {
            assert forall|i: int| pos <= i < old_res.len() implies !key_before(
                key(#[trigger] old_res[i]),
                k.view_key(),
            ) by {
                if pos < old_res.len() {
                    assert(!key_before(key(old_res[pos as int]), k.view_key()));
                    if i > pos {
                        assert(!key_before(key(old_res[i]), key(old_res[pos as int])));
                        lemma_key_order(key(old_res[i]), key(old_res[pos as int]), k.view_key());
                        lemma_key_order(key(old_res[pos as int]), key(old_res[i]), k.view_key());
                    }
                }
            }
            to_multiset_insert(old_res, pos as int, x);
        }
        res.insert(pos, x);
        res_keys.insert(pos, k);
        proof {
            assert forall|i: int, j: int| 0 <= i < j < res@.len() implies !key_before(
                key(res@[j]),
                key(res@[i]),
            ) by {
                let kx = k.view_key();
                if i < pos && j == pos {
                    lemma_key_order(kx, key(old_res[i]), kx);
                } else if i < pos && j > pos {
                    assert(res@[j] == old_res[j - 1]);
                    assert(key_before(key(old_res[i]), kx));
                    assert(!key_before(key(old_res[j - 1]), kx));
                    lemma_key_order(key(old_res[j - 1]), key(old_res[i]), kx);
                    lemma_key_order(key(old_res[i]), kx, key(old_res[j - 1]));
                } else if i == pos {
                    assert(res@[j] == old_res[j - 1]);
                } else if i < pos {
                    assert(res@[j] == old_res[j]);
                } else {
                    assert(res@[i] == old_res[i - 1]);
                    assert(res@[j] == old_res[j - 1]);
                }
            }
            assert forall|i: int| 0 <= i < res@.len() implies (#[trigger] res_keys@[i]).view_key() == key(
                res@[i],
            ) by {
                if i < pos {
                } else if i == pos {
                } else {
                    assert(res_keys@[i] == old_keys[i - 1]);
                }
            }
        }
    }
    assert(items@.to_multiset() =~= Multiset::empty());
    assert(orig.skip(0) =~= orig);
    res
}


/// Sorting what is sorted already leaves it as it is.
pub proof fn lemma_sort_sorted<T>(s: Seq<T>, key: spec_fn(T) -> KeyView)
    requires
        sorted_by_key(s, key),
    ensures
        sort_by_key(s, key) == s,
    decreases s.len(),
{
    if s.len() > 0 {
        let t = s.drop_first();
        assert(sorted_by_key(t, key)) by {
            assert forall|i: int, j: int| 0 <= i < j < t.len() implies !key_before(key(t[j]), key(t[i])) by {
                assert(t[i] == s[i + 1] && t[j] == s[j + 1]);
            }
        }
        lemma_sort_sorted(t, key);
        if t.len() > 0 {
            assert(t[0] == s[1]);
            assert(!key_before(key(s[1]), key(s[0])));
        }
        assert(first_not_before(t, key(s[0]), key) == 0);
        assert(t.insert(0, s[0]) =~= s);
    }
}


/// What `sort_by_key` gives is sorted and holds the same items.
pub proof fn lemma_sort_sorted_facts<T>(s: Seq<T>, key: spec_fn(T) -> KeyView)
    ensures
        sorted_by_key(sort_by_key(s, key), key),
        sort_by_key(s, key).to_multiset() == s.to_multiset(),
        sort_by_key(s, key).len() == s.len(),
    decreases s.len(),
{
    broadcast use {vstd::multiset::group_multiset_axioms, vstd::seq_lib::group_to_multiset_ensures};
    if s.len() > 0 {
        let rest = sort_by_key(s.drop_first(), key);
        lemma_sort_sorted_facts(s.drop_first(), key);
        let x = s[0];
        let kx = key(x);
        let p = first_not_before(rest, kx, key);
        lemma_first_not_before_facts(rest, kx, key);
        to_multiset_insert(rest, p, x);
        assert(s =~= seq![x] + s.drop_first());
        assert(s.drop_first().to_multiset().insert(x) =~= s.to_multiset()) by {
            assert(s.drop_first().push(x).to_multiset() =~= s.drop_first().to_multiset().insert(x));
            vstd::seq_lib::lemma_multiset_commutative(seq![x], s.drop_first());
            assert(seq![x] + s.drop_first() == s);
            assert(seq![x].to_multiset() =~= Multiset::empty().insert(x)) by {
                assert(seq![x] =~= Seq::<T>::empty().push(x));
                to_multiset_build(Seq::<T>::empty(), x);
            }
        }
        let r = rest.insert(p, x);
        assert forall|i: int, j: int| 0 <= i < j < r.len() implies !key_before(key(r[j]), key(r[i])) by {
            if i < p && j == p {
                lemma_key_order(kx, key(rest[i]), kx);
            } else if i < p && j > p {
                assert(r[j] == rest[j - 1]);
                lemma_key_order(key(rest[j - 1]), key(rest[i]), kx);
                lemma_key_order(key(rest[i]), kx, key(rest[j - 1]));
            } else if i == p {
                assert(r[j] == rest[j - 1]);
            } else if i < p {
                assert(r[j] == rest[j]);
            } else {
                assert(r[i] == rest[i - 1]);
                assert(r[j] == rest[j - 1]);
            }
        }
    } else {
        assert(s.to_multiset() =~= Multiset::empty());
    }
}

/// Everything before the insertion position comes before the key; nothing from it on does.
pub proof fn lemma_first_not_before_facts<T>(s: Seq<T>, x: KeyView, key: spec_fn(T) -> KeyView)
    requires
        sorted_by_key(s, key),
    ensures
        0 <= first_not_before(s, x, key) <= s.len(),
        forall|i: int| 0 <= i < first_not_before(s, x, key) ==> key_before(key(#[trigger] s[i]), x),
        forall|i: int| first_not_before(s, x, key) <= i < s.len() ==> !key_before(key(#[trigger] s[i]), x),
    decreases s.len(),
{
    if s.len() > 0 {
        let t = s.drop_first();
        assert(sorted_by_key(t, key)) by {
            assert forall|i: int, j: int| 0 <= i < j < t.len() implies !key_before(key(t[j]), key(t[i])) by {
                assert(t[i] == s[i + 1] && t[j] == s[j + 1]);
            }
        }
        lemma_first_not_before_facts(t, x, key);
        if key_before(key(s[0]), x) {
            assert forall|i: int| 0 <= i < first_not_before(s, x, key) implies key_before(key(#[trigger] s[i]), x) by {
                if i > 0 {
                    assert(s[i] == t[i - 1]);
                }
            }
            assert forall|i: int| first_not_before(s, x, key) <= i < s.len() implies !key_before(key(#[trigger] s[i]), x) by {
                assert(s[i] == t[i - 1]);
            }
        } else {
            assert forall|i: int| 0 <= i < s.len() implies !key_before(key(#[trigger] s[i]), x) by {
                if i > 0 {
                    assert(!key_before(key(s[i]), key(s[0])));
                    lemma_key_order(key(s[i]), key(s[0]), x);
                    lemma_key_order(key(s[0]), key(s[i]), x);
                }
            }
        }
    }
}

} // verus!
