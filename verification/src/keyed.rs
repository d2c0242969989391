//! Records kept in a vector in strictly ascending key order, the way an ordered map
//! keeps them: at most one record per key, walked from the smallest key up.
use vstd::prelude::*;

verus! {

/// A record identified by an integer key.
pub trait Keyed: Sized {
    spec fn key(&self) -> int;
}

/// A run-time record whose key can be read.
pub trait KeyOf: Keyed {
    fn key_of(&self) -> (r: u64)
        ensures
            r as int == self.key(),
    ;
}

/// Whether the keys rise strictly from each record to the next.
pub open spec fn ascending<T: Keyed>(s: Seq<T>) -> bool {
    forall|i: int, j: int| 0 <= i < j < s.len() ==> #[trigger] s[i].key() < #[trigger] s[j].key()
}

/// Records with a key below `k`.
pub open spec fn key_below<T: Keyed>(k: int) -> spec_fn(T) -> bool {
    |t: T| t.key() < k
}

/// Records with a key above `k`.
pub open spec fn key_above<T: Keyed>(k: int) -> spec_fn(T) -> bool {
    |t: T| t.key() > k
}

/// Records with a key other than `k`.
pub open spec fn key_other<T: Keyed>(k: int) -> spec_fn(T) -> bool {
    |t: T| t.key() != k
}

/// The records with `x` in place of the one with its key, or added in key order.
pub open spec fn put<T: Keyed>(s: Seq<T>, x: T) -> Seq<T> {
    s.filter(key_below(x.key())) + seq![x] + s.filter(key_above(x.key()))
}

/// The records without the one keyed `k`.
pub open spec fn without<T: Keyed>(s: Seq<T>, k: int) -> Seq<T> {
    s.filter(key_other(k))
}

/// Whether some record has key `k`.
pub open spec fn has_key<T: Keyed>(s: Seq<T>, k: int) -> bool {
    exists|i: int| 0 <= i < s.len() && #[trigger] s[i].key() == k
}

/// The record keyed `k`, if there is one.
pub open spec fn lookup<T: Keyed>(s: Seq<T>, k: int) -> Option<T> {
    if has_key(s, k) {
        Some(s[choose|i: int| 0 <= i < s.len() && #[trigger] s[i].key() == k])
    } else {
        None
    }
}

/// Keeping the records that all satisfy a predicate keeps them all; keeping those
/// that none satisfies keeps nothing.
pub proof fn lemma_filter_uniform<A>(s: Seq<A>, pred: spec_fn(A) -> bool)
    ensures
        (forall|i: int| 0 <= i < s.len() ==> pred(#[trigger] s[i])) ==> s.filter(pred) == s,
        (forall|i: int| 0 <= i < s.len() ==> !pred(#[trigger] s[i])) ==> s.filter(pred) == Seq::<A>::empty(),
    decreases s.len(),
{
    reveal(Seq::filter);
    if s.len() > 0 {
        let rest = s.drop_last();
        lemma_filter_uniform(rest, pred);
        if forall|i: int| 0 <= i < s.len() ==> pred(#[trigger] s[i]) {
            assert(forall|i: int| 0 <= i < rest.len() ==> pred(#[trigger] rest[i])) by {
                assert forall|i: int| 0 <= i < rest.len() implies pred(#[trigger] rest[i]) by {
                    assert(rest[i] == s[i]);
                };
            };
            assert(rest.push(s.last()) =~= s);
        }
        if forall|i: int| 0 <= i < s.len() ==> !pred(#[trigger] s[i]) {
            assert(forall|i: int| 0 <= i < rest.len() ==> !pred(#[trigger] rest[i])) by {
                assert forall|i: int| 0 <= i < rest.len() implies !pred(#[trigger] rest[i]) by {
                    assert(rest[i] == s[i]);
                };
            };
            assert(!pred(s[s.len() - 1]));
        }
    } else {
        assert(s =~= Seq::<A>::empty());
    }
}

/// Keeping the records before `p` that all satisfy a predicate, and none after.
pub proof fn lemma_filter_prefix<A>(s: Seq<A>, p: int, pred: spec_fn(A) -> bool)
    requires
        0 <= p <= s.len(),
        forall|i: int| 0 <= i < p ==> pred(#[trigger] s[i]),
        forall|i: int| p <= i < s.len() ==> !pred(#[trigger] s[i]),
    ensures
        s.filter(pred) == s.take(p),
{
    let a = s.take(p);
    let b = s.skip(p);
    assert(s =~= a + b);
    Seq::filter_distributes_over_add(a, b, pred);
    lemma_filter_uniform(a, pred);
    lemma_filter_uniform(b, pred);
    assert(forall|i: int| 0 <= i < a.len() ==> pred(#[trigger] a[i])) by {
        assert forall|i: int| 0 <= i < a.len() implies pred(#[trigger] a[i]) by {
            assert(a[i] == s[i]);
        };
    };
    assert(forall|i: int| 0 <= i < b.len() ==> !pred(#[trigger] b[i])) by {
        assert forall|i: int| 0 <= i < b.len() implies !pred(#[trigger] b[i]) by {
            assert(b[i] == s[p + i]);
        };
    };
    assert(a + Seq::<A>::empty() =~= a);
}

/// Keeping the records from `p` on that all satisfy a predicate, and none before.
pub proof fn lemma_filter_suffix<A>(s: Seq<A>, p: int, pred: spec_fn(A) -> bool)
    requires
        0 <= p <= s.len(),
        forall|i: int| 0 <= i < p ==> !pred(#[trigger] s[i]),
        forall|i: int| p <= i < s.len() ==> pred(#[trigger] s[i]),
    ensures
        s.filter(pred) == s.skip(p),
{
    let a = s.take(p);
    let b = s.skip(p);
    assert(s =~= a + b);
    Seq::filter_distributes_over_add(a, b, pred);
    lemma_filter_uniform(a, pred);
    lemma_filter_uniform(b, pred);
    assert(forall|i: int| 0 <= i < a.len() ==> !pred(#[trigger] a[i])) by {
        assert forall|i: int| 0 <= i < a.len() implies !pred(#[trigger] a[i]) by {
            assert(a[i] == s[i]);
        };
    };
    assert(forall|i: int| 0 <= i < b.len() ==> pred(#[trigger] b[i])) by {
        assert forall|i: int| 0 <= i < b.len() implies pred(#[trigger] b[i]) by {
            assert(b[i] == s[p + i]);
        };
    };
    assert(Seq::<A>::empty() + b =~= b);
}

/// The records with keys below `k` are the ones before the first key of at least `k`,
/// and the others come after it, or after the record keyed `k` if that is the one.
pub proof fn lemma_split<T: Keyed>(s: Seq<T>, p: int, k: int)
    requires
        ascending(s),
        0 <= p <= s.len(),
        forall|i: int| 0 <= i < p ==> #[trigger] s[i].key() < k,
        p < s.len() ==> s[p].key() >= k,
    ensures
        s.filter(key_below(k)) == s.take(p),
        p < s.len() && s[p].key() == k ==> s.filter(key_above(k)) == s.skip(p + 1),
        !(p < s.len() && s[p].key() == k) ==> s.filter(key_above(k)) == s.skip(p),
        p < s.len() && s[p].key() == k ==> s.filter(key_other(k)) == s.take(p) + s.skip(p + 1),
        !(p < s.len() && s[p].key() == k) ==> s.filter(key_other(k)) == s,
{
    lemma_split_below(s, p, k);
    if p < s.len() && s[p].key() == k {
        lemma_split_hit(s, p, k);
    } else {
        lemma_split_miss(s, p, k);
    }
}

proof fn lemma_split_below<T: Keyed>(s: Seq<T>, p: int, k: int)
    requires
        ascending(s),
        0 <= p <= s.len(),
        forall|i: int| 0 <= i < p ==> #[trigger] s[i].key() < k,
        p < s.len() ==> s[p].key() >= k,
    ensures
        s.filter(key_below(k)) == s.take(p),
{
    assert forall|i: int| p <= i < s.len() implies !key_below::<T>(k)(#[trigger] s[i]) by {
        if i > p {
            assert(s[p].key() < s[i].key());
        }
    };
    lemma_filter_prefix(s, p, key_below::<T>(k));
}

proof fn lemma_split_hit<T: Keyed>(s: Seq<T>, p: int, k: int)
    requires
        ascending(s),
        0 <= p < s.len(),
        forall|i: int| 0 <= i < p ==> #[trigger] s[i].key() < k,
        s[p].key() == k,
    ensures
        s.filter(key_above(k)) == s.skip(p + 1),
        s.filter(key_other(k)) == s.take(p) + s.skip(p + 1),
{
    assert forall|i: int| p + 1 <= i < s.len() implies key_above::<T>(k)(#[trigger] s[i]) by {
        assert(s[p].key() < s[i].key());
    };
    lemma_filter_suffix(s, p + 1, key_above::<T>(k));
    assert forall|i: int| p + 1 <= i < s.len() implies #[trigger] s[i].key() > k by {
        assert(s[p].key() < s[i].key());
    };
    lemma_drop_one(s, p, k);
}

proof fn lemma_drop_one<T: Keyed>(s: Seq<T>, p: int, k: int)
    requires
        0 <= p < s.len(),
        forall|i: int| 0 <= i < p ==> #[trigger] s[i].key() < k,
        forall|i: int| p + 1 <= i < s.len() ==> #[trigger] s[i].key() > k,
        s[p].key() == k,
    ensures
        s.filter(key_other(k)) == s.take(p) + s.skip(p + 1),
{
    let pred = key_other::<T>(k);
    let a = s.take(p);
    let c = s.skip(p + 1);
    let x = seq![s[p]];
    assert(s =~= a + (x + c));
    Seq::filter_distributes_over_add(a, x + c, pred);
    Seq::filter_distributes_over_add(x, c, pred);
    assert forall|i: int| 0 <= i < a.len() implies pred(#[trigger] a[i]) by {
        assert(a[i] == s[i]);
    };
    assert forall|i: int| 0 <= i < c.len() implies pred(#[trigger] c[i]) by {
        assert(c[i] == s[p + 1 + i]);
    };
    assert forall|i: int| 0 <= i < x.len() implies !pred(#[trigger] x[i]) by {
        assert(x[i] == s[p]);
    };
    lemma_filter_uniform(a, pred);
    lemma_filter_uniform(x, pred);
    lemma_filter_uniform(c, pred);
    assert(Seq::<T>::empty() + c =~= c);
}

proof fn lemma_split_miss<T: Keyed>(s: Seq<T>, p: int, k: int)
    requires
        ascending(s),
        0 <= p <= s.len(),
        forall|i: int| 0 <= i < p ==> #[trigger] s[i].key() < k,
        p < s.len() ==> s[p].key() > k,
    ensures
        s.filter(key_above(k)) == s.skip(p),
        s.filter(key_other(k)) == s,
{
    assert forall|i: int| p <= i < s.len() implies key_above::<T>(k)(#[trigger] s[i]) by {
        if i > p {
            assert(s[p].key() < s[i].key());
        }
    };
    lemma_filter_suffix(s, p, key_above::<T>(k));
    assert forall|i: int| 0 <= i < s.len() implies key_other::<T>(k)(#[trigger] s[i]) by {
        if i > p {
            assert(s[p].key() < s[i].key());
        }
    };
    lemma_filter_uniform(s, key_other::<T>(k));
}

/// Where the record keyed `k` is, if there is one.
pub fn position<T: KeyOf>(v: &Vec<T>, k: u64) -> (r: Option<usize>)
    requires
        ascending(v@),
    ensures
        match r {
            Some(i) => i < v@.len() && v@[i as int].key() == k && lookup(v@, k as int) == Some(v@[i as int]),
            None => !has_key(v@, k as int) && lookup(v@, k as int) is None,
        },
{
    let mut i: usize = 0;
    while i < v.len()
        invariant
            i <= v@.len(),
            ascending(v@),
            forall|j: int| 0 <= j < i ==> #[trigger] v@[j].key() != k,
        decreases v.len() - i,
    {
        if v[i].key_of() == k {
            let ghost c = choose|j: int| 0 <= j < v@.len() && #[trigger] v@[j].key() == k;
            assert(v@[i as int].key() == k as int);
            assert(c == i) by {
                if c < i {
                    assert(v@[c].key() < v@[i as int].key());
                } else if c > i {
                    assert(v@[i as int].key() < v@[c].key());
                }
            };
            return Some(i);
        }
        i += 1;
    }
    assert(!has_key(v@, k as int));
    None
}

/// Where a record keyed `k` belongs: the first position whose key is at least `k`.
fn slot<T: KeyOf>(v: &Vec<T>, k: u64) -> (p: usize)
    requires
        ascending(v@),
    ensures
        p <= v@.len(),
        forall|i: int| 0 <= i < p ==> #[trigger] v@[i].key() < k,
        p < v@.len() ==> v@[p as int].key() >= k,
{
    let mut i: usize = 0;
    while i < v.len()
        invariant
            i <= v@.len(),
            forall|j: int| 0 <= j < i ==> #[trigger] v@[j].key() < k,
        decreases v.len() - i,
    {
        if v[i].key_of() >= k {
            return i;
        }
        i += 1;
    }
    i
}

/// Puts `x` in place of the record with its key, or in key order among the others.
pub fn put_record<T: KeyOf>(v: &mut Vec<T>, x: T)
    requires
        ascending(old(v)@),
    ensures
        final(v)@ == put(old(v)@, x),
        ascending(final(v)@),
{
    let k = x.key_of();
    let p = slot(v, k);
    proof {
        lemma_split(v@, p as int, k as int);
    }
    let ghost s = v@;
    if p < v.len() && v[p].key_of() == k {
        v.set(p, x);
        assert(v@ =~= s.take(p as int) + seq![x] + s.skip(p + 1));
    } else {
        v.insert(p, x);
        assert(v@ =~= s.take(p as int) + seq![x] + s.skip(p as int));
    }
    assert forall|i: int, j: int| 0 <= i < j < v@.len() implies #[trigger] v@[i].key() < #[trigger] v@[j].key() by {
        if i < p && j > p {
            assert(v@[i].key() < k);
        }
    };
}

/// Takes out the record keyed `k`, if there is one.
pub fn take_record<T: KeyOf>(v: &mut Vec<T>, k: u64) -> (r: Option<T>)
    requires
        ascending(old(v)@),
    ensures
        r == lookup(old(v)@, k as int),
        final(v)@ == without(old(v)@, k as int),
        r is None ==> final(v)@ == old(v)@,
        ascending(final(v)@),
{
    let p = slot(v, k);
    proof {
        lemma_split(v@, p as int, k as int);
    }
    let ghost s = v@;
    if p < v.len() && v[p].key_of() == k {
        let ghost c = choose|j: int| 0 <= j < s.len() && #[trigger] s[j].key() == k;
        assert(s[p as int].key() == k as int);
        assert(c == p) by {
            if c < p {
                assert(s[c].key() < s[p as int].key());
            } else if c > p {
                assert(s[p as int].key() < s[c].key());
            }
        };
        let x = v.remove(p);
        assert(v@ =~= s.take(p as int) + s.skip(p + 1));
        assert forall|i: int, j: int| 0 <= i < j < v@.len() implies #[trigger] v@[i].key() < #[trigger] v@[j].key() by {
            let a = if i < p { i } else { i + 1 };
            let b = if j < p { j } else { j + 1 };
            assert(v@[i] == s[a] && v@[j] == s[b]);
        };
        Some(x)
    } else {
        assert(!has_key(s, k as int)) by {
            if has_key(s, k as int) {
                let c = choose|j: int| 0 <= j < s.len() && #[trigger] s[j].key() == k;
                if c < p {
                } else if c > p {
                    assert(s[p as int].key() < s[c].key());
                }
            }
        };
        None
    }
}

/// Viewing the records one by one and then keeping those with a key property is
/// keeping them first and then viewing them, when a record and its view share a key.
pub proof fn lemma_filter_map<A, B>(s: Seq<A>, f: spec_fn(A) -> B, p: spec_fn(A) -> bool, q: spec_fn(B) -> bool)
    requires
        forall|a: A| #[trigger] p(a) == q(f(a)),
    ensures
        s.filter(p).map_values(f) == s.map_values(f).filter(q),
    decreases s.len(),
{
    reveal(Seq::filter);
    if s.len() > 0 {
        lemma_filter_map(s.drop_last(), f, p, q);
        assert(s.map_values(f).drop_last() =~= s.drop_last().map_values(f));
        if p(s.last()) {
            assert(s.drop_last().filter(p).push(s.last()).map_values(f) =~= s.drop_last().filter(p).map_values(
                f,
            ).push(f(s.last())));
        }
    } else {
        assert(s.filter(p).map_values(f) =~= s.map_values(f).filter(q));
    }
}

/// Keeping records twice keeps what the stricter predicate keeps.
pub proof fn lemma_filter_twice<A>(s: Seq<A>, p: spec_fn(A) -> bool, q: spec_fn(A) -> bool)
    requires
        forall|a: A| #[trigger] q(a) ==> p(a),
    ensures
        s.filter(p).filter(q) == s.filter(q),
    decreases s.len(),
{
    reveal(Seq::filter);
    if s.len() > 0 {
        let d = s.drop_last();
        lemma_filter_twice(d, p, q);
        let a = d.filter(p);
        if p(s.last()) {
            assert(a.push(s.last()).drop_last() =~= a);
            assert(a.push(s.last()).last() == s.last());
        }
    }
}

/// Putting a record back where its key was taken out is putting it in place.
pub proof fn lemma_put_without<T: Keyed>(s: Seq<T>, x: T)
    ensures
        put(without(s, x.key()), x) == put(s, x),
{
    lemma_filter_twice(s, key_other::<T>(x.key()), key_below::<T>(x.key()));
    lemma_filter_twice(s, key_other::<T>(x.key()), key_above::<T>(x.key()));
}

/// Viewing records keeps their order by key.
pub proof fn lemma_ascending_view<T: Keyed + View>(s: Seq<T>)
    where <T as View>::V: Keyed,
    requires
        ascending(s),
        forall|t: T| #[trigger] t@.key() == t.key(),
    ensures
        ascending(s.map_values(|t: T| t@)),
{
    let v = s.map_values(|t: T| t@);
    assert forall|i: int, j: int| 0 <= i < j < v.len() implies #[trigger] v[i].key() < #[trigger] v[j].key() by {
        assert(s[i].key() < s[j].key());
        assert(s[i]@.key() == s[i].key());
        assert(s[j]@.key() == s[j].key());
    };
}

/// Putting a record and then viewing the records is viewing them and putting its view.
pub proof fn lemma_put_view<T: Keyed + View>(s: Seq<T>, x: T)
    where <T as View>::V: Keyed,
    requires
        forall|t: T| #[trigger] t@.key() == t.key(),
    ensures
        put(s, x).map_values(|t: T| t@) == put(s.map_values(|t: T| t@), x@),
{
    let f = |t: T| t@;
    let k = x.key();
    assert(x@.key() == k);
    assert forall|a: T| #[trigger] key_below::<T>(k)(a) == key_below::<<T as View>::V>(k)(f(a)) by {
        assert(a@.key() == a.key());
    };
    assert forall|a: T| #[trigger] key_above::<T>(k)(a) == key_above::<<T as View>::V>(k)(f(a)) by {
        assert(a@.key() == a.key());
    };
    lemma_filter_map(s, f, key_below::<T>(k), key_below::<<T as View>::V>(k));
    lemma_filter_map(s, f, key_above::<T>(k), key_above::<<T as View>::V>(k));
    let a = s.filter(key_below::<T>(k));
    let b = s.filter(key_above::<T>(k));
    assert((a + seq![x] + b).map_values(f) =~= a.map_values(f) + seq![f(x)] + b.map_values(f));
}

/// Taking a record out and then viewing the records is viewing them and taking out its key.
pub proof fn lemma_without_view<T: Keyed + View>(s: Seq<T>, k: int)
    where <T as View>::V: Keyed,
    requires
        forall|t: T| #[trigger] t@.key() == t.key(),
    ensures
        without(s, k).map_values(|t: T| t@) == without(s.map_values(|t: T| t@), k),
{
    let f = |t: T| t@;
    assert forall|a: T| #[trigger] key_other::<T>(k)(a) == key_other::<<T as View>::V>(k)(f(a)) by {
        assert(a@.key() == a.key());
    };
    lemma_filter_map(s, f, key_other::<T>(k), key_other::<<T as View>::V>(k));
}

/// The record keyed `k` among the views is the view of the record keyed `k`.
pub proof fn lemma_lookup_view<T: Keyed + View>(s: Seq<T>, k: int)
    where <T as View>::V: Keyed,
    requires
        ascending(s),
        forall|t: T| #[trigger] t@.key() == t.key(),
    ensures
        has_key(s.map_values(|t: T| t@), k) == has_key(s, k),
        lookup(s.map_values(|t: T| t@), k) == match lookup(s, k) {
            Some(t) => Some(t@),
            None => None::<<T as View>::V>,
        },
{
    let v = s.map_values(|t: T| t@);
    if has_key(s, k) {
        let i = choose|i: int| 0 <= i < s.len() && #[trigger] s[i].key() == k;
        assert(v[i].key() == s[i].key());
        let j = choose|j: int| 0 <= j < v.len() && #[trigger] v[j].key() == k;
        assert(v[j].key() == s[j].key());
        assert(i == j) by {
            if i < j {
                assert(s[i].key() < s[j].key());
            } else if j < i {
                assert(s[j].key() < s[i].key());
            }
        };
    } else {
        assert(!has_key(v, k)) by {
            if has_key(v, k) {
                let j = choose|j: int| 0 <= j < v.len() && #[trigger] v[j].key() == k;
                assert(v[j].key() == s[j].key());
            }
        };
    }
}

/// Keeping records keeps only records that were there.
pub proof fn lemma_filter_members<A>(s: Seq<A>, pred: spec_fn(A) -> bool)
    ensures
        forall|i: int| 0 <= i < s.filter(pred).len() ==> s.contains(#[trigger] s.filter(pred)[i]),
    decreases s.len(),
{
    reveal(Seq::filter);
    if s.len() > 0 {
        let d = s.drop_last();
        lemma_filter_members(d, pred);
        assert forall|i: int| 0 <= i < s.filter(pred).len() implies s.contains(#[trigger] s.filter(pred)[i]) by {
            if i < d.filter(pred).len() {
                let x = d.filter(pred)[i];
                assert(s.filter(pred)[i] == x);
                let j = choose|j: int| 0 <= j < d.len() && d[j] == x;
                assert(s[j] == x);
            } else {
                assert(s.filter(pred)[i] == s.last());
                assert(s[s.len() - 1] == s.last());
            }
        };
    }
}

/// Putting or taking out records keeps every key within a bound that all of them,
/// and the record put, respect.
pub proof fn lemma_bounded<T: Keyed>(s: Seq<T>, x: T, k: int, b: int)
    requires
        forall|i: int| 0 <= i < s.len() ==> #[trigger] s[i].key() <= b,
    ensures
        x.key() <= b ==> forall|i: int| 0 <= i < put(s, x).len() ==> #[trigger] put(s, x)[i].key() <= b,
        forall|i: int| 0 <= i < without(s, k).len() ==> #[trigger] without(s, k)[i].key() <= b,
{
    lemma_filter_members(s, key_below::<T>(x.key()));
    lemma_filter_members(s, key_above::<T>(x.key()));
    lemma_filter_members(s, key_other::<T>(k));
    let a = s.filter(key_below::<T>(x.key()));
    let c = s.filter(key_above::<T>(x.key()));
    if x.key() <= b {
        assert forall|i: int| 0 <= i < put(s, x).len() implies #[trigger] put(s, x)[i].key() <= b by {
            if i < a.len() {
                assert(put(s, x)[i] == a[i]);
                assert(s.contains(a[i]));
            } else if i > a.len() {
                assert(put(s, x)[i] == c[i - a.len() - 1]);
                assert(s.contains(c[i - a.len() - 1]));
            }
        };
    }
    assert forall|i: int| 0 <= i < without(s, k).len() implies #[trigger] without(s, k)[i].key() <= b by {
        assert(s.contains(without(s, k)[i]));
    };
}

/// Putting back the record found under its key changes nothing.
pub proof fn lemma_put_same<T: Keyed>(s: Seq<T>, x: T)
    requires
        ascending(s),
        lookup(s, x.key()) == Some(x),
    ensures
        put(s, x) == s,
{
    let k = x.key();
    let p = choose|i: int| 0 <= i < s.len() && #[trigger] s[i].key() == k;
    assert(s[p] == x);
    assert forall|i: int| 0 <= i < p implies #[trigger] s[i].key() < k by {
        assert(s[i].key() < s[p].key());
    };
    lemma_split(s, p, k);
    assert(s.take(p) + seq![x] + s.skip(p + 1) =~= s);
}

/// After a record is put, its key is there.
pub proof fn lemma_put_has<T: Keyed>(s: Seq<T>, x: T)
    ensures
        has_key(put(s, x), x.key()),
{
    let i = s.filter(key_below::<T>(x.key())).len() as int;
    assert(put(s, x)[i] == x);
}

} // verus!
