//! Searching in sequences.

use vstd::prelude::*;

verus! {

/// The index of the first item that satisfies `pred`, or the length if none does.
pub open spec fn position<A>(s: Seq<A>, pred: spec_fn(A) -> bool) -> int
    decreases s.len(),
{
    if s.len() == 0 || pred(s[0]) {
        0
    } else {
        1 + position(s.drop_first(), pred)
    }
}

/// What `f` makes of the first item of which it makes something.
pub open spec fn find_map<A, B>(s: Seq<A>, f: spec_fn(A) -> Option<B>) -> Option<B> {
    let i = position(s, |a: A| f(a) is Some);
    if i < s.len() {
        f(s[i])
    } else {
        None
    }
}

/// What the position of the first item says.
pub proof fn lemma_position<A>(s: Seq<A>, pred: spec_fn(A) -> bool)
    ensures
        0 <= position(s, pred) <= s.len(),
        forall|j: int| 0 <= j < position(s, pred) ==> !pred(#[trigger] s[j]),
        position(s, pred) < s.len() ==> pred(s[position(s, pred)]),
    decreases s.len(),
{
    if s.len() != 0 && !pred(s[0]) {
        let rest = s.drop_first();
        lemma_position(rest, pred);
        assert forall|j: int| 0 <= j < position(s, pred) implies !pred(#[trigger] s[j]) by {
            if j > 0 {
                assert(s[j] == rest[j - 1]);
            }
        }
    }
}

/// An index before which nothing satisfies `pred`, and which is the length or satisfies it,
/// is the position of the first item.
pub proof fn lemma_position_is<A>(s: Seq<A>, pred: spec_fn(A) -> bool, i: int)
    requires
        0 <= i <= s.len(),
        forall|j: int| 0 <= j < i ==> !pred(#[trigger] s[j]),
        i < s.len() ==> pred(s[i]),
    ensures
        position(s, pred) == i,
{
    lemma_position(s, pred);
    let p = position(s, pred);
    if p < i {
        assert(!pred(s[p]));
    } else if i < p {
        assert(!pred(s[i]));
    }
}

/// The first item of which `f` makes something stands at `i`.
pub proof fn lemma_find_map_at<A, B>(s: Seq<A>, f: spec_fn(A) -> Option<B>, i: int)
    requires
        0 <= i < s.len(),
        forall|j: int| 0 <= j < i ==> f(#[trigger] s[j]) is None,
        f(s[i]) is Some,
    ensures
        find_map(s, f) == f(s[i]),
{
    lemma_position_is(s, |a: A| f(a) is Some, i);
}

/// There is no item of which `f` makes something.
pub proof fn lemma_find_map_none<A, B>(s: Seq<A>, f: spec_fn(A) -> Option<B>)
    requires
        forall|j: int| 0 <= j < s.len() ==> f(#[trigger] s[j]) is None,
    ensures
        find_map(s, f) is None,
{
    lemma_position_is(s, |a: A| f(a) is Some, s.len() as int);
}

/// Either some first item is found, or there is none to find.
pub proof fn lemma_find_map_cases<A, B>(s: Seq<A>, f: spec_fn(A) -> Option<B>) -> (i: int)
    ensures
        0 <= i <= s.len(),
        forall|j: int| 0 <= j < i ==> f(#[trigger] s[j]) is None,
        i < s.len() ==> f(s[i]) is Some && find_map(s, f) == f(s[i]),
        i == s.len() ==> find_map(s, f) is None,
{
    let pred = |a: A| f(a) is Some;
    lemma_position(s, pred);
    let i = position(s, pred);
    assert forall|j: int| 0 <= j < i implies f(#[trigger] s[j]) is None by {
        assert(!pred(s[j]));
    }
    i
}

/// A first item that is not found can be left out.
pub proof fn lemma_find_map_first<A, B>(s: Seq<A>, f: spec_fn(A) -> Option<B>)
    requires
        s.len() > 0,
        f(s[0]) is None,
    ensures
        find_map(s, f) == find_map(s.drop_first(), f),
{
    let pred = |a: A| f(a) is Some;
    let rest = s.drop_first();
    lemma_position(rest, pred);
    let i = position(rest, pred);
    assert(position(s, pred) == 1 + i);
    if i < rest.len() {
        assert(s[1 + i] == rest[i]);
    }
}

/// One more item is found only where nothing was found before it.
pub proof fn lemma_find_map_push<A, B>(s: Seq<A>, f: spec_fn(A) -> Option<B>, a: A)
    ensures
        find_map(s.push(a), f) == (if find_map(s, f) is Some {
            find_map(s, f)
        } else {
            f(a)
        }),
{
    let after = s.push(a);
    let i = lemma_find_map_cases(s, f);
    assert forall|j: int| 0 <= j < i implies f(#[trigger] after[j]) is None by {
        assert(after[j] == s[j]);
    }
    if i < s.len() {
        assert(after[i] == s[i]);
        lemma_find_map_at(after, f, i);
    } else if f(a) is Some {
        lemma_find_map_at(after, f, i);
    } else {
        lemma_find_map_none(after, f);
    }
}

/// Of two rows, the second counts only where nothing is found in the first.
pub proof fn lemma_find_map_add<A, B>(s: Seq<A>, t: Seq<A>, f: spec_fn(A) -> Option<B>)
    ensures
        find_map(s + t, f) == (if find_map(s, f) is Some {
            find_map(s, f)
        } else {
            find_map(t, f)
        }),
    decreases t.len(),
{
    if t.len() == 0 {
        assert(s + t =~= s);
        lemma_find_map_none(t, f);
    } else {
        let rest = t.drop_last();
        assert(rest.push(t.last()) =~= t);
        assert((s + rest).push(t.last()) =~= s + t);
        lemma_find_map_add(s, rest, f);
        lemma_find_map_push(rest, f, t.last());
        lemma_find_map_push(s + rest, f, t.last());
    }
}

/// Exchanging an item that is not found for another such changes nothing.
pub proof fn lemma_find_map_update<A, B>(s: Seq<A>, f: spec_fn(A) -> Option<B>, k: int, a: A)
    requires
        0 <= k < s.len(),
        f(s[k]) is None,
        f(a) is None,
    ensures
        find_map(s.update(k, a), f) == find_map(s, f),
{
    let after = s.update(k, a);
    let i = lemma_find_map_cases(s, f);
    assert forall|j: int| 0 <= j < i implies f(#[trigger] after[j]) is None by {
        assert(f(s[j]) is None);
    }
    if i < s.len() {
        assert(after[i] == s[i]);
        lemma_find_map_at(after, f, i);
    } else {
        lemma_find_map_none(after, f);
    }
}

/// One more item adds what `f` makes of it.
pub proof fn lemma_filter_map_push<A, B>(s: Seq<A>, f: spec_fn(A) -> Option<B>, a: A)
    ensures
        s.push(a).filter_map(f) == (match f(a) {
            Some(b) => s.filter_map(f).push(b),
            None => s.filter_map(f),
        }),
{
    reveal(Seq::filter_map);
    assert(s.push(a).drop_last() =~= s);
    if let Some(b) = f(a) {
        assert(s.filter_map(f) + seq![b] =~= s.filter_map(f).push(b));
    }
}

/// Two rows add what `f` makes of each.
pub proof fn lemma_filter_map_add<A, B>(s: Seq<A>, t: Seq<A>, f: spec_fn(A) -> Option<B>)
    ensures
        (s + t).filter_map(f) == s.filter_map(f) + t.filter_map(f),
    decreases t.len(),
{
    if t.len() == 0 {
        reveal(Seq::filter_map);
        assert(s + t =~= s);
        assert(s.filter_map(f) + t.filter_map(f) =~= s.filter_map(f));
    } else {
        let rest = t.drop_last();
        assert(rest.push(t.last()) =~= t);
        assert((s + rest).push(t.last()) =~= s + t);
        lemma_filter_map_add(s, rest, f);
        lemma_filter_map_push(rest, f, t.last());
        lemma_filter_map_push(s + rest, f, t.last());
        assert((s + t).filter_map(f) =~= s.filter_map(f) + t.filter_map(f));
    }
}

/// Exchanging an item of which `f` makes nothing for another such changes nothing.
pub proof fn lemma_filter_map_update<A, B>(s: Seq<A>, f: spec_fn(A) -> Option<B>, k: int, a: A)
    requires
        0 <= k < s.len(),
        f(s[k]) is None,
        f(a) is None,
    ensures
        s.update(k, a).filter_map(f) == s.filter_map(f),
{
    let head = s.take(k);
    let tail = s.skip(k + 1);
    assert(s =~= head.push(s[k]) + tail);
    assert(s.update(k, a) =~= head.push(a) + tail);
    lemma_filter_map_push(head, f, s[k]);
    lemma_filter_map_push(head, f, a);
    lemma_filter_map_add(head.push(s[k]), tail, f);
    lemma_filter_map_add(head.push(a), tail, f);
}

/// Where `f` makes something of every item, it makes it in order.
pub proof fn lemma_filter_map_all<A, B>(s: Seq<A>, f: spec_fn(A) -> Option<B>, r: Seq<B>)
    requires
        r.len() == s.len(),
        forall|i: int| 0 <= i < s.len() ==> f(#[trigger] s[i]) == Some(r[i]),
    ensures
        s.filter_map(f) == r,
    decreases s.len(),
{
    if s.len() == 0 {
        reveal(Seq::filter_map);
        assert(s.filter_map(f) =~= r);
    } else {
        lemma_filter_map_all(s.drop_last(), f, r.drop_last());
        assert(s.drop_last().push(s.last()) =~= s);
        lemma_filter_map_push(s.drop_last(), f, s.last());
        assert(r.drop_last().push(r.last()) =~= r);
    }
}

} // verus!
